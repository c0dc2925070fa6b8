use vstd::prelude::*;

verus! {

/// What one byte becomes in HTML-escaped output: `&` -> `&amp;`,
/// `<` -> `&lt;`, `>` -> `&gt;`, everything else unchanged.
pub open spec fn escape_byte(b: u8) -> Seq<u8> {
    if b == 38 {
        seq![38u8, 97u8, 109u8, 112u8, 59u8]
    } else if b == 60 {
        seq![38u8, 108u8, 116u8, 59u8]
    } else if b == 62 {
        seq![38u8, 103u8, 116u8, 59u8]
    } else {
        seq![b]
    }
}

/// HTML-escaped form of a whole byte string.
pub open spec fn spec_escape(s: Seq<u8>) -> Seq<u8>
    decreases s.len(),
{
    if s.len() == 0 {
        Seq::empty()
    } else {
        spec_escape(s.drop_last()) + escape_byte(s.last())
    }
}

/// Escapes `&`, `<` and `>` so that the bytes are safe to embed in HTML.
pub fn escape_html(s: &[u8]) -> (r: Vec<u8>)
    ensures
        r@ == spec_escape(s@),
{
    let mut out: Vec<u8> = Vec::new();
    let mut i: usize = 0;
    while i < s.len()
        invariant
            i <= s.len(),
            out@ == spec_escape(s@.subrange(0, i as int)),
        decreases s.len() - i,
    {
        let ghost prev = out@;
        let b = s[i];
        if b == 38 {
            out.push(38);
            out.push(97);
            out.push(109);
            out.push(112);
            out.push(59);
        } else if b == 60 {
            out.push(38);
            out.push(108);
            out.push(116);
            out.push(59);
        } else if b == 62 {
            out.push(38);
            out.push(103);
            out.push(116);
            out.push(59);
        } else {
            out.push(b);
        }
        proof {
            assert(s@.subrange(0, i as int + 1).drop_last() =~= s@.subrange(0, i as int));
            assert(s@.subrange(0, i as int + 1).last() == s@[i as int]);
            assert(out@ =~= prev + escape_byte(s@[i as int]));
        }
        i = i + 1;
    }
    assert(s@.subrange(0, s@.len() as int) =~= s@);
    out
}

pub proof fn lemma_escape_byte_safe(b: u8)
    ensures
        forall|i: int|
            0 <= i < escape_byte(b).len() ==> escape_byte(b)[i] != 60u8 && escape_byte(b)[i]
                != 62u8,
{
}

/// No raw markup survives escaping: the escaped form of any byte string
/// contains neither `<` nor `>`.
pub proof fn lemma_escape_no_markup(s: Seq<u8>)
    ensures
        forall|i: int|
            0 <= i < spec_escape(s).len() ==> spec_escape(s)[i] != 60u8 && spec_escape(s)[i]
                != 62u8,
    decreases s.len(),
{
    if s.len() == 0 {
    } else {
        lemma_escape_no_markup(s.drop_last());
        lemma_escape_byte_safe(s.last());
        assert forall|i: int|
            0 <= i < spec_escape(s).len() implies spec_escape(s)[i] != 60u8 && spec_escape(s)[i]
            != 62u8 by {
            let left = spec_escape(s.drop_last());
            if i < left.len() {
                assert(spec_escape(s)[i] == left[i]);
            } else {
                assert(spec_escape(s)[i] == escape_byte(s.last())[i - left.len()]);
            }
        }
    }
}

} // verus!
