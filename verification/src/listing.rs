use vstd::prelude::*;

use crate::bytes::{concat_bytes, push_bytes, views_of};
use crate::escape::{escape_html, spec_escape};
use crate::lit::{
    anchor_close_bytes, anchor_mid_bytes, anchor_open_bytes, lit_anchor_close, lit_anchor_mid,
    lit_anchor_open, lit_text_html, text_html_bytes,
};
use crate::response::{file_head, spec_file_head};

verus! {

/// One hyperlink line of a listing: the anchor around the escaped target,
/// the escaped display text, and a line break.
pub open spec fn spec_href_line(href: Seq<u8>, text: Seq<u8>) -> Seq<u8> {
    lit_anchor_open() + spec_escape(href) + lit_anchor_mid() + spec_escape(text) + lit_anchor_close()
}

/// Where one directory entry points: the request path, a slash, the name.
pub open spec fn spec_entry_href(req_path: Seq<u8>, name: Seq<u8>) -> Seq<u8> {
    req_path + seq![47u8] + name
}

/// The hyperlink line of one directory entry.
pub open spec fn spec_entry_line(req_path: Seq<u8>, name: Seq<u8>) -> Seq<u8> {
    spec_href_line(spec_entry_href(req_path, name), name)
}

/// All lines of a listing: one per entry, in enumeration order, and one
/// final line that points to the parent directory.
pub open spec fn spec_listing_lines(req_path: Seq<u8>, entries: Seq<Seq<u8>>, parent: Seq<u8>) -> Seq<Seq<u8>> {
    Seq::new(
        entries.len() + 1,
        |i: int|
            if i < entries.len() {
                spec_entry_line(req_path, entries[i])
            } else {
                spec_href_line(parent, parent)
            },
    )
}

/// The listing body: its lines, joined.
pub open spec fn spec_listing_body(req_path: Seq<u8>, entries: Seq<Seq<u8>>, parent: Seq<u8>) -> Seq<u8> {
    concat_bytes(spec_listing_lines(req_path, entries, parent))
}

/// The header block of a listing response: HTML content type and the exact
/// body length.
pub open spec fn spec_listing_head(body_len: nat) -> Seq<u8> {
    spec_file_head(lit_text_html(), body_len)
}

/// Listing completeness: the body is the concatenation of exactly one
/// hyperlink line per directory entry, in order, followed by exactly one
/// parent line — entry count plus one lines in all.
pub proof fn lemma_listing_completeness(req_path: Seq<u8>, entries: Seq<Seq<u8>>, parent: Seq<u8>)
    ensures
        spec_listing_lines(req_path, entries, parent).len() == entries.len() + 1,
        forall|i: int|
            0 <= i < entries.len() ==> spec_listing_lines(req_path, entries, parent)[i]
                == spec_entry_line(req_path, entries[i]),
        spec_listing_lines(req_path, entries, parent).last() == spec_href_line(parent, parent),
        spec_listing_body(req_path, entries, parent) == concat_bytes(
            spec_listing_lines(req_path, entries, parent),
        ),
{
}

/// An anchor opening `<a href="` begins at position `i` of `s`.
pub open spec fn is_anchor_at(s: Seq<u8>, i: int) -> bool {
    0 <= i && i + 9 <= s.len() && s.subrange(i, i + 9) == lit_anchor_open()
}

pub open spec fn anchor_count_from(s: Seq<u8>, i: int) -> nat
    decreases s.len() - i,
{
    if i < 0 || i >= s.len() {
        0
    } else {
        (if is_anchor_at(s, i) {
            1nat
        } else {
            0nat
        }) + anchor_count_from(s, i + 1)
    }
}

/// How many anchor openings `<a href="` the bytes of `s` hold.
pub open spec fn anchor_count(s: Seq<u8>) -> nat {
    anchor_count_from(s, 0)
}

proof fn lemma_count_from_zero(s: Seq<u8>, i: int)
    requires
        forall|j: int| i <= j < s.len() ==> !is_anchor_at(s, j),
    ensures
        anchor_count_from(s, i) == 0,
    decreases s.len() - i,
{
    if i < 0 || i >= s.len() {
    } else {
        assert(!is_anchor_at(s, i));
        lemma_count_from_zero(s, i + 1);
    }
}

proof fn lemma_count_from_shift(x: Seq<u8>, y: Seq<u8>, i: int)
    requires
        0 <= i <= y.len(),
    ensures
        anchor_count_from(x + y, x.len() + i) == anchor_count_from(y, i),
    decreases y.len() - i,
{
    if i >= y.len() {
    } else {
        if i + 9 <= y.len() {
            assert((x + y).subrange(x.len() + i, x.len() + i + 9) =~= y.subrange(i, i + 9));
        }
        assert(is_anchor_at(x + y, x.len() + i) == is_anchor_at(y, i));
        lemma_count_from_shift(x, y, i + 1);
    }
}

proof fn lemma_count_from_concat(x: Seq<u8>, y: Seq<u8>, i: int)
    requires
        0 <= i <= x.len(),
        forall|j: int| x.len() - 9 < j < x.len() ==> !is_anchor_at(x + y, j),
    ensures
        anchor_count_from(x + y, i) == anchor_count_from(x, i) + anchor_count(y),
    decreases x.len() - i,
{
    if i == x.len() {
        lemma_count_from_shift(x, y, 0);
    } else {
        if i + 9 <= x.len() {
            assert((x + y).subrange(i, i + 9) =~= x.subrange(i, i + 9));
            assert(is_anchor_at(x + y, i) == is_anchor_at(x, i));
        } else {
            assert(!is_anchor_at(x + y, i));
            assert(!is_anchor_at(x, i));
        }
        lemma_count_from_concat(x, y, i + 1);
    }
}

/// When no anchor opening straddles the boundary, the count of a
/// concatenation is the sum of the counts.
proof fn lemma_count_concat(x: Seq<u8>, y: Seq<u8>)
    requires
        forall|j: int| x.len() - 9 < j < x.len() ==> !is_anchor_at(x + y, j),
    ensures
        anchor_count(x + y) == anchor_count(x) + anchor_count(y),
{
    lemma_count_from_concat(x, y, 0);
}

/// A hyperlink line holds exactly one anchor opening, at its front, and its
/// last ten bytes are the closing markup.
proof fn lemma_href_line_props(h: Seq<u8>, t: Seq<u8>)
    ensures
        spec_href_line(h, t).len() >= 21,
        anchor_count(spec_href_line(h, t)) == 1,
        forall|m: int|
            0 <= m < 10 ==> spec_href_line(h, t)[spec_href_line(h, t).len() - 10 + m]
                == lit_anchor_close()[m],
{
    let line = spec_href_line(h, t);
    let eh = spec_escape(h);
    let et = spec_escape(t);
    crate::escape::lemma_escape_no_markup(h);
    crate::escape::lemma_escape_no_markup(t);
    assert(line.len() == 21 + eh.len() + et.len());
    assert forall|j: int| 0 <= j < 9 implies line[j] == lit_anchor_open()[j] by {}
    assert forall|j: int| 9 <= j < 9 + eh.len() implies line[j] == eh[j - 9] by {}
    assert forall|j: int|
        9 + eh.len() <= j < 11 + eh.len() implies line[j] == lit_anchor_mid()[j - 9
        - eh.len()] by {}
    assert forall|j: int|
        11 + eh.len() <= j < 11 + eh.len() + et.len() implies line[j] == et[j - 11
        - eh.len()] by {}
    assert forall|m: int|
        0 <= m < 10 implies line[line.len() - 10 + m] == lit_anchor_close()[m] by {}
    assert(line.subrange(0, 9) =~= lit_anchor_open());
    assert(is_anchor_at(line, 0));
    assert forall|j: int| 1 <= j < line.len() implies !is_anchor_at(line, j) by {
        if j + 9 <= line.len() {
            if line[j] == 60 {
                // a `<` stands only at the front and in the closing markup
                assert(j >= line.len() - 10);
                let m = j - (line.len() - 10);
                assert(lit_anchor_close()[m] == 60);
                assert(m == 0 || m == 4);
                if m == 0 {
                    // the byte after this `<` is `/`, not `a`
                    if is_anchor_at(line, j) {
                        assert(line.subrange(j, j + 9)[1] == line[j + 1]);
                        assert(line[j + 1] == lit_anchor_close()[1]);
                        assert(lit_anchor_open()[1] == 97);
                        assert(false);
                    }
                } else {
                    // too near the end for nine more bytes
                    assert(j + 9 > line.len());
                }
            } else {
                if is_anchor_at(line, j) {
                    assert(line.subrange(j, j + 9)[0] == line[j]);
                    assert(lit_anchor_open()[0] == 60);
                    assert(false);
                }
            }
        }
    }
    assert(anchor_count_from(line, 0) == 1 + anchor_count_from(line, 1));
    lemma_count_from_zero(line, 1);
}

proof fn lemma_listing_prefix_count(
    req_path: Seq<u8>,
    entries: Seq<Seq<u8>>,
    parent: Seq<u8>,
    k: int,
)
    requires
        0 <= k <= entries.len() + 1,
    ensures
        anchor_count(
            concat_bytes(spec_listing_lines(req_path, entries, parent).subrange(0, k)),
        ) == k,
        k >= 1 ==> concat_bytes(
            spec_listing_lines(req_path, entries, parent).subrange(0, k),
        ).len() >= 21 && (forall|m: int|
            0 <= m < 10 ==> concat_bytes(
                spec_listing_lines(req_path, entries, parent).subrange(0, k),
            )[concat_bytes(spec_listing_lines(req_path, entries, parent).subrange(0, k)).len() - 10
                + m] == lit_anchor_close()[m]),
    decreases k,
{
    let lines = spec_listing_lines(req_path, entries, parent);
    if k == 0 {
        assert(lines.subrange(0, 0) =~= Seq::<Seq<u8>>::empty());
        assert(anchor_count_from(Seq::<u8>::empty(), 0) == 0);
    } else {
        lemma_listing_prefix_count(req_path, entries, parent, k - 1);
        let x = concat_bytes(lines.subrange(0, k - 1));
        let y = lines[k - 1];
        let ht: (Seq<u8>, Seq<u8>) = if k - 1 < entries.len() {
            (spec_entry_href(req_path, entries[k - 1]), entries[k - 1])
        } else {
            (parent, parent)
        };
        assert(y == spec_href_line(ht.0, ht.1));
        lemma_href_line_props(ht.0, ht.1);
        assert(lines.subrange(0, k).drop_last() =~= lines.subrange(0, k - 1));
        assert(lines.subrange(0, k).last() == y);
        assert(concat_bytes(lines.subrange(0, k)) == x + y);
        if k == 1 {
            assert(x =~= Seq::<u8>::empty());
            assert(x + y =~= y);
        } else {
            assert forall|j: int| x.len() - 9 < j < x.len() implies !is_anchor_at(x + y, j) by {
                let m = j - (x.len() - 10);
                assert(x[j] == lit_anchor_close()[m]);
                assert((x + y)[j] == x[j]);
                if lit_anchor_close()[m] == 60 {
                    assert(m == 4);
                    if is_anchor_at(x + y, j) {
                        assert((x + y).subrange(j, j + 9)[1] == (x + y)[j + 1]);
                        assert((x + y)[j + 1] == x[j + 1]);
                        assert(x[j + 1] == lit_anchor_close()[5]);
                        assert(lit_anchor_open()[1] == 97);
                        assert(false);
                    }
                } else {
                    if is_anchor_at(x + y, j) {
                        assert((x + y).subrange(j, j + 9)[0] == (x + y)[j]);
                        assert(lit_anchor_open()[0] == 60);
                        assert(false);
                    }
                }
            }
            lemma_count_concat(x, y);
        }
        assert forall|m: int|
            0 <= m < 10 implies (x + y)[(x + y).len() - 10 + m] == lit_anchor_close()[m] by {
            assert((x + y)[(x + y).len() - 10 + m] == y[y.len() - 10 + m]);
        }
    }
}

/// Listing completeness at the byte level: the listing body holds exactly
/// one anchor opening per directory entry plus one for the parent link —
/// entry count plus one in all.
pub proof fn lemma_listing_anchor_count(req_path: Seq<u8>, entries: Seq<Seq<u8>>, parent: Seq<u8>)
    ensures
        anchor_count(spec_listing_body(req_path, entries, parent)) == entries.len() + 1,
{
    let lines = spec_listing_lines(req_path, entries, parent);
    lemma_listing_prefix_count(req_path, entries, parent, entries.len() + 1 as int);
    assert(lines.subrange(0, lines.len() as int) =~= lines);
}

/// Renders one hyperlink line, escaping both the target and the text.
pub fn format_href(href: &[u8], text: &[u8]) -> (r: Vec<u8>)
    ensures
        r@ == spec_href_line(href@, text@),
{
    let mut out = anchor_open_bytes();
    let h = escape_html(href);
    push_bytes(&mut out, h.as_slice());
    let m = anchor_mid_bytes();
    push_bytes(&mut out, m.as_slice());
    let t = escape_html(text);
    push_bytes(&mut out, t.as_slice());
    let c = anchor_close_bytes();
    push_bytes(&mut out, c.as_slice());
    out
}

/// Builds the whole listing body for the entries of one directory.
pub fn listing_body(req_path: &[u8], entries: &Vec<Vec<u8>>, parent: &[u8]) -> (r: Vec<u8>)
    ensures
        r@ == spec_listing_body(req_path@, views_of(entries@), parent@),
{
    let ghost lines = spec_listing_lines(req_path@, views_of(entries@), parent@);
    let mut out: Vec<u8> = Vec::new();
    let mut i: usize = 0;
    assert(out@ =~= concat_bytes(lines.subrange(0, 0)));
    while i < entries.len()
        invariant
            i <= entries.len(),
            lines == spec_listing_lines(req_path@, views_of(entries@), parent@),
            lines.len() == entries@.len() + 1,
            out@ == concat_bytes(lines.subrange(0, i as int)),
        decreases entries.len() - i,
    {
        let name = &entries[i];
        let mut href: Vec<u8> = Vec::new();
        push_bytes(&mut href, req_path);
        href.push(47);
        push_bytes(&mut href, name.as_slice());
        assert(href@ =~= spec_entry_href(req_path@, entries@[i as int]@));
        let line = format_href(href.as_slice(), name.as_slice());
        push_bytes(&mut out, line.as_slice());
        proof {
            assert(views_of(entries@)[i as int] == entries@[i as int]@);
            assert(line@ == lines[i as int]);
            assert(lines.subrange(0, i as int + 1).drop_last() =~= lines.subrange(0, i as int));
            assert(lines.subrange(0, i as int + 1).last() == lines[i as int]);
        }
        i = i + 1;
    }
    let pline = format_href(parent, parent);
    push_bytes(&mut out, pline.as_slice());
    proof {
        assert(lines.subrange(0, lines.len() as int).drop_last() =~= lines.subrange(
            0,
            entries@.len() as int,
        ));
        assert(lines.subrange(0, lines.len() as int).last() == lines.last());
        assert(lines.subrange(0, lines.len() as int) =~= lines);
    }
    out
}

/// Builds the complete listing response: a head declaring the exact body
/// length, then the body.
pub fn listing_response(req_path: &[u8], entries: &Vec<Vec<u8>>, parent: &[u8]) -> (r: Vec<u8>)
    ensures
        r@ == spec_listing_head(
            spec_listing_body(req_path@, views_of(entries@), parent@).len(),
        ) + spec_listing_body(req_path@, views_of(entries@), parent@),
{
    let body = listing_body(req_path, entries, parent);
    let th = text_html_bytes();
    let (bp, mut out) = file_head(th.as_slice(), body.len() as u64);
    let (_bp, piece) = bp.continue_response(body.as_slice());
    push_bytes(&mut out, piece.as_slice());
    out
}

} // verus!
