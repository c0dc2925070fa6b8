use vstd::prelude::*;

use crate::bytes::{push_bytes, spec_dec, u64_to_dec};
use crate::lit::{
    content_length_bytes, content_type_bytes, crlf_bytes, http11_bytes, lit_colon_sp,
    lit_content_length, lit_content_type, lit_crlf, lit_http11, lit_reason_not_found,
    lit_reason_ok, reason_not_found_bytes, reason_ok_bytes,
};

verus! {

/// Reason phrase (with its leading space and trailing CRLF) for the two
/// status codes this server produces.
pub open spec fn spec_reason(status: u16) -> Seq<u8> {
    if status == 200 {
        lit_reason_ok()
    } else {
        lit_reason_not_found()
    }
}

/// The status line `HTTP/1.1 <status> <reason>\r\n`.
pub open spec fn spec_status_line(status: u16) -> Seq<u8> {
    lit_http11() + spec_dec(status as nat) + spec_reason(status)
}

/// One header line `<name>: <value>\r\n`.
pub open spec fn spec_header_line(name: Seq<u8>, value: Seq<u8>) -> Seq<u8> {
    name + lit_colon_sp() + value + lit_crlf()
}

/// The header block of a response that carries a body of `len` bytes with
/// content type `mime`: status line, the two headers, and the blank line.
pub open spec fn spec_file_head(mime: Seq<u8>, len: nat) -> Seq<u8> {
    spec_status_line(200) + spec_header_line(lit_content_type(), mime) + spec_header_line(
        lit_content_length(),
        spec_dec(len),
    ) + lit_crlf()
}

/// A full response for a regular file: a head that declares the exact
/// content length, then the file's bytes, unaltered.
pub open spec fn spec_file_response(mime: Seq<u8>, content: Seq<u8>) -> Seq<u8> {
    spec_file_head(mime, content.len()) + content
}

/// Length exactness: in a file response the bytes that follow the header
/// block are the file content, byte for byte, and the declared
/// `Content-Length` value is the decimal rendering of that content's length.
pub proof fn lemma_file_length_exact(mime: Seq<u8>, content: Seq<u8>)
    ensures
        spec_file_response(mime, content).len() == spec_file_head(mime, content.len()).len()
            + content.len(),
        spec_file_response(mime, content).subrange(
            spec_file_head(mime, content.len()).len() as int,
            spec_file_response(mime, content).len() as int,
        ) == content,
        spec_file_head(mime, content.len()) == spec_status_line(200) + spec_header_line(
            lit_content_type(),
            mime,
        ) + spec_header_line(lit_content_length(), spec_dec(content.len())) + lit_crlf(),
{
    assert(spec_file_response(mime, content).subrange(
        spec_file_head(mime, content.len()).len() as int,
        spec_file_response(mime, content).len() as int,
    ) =~= content);
}

/// Writes the status line; only the two in-scope status codes are accepted.
pub fn status_line(status: u16) -> (r: Vec<u8>)
    requires
        status == 200 || status == 404,
    ensures
        r@ == spec_status_line(status),
{
    let mut out = http11_bytes();
    let d = u64_to_dec(status as u64);
    push_bytes(&mut out, d.as_slice());
    if status == 200 {
        let t = reason_ok_bytes();
        push_bytes(&mut out, t.as_slice());
    } else {
        let t = reason_not_found_bytes();
        push_bytes(&mut out, t.as_slice());
    }
    out
}

/// Writes one header line.
pub fn header_line(name: &[u8], value: &[u8]) -> (r: Vec<u8>)
    ensures
        r@ == spec_header_line(name@, value@),
{
    let mut out: Vec<u8> = Vec::new();
    push_bytes(&mut out, name);
    out.push(58);
    out.push(32);
    push_bytes(&mut out, value);
    out.push(13);
    out.push(10);
    assert(out@ =~= spec_header_line(name@, value@));
    out
}

/// Permission to add header lines to a response whose status line has been
/// written.  The ghost field records every byte handed out so far, so that a
/// caller's contract can speak of the whole emission.  Because the only way
/// to reach the body phase is `end_headers`, an out-of-order call sequence
/// does not typecheck.
pub struct HeaderPhase {
    pub emitted: Ghost<Seq<u8>>,
}

/// Permission to append body bytes: the header block (`head`) is complete
/// and `body` records every body byte handed out so far.
pub struct BodyPhase {
    pub head: Ghost<Seq<u8>>,
    pub body: Ghost<Seq<u8>>,
}

/// Begins a response: returns the status-line bytes to put on the wire and
/// the permission to send headers.
pub fn start_response(status: u16) -> (r: (HeaderPhase, Vec<u8>))
    requires
        status == 200 || status == 404,
    ensures
        r.1@ == spec_status_line(status),
        r.0.emitted@ == r.1@,
{
    let out = status_line(status);
    let ghost e = out@;
    (HeaderPhase { emitted: Ghost(e) }, out)
}

impl HeaderPhase {
    /// Adds one header line; returns its bytes.
    pub fn send_header(self, name: &[u8], value: &[u8]) -> (r: (HeaderPhase, Vec<u8>))
        ensures
            r.1@ == spec_header_line(name@, value@),
            r.0.emitted@ == self.emitted@ + r.1@,
    {
        let out = header_line(name, value);
        let ghost e = self.emitted@ + out@;
        (HeaderPhase { emitted: Ghost(e) }, out)
    }

    /// Terminates the header block with the blank line; after this no header
    /// can be added, only body bytes.
    pub fn end_headers(self) -> (r: (BodyPhase, Vec<u8>))
        ensures
            r.1@ == lit_crlf(),
            r.0.head@ == self.emitted@ + lit_crlf(),
            r.0.body@ == Seq::<u8>::empty(),
    {
        let out = crlf_bytes();
        let ghost h = self.emitted@ + out@;
        (BodyPhase { head: Ghost(h), body: Ghost(Seq::empty()) }, out)
    }
}

impl BodyPhase {
    /// Appends one chunk of raw body bytes, handed through unaltered.
    pub fn continue_response(self, chunk: &[u8]) -> (r: (BodyPhase, Vec<u8>))
        ensures
            r.1@ == chunk@,
            r.0.head@ == self.head@,
            r.0.body@ == self.body@ + chunk@,
    {
        let mut out: Vec<u8> = Vec::new();
        push_bytes(&mut out, chunk);
        assert(out@ =~= chunk@);
        let ghost b = self.body@ + chunk@;
        (BodyPhase { head: self.head, body: Ghost(b) }, out)
    }
}

/// Emits the whole header block for a body of `len` bytes of type `mime`,
/// and hands back the permission to stream that body.
pub fn file_head(mime: &[u8], len: u64) -> (r: (BodyPhase, Vec<u8>))
    ensures
        r.1@ == spec_file_head(mime@, len as nat),
        r.0.head@ == r.1@,
        r.0.body@ == Seq::<u8>::empty(),
{
    let (hp, mut out) = start_response(200);
    let ct = content_type_bytes();
    let (hp, piece) = hp.send_header(ct.as_slice(), mime);
    push_bytes(&mut out, piece.as_slice());
    let cl = content_length_bytes();
    let lv = u64_to_dec(len);
    let (hp, piece) = hp.send_header(cl.as_slice(), lv.as_slice());
    push_bytes(&mut out, piece.as_slice());
    let (bp, piece) = hp.end_headers();
    push_bytes(&mut out, piece.as_slice());
    assert(out@ =~= spec_file_head(mime@, len as nat));
    assert(bp.head@ =~= spec_file_head(mime@, len as nat));
    (bp, out)
}

/// Builds the complete response for a file served from memory, streaming the
/// content through the body phase in bounded chunks; chunk boundaries do not
/// alter the bytes.
pub fn file_response(mime: &[u8], content: &[u8]) -> (r: Vec<u8>)
    ensures
        r@ == spec_file_response(mime@, content@),
{
    let (bp, mut out) = file_head(mime, content.len() as u64);
    let mut bp = bp;
    let mut i: usize = 0;
    assert(bp.body@ =~= content@.subrange(0, 0));
    while i < content.len()
        invariant
            i <= content.len(),
            bp.head@ == spec_file_head(mime@, content@.len()),
            bp.body@ == content@.subrange(0, i as int),
            out@ == spec_file_head(mime@, content@.len()) + content@.subrange(0, i as int),
        decreases content.len() - i,
    {
        let end = if content.len() - i < 1024 {
            content.len()
        } else {
            i + 1024
        };
        let chunk = &content[i..end];
        let (bp2, piece) = bp.continue_response(chunk);
        bp = bp2;
        push_bytes(&mut out, piece.as_slice());
        proof {
            assert(content@.subrange(0, i as int) + content@.subrange(i as int, end as int)
                =~= content@.subrange(0, end as int));
        }
        i = end;
    }
    assert(content@.subrange(0, content@.len() as int) =~= content@);
    out
}

} // verus!
