use vstd::prelude::*;

use crate::bytes::push_bytes;

verus! {

/// Why a request head failed to parse.  A head whose terminating blank line
/// has not arrived yet is `IncompleteRequest`: the caller may read more
/// bytes and try again, or give up at end of input.
#[derive(Clone, Copy, PartialEq, Eq, Structural, Debug)]
pub enum ParseError {
    MalformedRequestLine,
    MalformedHeaderLine,
    IncompleteRequest,
}

/// One parsed request head.
#[derive(Debug, PartialEq, Eq)]
pub struct Request {
    pub method: Vec<u8>,
    pub path: Vec<u8>,
    pub headers: Vec<(Vec<u8>, Vec<u8>)>,
}

/// The mathematical image of a request head.
pub struct RequestView {
    pub method: Seq<u8>,
    pub path: Seq<u8>,
    pub headers: Seq<(Seq<u8>, Seq<u8>)>,
}

/// The views of a sequence of header pairs.
pub open spec fn pairs_view(hs: Seq<(Vec<u8>, Vec<u8>)>) -> Seq<(Seq<u8>, Seq<u8>)> {
    hs.map_values(|p: (Vec<u8>, Vec<u8>)| (p.0@, p.1@))
}

impl View for Request {
    type V = RequestView;

    open spec fn view(&self) -> RequestView {
        RequestView {
            method: self.method@,
            path: self.path@,
            headers: pairs_view(self.headers@),
        }
    }
}

/// Position of the first CRLF at or after `from`, if any.
pub open spec fn spec_line_end(s: Seq<u8>, from: int) -> Option<int>
    decreases s.len() - from,
{
    if from < 0 || from + 2 > s.len() {
        None
    } else if s[from] == 13 && s[from + 1] == 10 {
        Some(from)
    } else {
        spec_line_end(s, from + 1)
    }
}

/// Position of the first occurrence of `t` at or after `from`, if any.
pub open spec fn spec_find_byte(s: Seq<u8>, t: u8, from: int) -> Option<int>
    decreases s.len() - from,
{
    if from < 0 || from >= s.len() {
        None
    } else if s[from] == t {
        Some(from)
    } else {
        spec_find_byte(s, t, from + 1)
    }
}

/// No space byte anywhere in `s`.
pub open spec fn no_sp(s: Seq<u8>) -> bool {
    forall|i: int| 0 <= i < s.len() ==> s[i] != 32
}

/// The three tokens of a request line `METHOD SP PATH SP VERSION`, when the
/// line consists of exactly three nonempty space-free tokens and the path
/// begins with a slash.
pub open spec fn spec_parse_request_line(line: Seq<u8>) -> Option<(Seq<u8>, Seq<u8>, Seq<u8>)> {
    match spec_find_byte(line, 32, 0) {
        None => None,
        Some(i) => match spec_find_byte(line, 32, i + 1) {
            None => None,
            Some(j) => {
                let method = line.subrange(0, i);
                let path = line.subrange(i + 1, j);
                let version = line.subrange(j + 1, line.len() as int);
                if method.len() > 0 && path.len() > 0 && version.len() > 0 && no_sp(version)
                    && path[0] == 47 {
                    Some((method, path, version))
                } else {
                    None
                }
            },
        },
    }
}

/// `s` with its leading spaces removed.
pub open spec fn strip_leading_sp(s: Seq<u8>) -> Seq<u8>
    decreases s.len(),
{
    if s.len() > 0 && s[0] == 32 {
        strip_leading_sp(s.drop_first())
    } else {
        s
    }
}

/// A header line `Name: Value`: the name is everything before the first
/// colon and must be nonempty; the value is what follows the colon, with
/// leading spaces removed.
pub open spec fn spec_parse_header_line(line: Seq<u8>) -> Option<(Seq<u8>, Seq<u8>)> {
    match spec_find_byte(line, 58, 0) {
        None => None,
        Some(i) => if i == 0 {
            None
        } else {
            Some((line.subrange(0, i), strip_leading_sp(line.subrange(i + 1, line.len() as int))))
        },
    }
}

pub proof fn lemma_line_end_bounds(s: Seq<u8>, from: int)
    ensures
        spec_line_end(s, from) is Some ==> from <= spec_line_end(s, from)->Some_0
            && spec_line_end(s, from)->Some_0 + 2 <= s.len(),
    decreases s.len() - from,
{
    if from < 0 || from + 2 > s.len() {
    } else if s[from] == 13 && s[from + 1] == 10 {
    } else {
        lemma_line_end_bounds(s, from + 1);
    }
}

/// The header block from position `from` on: the parsed headers in order and
/// the position just past the terminating blank line, or the failure.
pub open spec fn spec_parse_headers(s: Seq<u8>, from: int) -> Result<
    (Seq<(Seq<u8>, Seq<u8>)>, int),
    ParseError,
>
    decreases s.len() - from,
    via spec_parse_headers_decreases
{
    match spec_line_end(s, from) {
        None => Err(ParseError::IncompleteRequest),
        Some(e) => {
            if e == from {
                Ok((Seq::empty(), e + 2))
            } else {
                match spec_parse_header_line(s.subrange(from, e)) {
                    None => Err(ParseError::MalformedHeaderLine),
                    Some(h) => match spec_parse_headers(s, e + 2) {
                        Ok((rest, end)) => Ok((seq![h] + rest, end)),
                        Err(err) => Err(err),
                    },
                }
            }
        },
    }
}

#[via_fn]
proof fn spec_parse_headers_decreases(s: Seq<u8>, from: int) {
    lemma_line_end_bounds(s, from);
}

/// The whole request head: request line, then headers, then the blank line;
/// on success also the number of bytes the head occupies.
pub open spec fn spec_parse_request(s: Seq<u8>) -> Result<(RequestView, int), ParseError> {
    match spec_line_end(s, 0) {
        None => Err(ParseError::IncompleteRequest),
        Some(e) => match spec_parse_request_line(s.subrange(0, e)) {
            None => Err(ParseError::MalformedRequestLine),
            Some((m, p, v)) => match spec_parse_headers(s, e + 2) {
                Err(err) => Err(err),
                Ok((hs, end)) => Ok((RequestView { method: m, path: p, headers: hs }, end)),
            },
        },
    }
}

/// Finds the first CRLF at or after `from`.
fn find_crlf(data: &[u8], from: usize) -> (r: Option<usize>)
    ensures
        match r {
            Some(i) => spec_line_end(data@, from as int) == Some(i as int) && from <= i && i + 2
                <= data@.len(),
            None => spec_line_end(data@, from as int) is None,
        },
{
    let n = data.len();
    let mut i: usize = from;
    if i > n {
        return None;
    }
    while i < n && i + 1 < n
        invariant
            from <= i <= n,
            n == data@.len(),
            spec_line_end(data@, from as int) == spec_line_end(data@, i as int),
        decreases n - i,
    {
        if data[i] == 13 && data[i + 1] == 10 {
            return Some(i);
        }
        i = i + 1;
    }
    None
}

/// Finds the first `t` at or after `from`.
fn find_byte(data: &[u8], t: u8, from: usize) -> (r: Option<usize>)
    ensures
        match r {
            Some(i) => spec_find_byte(data@, t, from as int) == Some(i as int) && from <= i && i
                < data@.len(),
            None => spec_find_byte(data@, t, from as int) is None,
        },
{
    let n = data.len();
    let mut i: usize = from;
    if i > n {
        return None;
    }
    while i < n
        invariant
            from <= i <= n,
            n == data@.len(),
            spec_find_byte(data@, t, from as int) == spec_find_byte(data@, t, i as int),
        decreases n - i,
    {
        if data[i] == t {
            return Some(i);
        }
        i = i + 1;
    }
    None
}

fn slice_to_vec(s: &[u8]) -> (r: Vec<u8>)
    ensures
        r@ == s@,
{
    let mut v: Vec<u8> = Vec::new();
    push_bytes(&mut v, s);
    assert(v@ =~= s@);
    v
}

fn has_no_sp(s: &[u8]) -> (r: bool)
    ensures
        r == no_sp(s@),
{
    let n = s.len();
    let mut i: usize = 0;
    while i < n
        invariant
            i <= n,
            n == s@.len(),
            forall|j: int| 0 <= j < i ==> s@[j] != 32,
        decreases n - i,
    {
        if s[i] == 32 {
            return false;
        }
        i = i + 1;
    }
    true
}

fn parse_request_line(line: &[u8]) -> (r: Option<(Vec<u8>, Vec<u8>, Vec<u8>)>)
    ensures
        match r {
            Some(t) => spec_parse_request_line(line@) == Some((t.0@, t.1@, t.2@)),
            None => spec_parse_request_line(line@) is None,
        },
{
    let n = line.len();
    let i = match find_byte(line, 32, 0) {
        None => {
            return None;
        },
        Some(i) => i,
    };
    assert(i < n);
    let j = match find_byte(line, 32, i + 1) {
        None => {
            return None;
        },
        Some(j) => j,
    };
    assert(j < n);
    let method = slice_to_vec(&line[0..i]);
    let path = slice_to_vec(&line[i + 1..j]);
    let version = slice_to_vec(&line[j + 1..n]);
    if method.len() > 0 && path.len() > 0 && version.len() > 0 && has_no_sp(version.as_slice()) {
        if path[0] == 47 {
            Some((method, path, version))
        } else {
            None
        }
    } else {
        None
    }
}

/// Removes leading spaces: returns the index of the first non-space byte at
/// or after `from`.
fn skip_sp(s: &[u8], from: usize) -> (r: usize)
    requires
        from <= s@.len(),
    ensures
        from <= r <= s@.len(),
        strip_leading_sp(s@.subrange(from as int, s@.len() as int)) == s@.subrange(
            r as int,
            s@.len() as int,
        ),
{
    let n = s.len();
    let mut i: usize = from;
    while i < n && s[i] == 32
        invariant
            from <= i <= n,
            n == s@.len(),
            strip_leading_sp(s@.subrange(from as int, n as int)) == strip_leading_sp(
                s@.subrange(i as int, n as int),
            ),
        decreases n - i,
    {
        proof {
            assert(s@.subrange(i as int, n as int).drop_first() =~= s@.subrange(
                i as int + 1,
                n as int,
            ));
        }
        i = i + 1;
    }
    i
}

fn parse_header_line(line: &[u8]) -> (r: Option<(Vec<u8>, Vec<u8>)>)
    ensures
        match r {
            Some(t) => spec_parse_header_line(line@) == Some((t.0@, t.1@)),
            None => spec_parse_header_line(line@) is None,
        },
{
    let i = match find_byte(line, 58, 0) {
        None => {
            return None;
        },
        Some(i) => i,
    };
    if i == 0 {
        return None;
    }
    let n = line.len();
    let name = slice_to_vec(&line[0..i]);
    let k = skip_sp(line, i + 1);
    let value = slice_to_vec(&line[k..n]);
    proof {
        assert(line@.subrange(i as int + 1, n as int) =~= line@.subrange(
            i as int + 1,
            line@.len() as int,
        ));
    }
    Some((name, value))
}

/// Parses the header block starting at `from`; on success also returns the
/// position just past the terminating blank line.
fn parse_headers(data: &[u8], from: usize) -> (r: Result<(Vec<(Vec<u8>, Vec<u8>)>, usize), ParseError>)
    ensures
        match r {
            Ok(t) => spec_parse_headers(data@, from as int) == Ok::<_, ParseError>(
                (pairs_view(t.0@), t.1 as int),
            ) && t.1 <= data@.len(),
            Err(e) => spec_parse_headers(data@, from as int) == Err::<
                (Seq<(Seq<u8>, Seq<u8>)>, int),
                ParseError,
            >(e),
        },
    decreases data@.len() - from,
{
    let n = data.len();
    match find_crlf(data, from) {
        None => Err(ParseError::IncompleteRequest),
        Some(e) => {
            assert(e + 2 <= n);
            if e == from {
                let empty: Vec<(Vec<u8>, Vec<u8>)> = Vec::new();
                assert(pairs_view(empty@) =~= Seq::<(Seq<u8>, Seq<u8>)>::empty());
                Ok((empty, from + 2))
            } else {
                let line = &data[from..e];
                match parse_header_line(line) {
                    None => Err(ParseError::MalformedHeaderLine),
                    Some((hn, hv)) => {
                        let ghost hview = (hn@, hv@);
                        match parse_headers(data, e + 2) {
                            Ok((mut rest, end)) => {
                                let ghost rest0 = rest@;
                                rest.insert(0, (hn, hv));
                                proof {
                                    assert(pairs_view(rest@) =~= seq![hview] + pairs_view(rest0));
                                }
                                Ok((rest, end))
                            },
                            Err(err) => Err(err),
                        }
                    },
                }
            }
        },
    }
}

/// Parses one request head out of `data`.  On success the returned count is
/// the number of bytes the head occupies: exactly the request line, the
/// header lines and the terminating blank line; any later bytes are not
/// read.  `IncompleteRequest` means the terminating blank line has not
/// arrived yet.
pub fn parse_request(data: &[u8]) -> (r: Result<(Request, usize), ParseError>)
    ensures
        match r {
            Ok(t) => spec_parse_request(data@) == Ok::<_, ParseError>((t.0@, t.1 as int)) && t.1
                <= data@.len() && t.0@.path.len() > 0 && t.0@.path[0] == 47,
            Err(e) => spec_parse_request(data@) == Err::<(RequestView, int), ParseError>(e),
        },
{
    let n = data.len();
    let e = match find_crlf(data, 0) {
        None => {
            return Err(ParseError::IncompleteRequest);
        },
        Some(e) => e,
    };
    assert(e + 2 <= n);
    let line = &data[0..e];
    let (method, path, version) = match parse_request_line(line) {
        None => {
            return Err(ParseError::MalformedRequestLine);
        },
        Some(t) => t,
    };
    let _ = version;
    match parse_headers(data, e + 2) {
        Err(err) => Err(err),
        Ok((headers, end)) => {
            let req = Request { method, path, headers };
            Ok((req, end))
        },
    }
}

} // verus!
