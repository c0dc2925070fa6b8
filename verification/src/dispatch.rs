use vstd::prelude::*;

use crate::bytes::{bytes_eq, push_bytes, views_of};
use crate::lit::{index_html_bytes, lit_index_html, lit_text_html, text_html_bytes};
use crate::listing::{listing_response, spec_listing_body, spec_listing_head};
use crate::mime::{get_mime_type, spec_mime};
use crate::response::{spec_status_line, status_line};

verus! {

/// What the filesystem says about one resolved request path, reduced to
/// plain values: nothing there, a regular file, or a directory together with
/// the names of its immediate entries in enumeration order.
pub enum FsObservation {
    Missing,
    RegularFile,
    Directory(Vec<Vec<u8>>),
}

/// What to send for one request: a bare 404 status line, a file (the caller
/// opens `fs_path` and streams it under `mime`), or a fully built listing
/// response.
pub enum ResponsePlan {
    NotFound { head: Vec<u8> },
    ServeFile { fs_path: Vec<u8>, mime: Vec<u8> },
    ServeListing { response: Vec<u8> },
}

/// Index of the last byte of `p` that is not a slash, scanning down from `i`.
pub open spec fn spec_last_non_slash(p: Seq<u8>, i: int) -> Option<int>
    decreases i + 1,
{
    if i < 0 {
        None
    } else if p[i] != 47 {
        Some(i)
    } else {
        spec_last_non_slash(p, i - 1)
    }
}

/// Index of the last slash of `p` at or before `i`.
pub open spec fn spec_last_slash_before(p: Seq<u8>, i: int) -> Option<int>
    decreases i + 1,
{
    if i < 0 {
        None
    } else if p[i] == 47 {
        Some(i)
    } else {
        spec_last_slash_before(p, i - 1)
    }
}

/// The parent of a request path: trailing slashes are ignored, the final
/// segment is removed, and the root (or a path with no parent) is its own
/// parent.
pub open spec fn spec_parent(p: Seq<u8>) -> Seq<u8> {
    match spec_last_non_slash(p, p.len() - 1) {
        None => p,
        Some(k) => match spec_last_slash_before(p, k) {
            None => p,
            Some(j) => if j == 0 {
                seq![47u8]
            } else {
                p.subrange(0, j)
            },
        },
    }
}

/// The path of a directory's index document: the directory path, a slash if
/// it does not already end in one, and the index filename.
pub open spec fn spec_index_path(p: Seq<u8>) -> Seq<u8> {
    if p.len() > 0 && p[p.len() - 1] == 47 {
        p + lit_index_html()
    } else {
        p + seq![47u8] + lit_index_html()
    }
}

/// Whether a directory holds an entry named exactly `index.html`.
pub open spec fn spec_has_index(entries: Seq<Seq<u8>>) -> bool {
    exists|i: int| 0 <= i < entries.len() && entries[i] == lit_index_html()
}

proof fn lemma_last_non_slash_bounds(p: Seq<u8>, i: int)
    requires
        i < p.len(),
    ensures
        spec_last_non_slash(p, i) is Some ==> 0 <= spec_last_non_slash(p, i)->Some_0 <= i,
    decreases i + 1,
{
    if i < 0 {
    } else if p[i] != 47 {
    } else {
        lemma_last_non_slash_bounds(p, i - 1);
    }
}

proof fn lemma_last_slash_bounds(p: Seq<u8>, i: int)
    requires
        i < p.len(),
    ensures
        spec_last_slash_before(p, i) is Some ==> 0 <= spec_last_slash_before(p, i)->Some_0 <= i,
    decreases i + 1,
{
    if i < 0 {
    } else if p[i] == 47 {
    } else {
        lemma_last_slash_bounds(p, i - 1);
    }
}

fn last_non_slash(p: &[u8]) -> (r: Option<usize>)
    ensures
        match r {
            Some(k) => spec_last_non_slash(p@, p@.len() - 1) == Some(k as int) && k < p@.len(),
            None => spec_last_non_slash(p@, p@.len() - 1) is None,
        },
{
    let n = p.len();
    let mut i: usize = n;
    while i > 0
        invariant
            i <= n,
            n == p@.len(),
            spec_last_non_slash(p@, n as int - 1) == spec_last_non_slash(p@, i as int - 1),
        decreases i,
    {
        if p[i - 1] != 47 {
            return Some(i - 1);
        }
        i = i - 1;
    }
    None
}

fn last_slash_before(p: &[u8], k: usize) -> (r: Option<usize>)
    requires
        k < p@.len(),
    ensures
        match r {
            Some(j) => spec_last_slash_before(p@, k as int) == Some(j as int) && j <= k,
            None => spec_last_slash_before(p@, k as int) is None,
        },
{
    let n = p.len();
    assert(k < n);
    let mut i: usize = k + 1;
    while i > 0
        invariant
            i <= k + 1,
            k < p@.len(),
            spec_last_slash_before(p@, k as int) == spec_last_slash_before(p@, i as int - 1),
        decreases i,
    {
        if p[i - 1] == 47 {
            return Some(i - 1);
        }
        i = i - 1;
    }
    None
}

/// Computes the parent of a request path, as `spec_parent` defines it.
pub fn parent_path(p: &[u8]) -> (r: Vec<u8>)
    ensures
        r@ == spec_parent(p@),
{
    match last_non_slash(p) {
        None => {
            let mut out: Vec<u8> = Vec::new();
            push_bytes(&mut out, p);
            assert(out@ =~= p@);
            out
        },
        Some(k) => {
            match last_slash_before(p, k) {
                None => {
                    let mut out: Vec<u8> = Vec::new();
                    push_bytes(&mut out, p);
                    assert(out@ =~= p@);
                    out
                },
                Some(j) => {
                    if j == 0 {
                        let mut out: Vec<u8> = Vec::new();
                        out.push(47);
                        assert(out@ =~= seq![47u8]);
                        out
                    } else {
                        let mut out: Vec<u8> = Vec::new();
                        push_bytes(&mut out, &p[0..j]);
                        assert(out@ =~= p@.subrange(0, j as int));
                        out
                    }
                },
            }
        },
    }
}

/// Whether the entry list holds `index.html`.
pub fn has_index(entries: &Vec<Vec<u8>>) -> (r: bool)
    ensures
        r == spec_has_index(views_of(entries@)),
{
    let needle = index_html_bytes();
    let n = entries.len();
    let mut i: usize = 0;
    while i < n
        invariant
            i <= n,
            n == entries@.len(),
            needle@ == lit_index_html(),
            forall|j: int| 0 <= j < i ==> views_of(entries@)[j] != lit_index_html(),
        decreases n - i,
    {
        if bytes_eq(entries[i].as_slice(), needle.as_slice()) {
            assert(views_of(entries@)[i as int] == lit_index_html());
            return true;
        }
        assert(views_of(entries@)[i as int] != lit_index_html());
        i = i + 1;
    }
    false
}

/// The filesystem path a request path is served from: the request path
/// joined under the server root.
pub fn join_root(root: &[u8], path: &[u8]) -> (r: Vec<u8>)
    ensures
        r@ == root@ + path@,
{
    let mut out: Vec<u8> = Vec::new();
    push_bytes(&mut out, root);
    push_bytes(&mut out, path);
    out
}

/// Builds the index-document path for a directory request path.
pub fn index_path(p: &[u8]) -> (r: Vec<u8>)
    ensures
        r@ == spec_index_path(p@),
{
    let mut out: Vec<u8> = Vec::new();
    push_bytes(&mut out, p);
    let n = p.len();
    if n == 0 || p[n - 1] != 47 {
        out.push(47);
    }
    let ih = index_html_bytes();
    push_bytes(&mut out, ih.as_slice());
    assert(out@ =~= spec_index_path(p@));
    out
}

/// The response to a path with no filesystem entry: a bare 404 status line,
/// no headers and no body.
pub fn not_found_response() -> (r: Vec<u8>)
    ensures
        r@ == spec_status_line(404),
{
    status_line(404)
}

/// Decides what one request is answered with, from the request path and what
/// the filesystem shows there.  A missing path gets the bare 404 plan; a
/// regular file is served from its joined path under its own content type; a
/// directory with an index document is served that document — whatever else
/// the directory holds — as HTML; any other directory gets the listing of
/// its entries and parent.
pub fn plan_response(root: &[u8], req_path: &[u8], obs: FsObservation) -> (r: ResponsePlan)
    requires
        req_path@.len() > 0,
        req_path@[0] == 47,
    ensures
        (obs is Missing ==> (r matches ResponsePlan::NotFound { head } && head@
            == spec_status_line(404))),
        (obs is RegularFile ==> (r matches ResponsePlan::ServeFile { fs_path, mime } && fs_path@
            == root@ + req_path@ && mime@ == spec_mime(req_path@))),
        (obs matches FsObservation::Directory(entries) ==> (if spec_has_index(views_of(entries@)) {
            r matches ResponsePlan::ServeFile { fs_path, mime } && fs_path@ == root@
                + spec_index_path(req_path@) && mime@ == lit_text_html()
        } else {
            r matches ResponsePlan::ServeListing { response } && response@ == spec_listing_head(
                spec_listing_body(req_path@, views_of(entries@), spec_parent(req_path@)).len(),
            ) + spec_listing_body(req_path@, views_of(entries@), spec_parent(req_path@))
        })),
{
    match obs {
        FsObservation::Missing => ResponsePlan::NotFound { head: not_found_response() },
        FsObservation::RegularFile => {
            let fs_path = join_root(root, req_path);
            let mime = get_mime_type(req_path);
            ResponsePlan::ServeFile { fs_path, mime }
        },
        FsObservation::Directory(entries) => {
            if has_index(&entries) {
                let ip = index_path(req_path);
                let fs_path = join_root(root, ip.as_slice());
                let mime = text_html_bytes();
                ResponsePlan::ServeFile { fs_path, mime }
            } else {
                let parent = parent_path(req_path);
                let response = listing_response(req_path, &entries, parent.as_slice());
                ResponsePlan::ServeListing { response }
            }
        },
    }
}

} // verus!
