use vstd::prelude::*;

use crate::bytes::bytes_eq;
use crate::lit::{
    app_js_bytes, app_pdf_bytes, ext_css_bytes, ext_gif_bytes, ext_htm_bytes, ext_html_bytes,
    ext_jpeg_bytes, ext_jpg_bytes, ext_js_bytes, ext_pdf_bytes, ext_png_bytes, ext_txt_bytes,
    image_gif_bytes, image_jpeg_bytes, image_png_bytes, lit_app_js, lit_app_pdf, lit_ext_css,
    lit_ext_gif, lit_ext_htm, lit_ext_html, lit_ext_jpeg, lit_ext_jpg, lit_ext_js, lit_ext_pdf,
    lit_ext_png, lit_ext_txt, lit_image_gif, lit_image_jpeg, lit_image_png, lit_octet_stream,
    lit_text_css, lit_text_html, lit_text_plain, octet_stream_bytes, text_css_bytes,
    text_html_bytes, text_plain_bytes,
};

verus! {

/// Index of the dot that starts the extension, scanning from position `i`
/// toward the front; a slash or the front of the string ends the scan.
pub open spec fn spec_ext_at(p: Seq<u8>, i: int) -> Option<int>
    decreases i + 1,
{
    if i < 0 {
        None
    } else if p[i] == 46 {
        Some(i)
    } else if p[i] == 47 {
        None
    } else {
        spec_ext_at(p, i - 1)
    }
}

/// The extension of the final path segment: the bytes after the last dot,
/// provided no slash follows that dot.
pub open spec fn spec_ext(p: Seq<u8>) -> Option<Seq<u8>> {
    match spec_ext_at(p, p.len() - 1) {
        Some(i) => Some(p.subrange(i + 1, p.len() as int)),
        None => None,
    }
}

/// Content type for one extension; unknown extensions fall back to the
/// opaque byte type.
pub open spec fn spec_mime_of_ext(e: Seq<u8>) -> Seq<u8> {
    if e == lit_ext_html() || e == lit_ext_htm() {
        lit_text_html()
    } else if e == lit_ext_txt() {
        lit_text_plain()
    } else if e == lit_ext_css() {
        lit_text_css()
    } else if e == lit_ext_js() {
        lit_app_js()
    } else if e == lit_ext_png() {
        lit_image_png()
    } else if e == lit_ext_jpg() || e == lit_ext_jpeg() {
        lit_image_jpeg()
    } else if e == lit_ext_gif() {
        lit_image_gif()
    } else if e == lit_ext_pdf() {
        lit_app_pdf()
    } else {
        lit_octet_stream()
    }
}

/// Content type for a path: by its extension, or the opaque byte type when
/// the final segment has none.
pub open spec fn spec_mime(path: Seq<u8>) -> Seq<u8> {
    match spec_ext(path) {
        Some(e) => spec_mime_of_ext(e),
        None => lit_octet_stream(),
    }
}

proof fn lemma_ext_at_bounds(p: Seq<u8>, i: int)
    requires
        i < p.len(),
    ensures
        spec_ext_at(p, i) is Some ==> 0 <= spec_ext_at(p, i)->Some_0 <= i,
    decreases i + 1,
{
    if i < 0 {
    } else if p[i] == 46 {
    } else if p[i] == 47 {
    } else {
        lemma_ext_at_bounds(p, i - 1);
    }
}

/// Finds the dot that starts the extension, if there is one.
fn find_ext(p: &[u8]) -> (r: Option<usize>)
    ensures
        match r {
            Some(i) => spec_ext_at(p@, p@.len() - 1) == Some(i as int) && i < p@.len(),
            None => spec_ext_at(p@, p@.len() - 1) is None,
        },
{
    let mut i: usize = p.len();
    while i > 0
        invariant
            i <= p.len(),
            spec_ext_at(p@, p@.len() - 1) == spec_ext_at(p@, i as int - 1),
        decreases i,
    {
        let b = p[i - 1];
        if b == 46 {
            return Some(i - 1);
        }
        if b == 47 {
            return None;
        }
        i = i - 1;
    }
    None
}

fn mime_of_ext(e: &[u8]) -> (r: Vec<u8>)
    ensures
        r@ == spec_mime_of_ext(e@),
{
    let w = ext_html_bytes();
    if bytes_eq(e, w.as_slice()) {
        return text_html_bytes();
    }
    let w = ext_htm_bytes();
    if bytes_eq(e, w.as_slice()) {
        return text_html_bytes();
    }
    let w = ext_txt_bytes();
    if bytes_eq(e, w.as_slice()) {
        return text_plain_bytes();
    }
    let w = ext_css_bytes();
    if bytes_eq(e, w.as_slice()) {
        return text_css_bytes();
    }
    let w = ext_js_bytes();
    if bytes_eq(e, w.as_slice()) {
        return app_js_bytes();
    }
    let w = ext_png_bytes();
    if bytes_eq(e, w.as_slice()) {
        return image_png_bytes();
    }
    let w = ext_jpg_bytes();
    if bytes_eq(e, w.as_slice()) {
        return image_jpeg_bytes();
    }
    let w = ext_jpeg_bytes();
    if bytes_eq(e, w.as_slice()) {
        return image_jpeg_bytes();
    }
    let w = ext_gif_bytes();
    if bytes_eq(e, w.as_slice()) {
        return image_gif_bytes();
    }
    let w = ext_pdf_bytes();
    if bytes_eq(e, w.as_slice()) {
        return app_pdf_bytes();
    }
    octet_stream_bytes()
}

/// Resolves the content type of `path` from its extension.
pub fn get_mime_type(path: &[u8]) -> (r: Vec<u8>)
    ensures
        r@ == spec_mime(path@),
{
    match find_ext(path) {
        None => octet_stream_bytes(),
        Some(i) => {
            proof {
                lemma_ext_at_bounds(path@, path@.len() - 1);
            }
            let n = path.len();
            assert(i < n);
            let e = &path[i + 1..n];
            mime_of_ext(e)
        },
    }
}

} // verus!
