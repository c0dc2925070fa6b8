use vstd::prelude::*;

verus! {

/// The bytes of `"HTTP/1.1 "`.
pub open spec fn lit_http11() -> Seq<u8> {
    seq![72u8, 84u8, 84u8, 80u8, 47u8, 49u8, 46u8, 49u8, 32u8]
}

pub fn http11_bytes() -> (r: Vec<u8>)
    ensures
        r@ == lit_http11(),
{
    let v: Vec<u8> = vec![72u8, 84u8, 84u8, 80u8, 47u8, 49u8, 46u8, 49u8, 32u8];
    assert(v@ =~= lit_http11());
    v
}

/// The bytes of `" OK\r\n"`.
pub open spec fn lit_reason_ok() -> Seq<u8> {
    seq![32u8, 79u8, 75u8, 13u8, 10u8]
}

pub fn reason_ok_bytes() -> (r: Vec<u8>)
    ensures
        r@ == lit_reason_ok(),
{
    let v: Vec<u8> = vec![32u8, 79u8, 75u8, 13u8, 10u8];
    assert(v@ =~= lit_reason_ok());
    v
}

/// The bytes of `" Not Found\r\n"`.
pub open spec fn lit_reason_not_found() -> Seq<u8> {
    seq![32u8, 78u8, 111u8, 116u8, 32u8, 70u8, 111u8, 117u8, 110u8, 100u8, 13u8, 10u8]
}

pub fn reason_not_found_bytes() -> (r: Vec<u8>)
    ensures
        r@ == lit_reason_not_found(),
{
    let v: Vec<u8> = vec![32u8, 78u8, 111u8, 116u8, 32u8, 70u8, 111u8, 117u8, 110u8, 100u8, 13u8, 10u8];
    assert(v@ =~= lit_reason_not_found());
    v
}

/// The bytes of `": "`.
pub open spec fn lit_colon_sp() -> Seq<u8> {
    seq![58u8, 32u8]
}

/// The bytes of `"\r\n"`.
pub open spec fn lit_crlf() -> Seq<u8> {
    seq![13u8, 10u8]
}

pub fn crlf_bytes() -> (r: Vec<u8>)
    ensures
        r@ == lit_crlf(),
{
    let v: Vec<u8> = vec![13u8, 10u8];
    assert(v@ =~= lit_crlf());
    v
}

/// The bytes of `"Content-Type"`.
pub open spec fn lit_content_type() -> Seq<u8> {
    seq![67u8, 111u8, 110u8, 116u8, 101u8, 110u8, 116u8, 45u8, 84u8, 121u8, 112u8, 101u8]
}

pub fn content_type_bytes() -> (r: Vec<u8>)
    ensures
        r@ == lit_content_type(),
{
    let v: Vec<u8> = vec![67u8, 111u8, 110u8, 116u8, 101u8, 110u8, 116u8, 45u8, 84u8, 121u8, 112u8, 101u8];
    assert(v@ =~= lit_content_type());
    v
}

/// The bytes of `"Content-Length"`.
pub open spec fn lit_content_length() -> Seq<u8> {
    seq![67u8, 111u8, 110u8, 116u8, 101u8, 110u8, 116u8, 45u8, 76u8, 101u8, 110u8, 103u8, 116u8, 104u8]
}

pub fn content_length_bytes() -> (r: Vec<u8>)
    ensures
        r@ == lit_content_length(),
{
    let v: Vec<u8> = vec![67u8, 111u8, 110u8, 116u8, 101u8, 110u8, 116u8, 45u8, 76u8, 101u8, 110u8, 103u8, 116u8, 104u8];
    assert(v@ =~= lit_content_length());
    v
}

/// The bytes of `"text/html"`.
pub open spec fn lit_text_html() -> Seq<u8> {
    seq![116u8, 101u8, 120u8, 116u8, 47u8, 104u8, 116u8, 109u8, 108u8]
}

pub fn text_html_bytes() -> (r: Vec<u8>)
    ensures
        r@ == lit_text_html(),
{
    let v: Vec<u8> = vec![116u8, 101u8, 120u8, 116u8, 47u8, 104u8, 116u8, 109u8, 108u8];
    assert(v@ =~= lit_text_html());
    v
}

/// The bytes of `"text/plain"`.
pub open spec fn lit_text_plain() -> Seq<u8> {
    seq![116u8, 101u8, 120u8, 116u8, 47u8, 112u8, 108u8, 97u8, 105u8, 110u8]
}

pub fn text_plain_bytes() -> (r: Vec<u8>)
    ensures
        r@ == lit_text_plain(),
{
    let v: Vec<u8> = vec![116u8, 101u8, 120u8, 116u8, 47u8, 112u8, 108u8, 97u8, 105u8, 110u8];
    assert(v@ =~= lit_text_plain());
    v
}

/// The bytes of `"text/css"`.
pub open spec fn lit_text_css() -> Seq<u8> {
    seq![116u8, 101u8, 120u8, 116u8, 47u8, 99u8, 115u8, 115u8]
}

pub fn text_css_bytes() -> (r: Vec<u8>)
    ensures
        r@ == lit_text_css(),
{
    let v: Vec<u8> = vec![116u8, 101u8, 120u8, 116u8, 47u8, 99u8, 115u8, 115u8];
    assert(v@ =~= lit_text_css());
    v
}

/// The bytes of `"application/javascript"`.
pub open spec fn lit_app_js() -> Seq<u8> {
    seq![97u8, 112u8, 112u8, 108u8, 105u8, 99u8, 97u8, 116u8, 105u8, 111u8, 110u8, 47u8, 106u8, 97u8, 118u8, 97u8, 115u8, 99u8, 114u8, 105u8, 112u8, 116u8]
}

pub fn app_js_bytes() -> (r: Vec<u8>)
    ensures
        r@ == lit_app_js(),
{
    let v: Vec<u8> = vec![97u8, 112u8, 112u8, 108u8, 105u8, 99u8, 97u8, 116u8, 105u8, 111u8, 110u8, 47u8, 106u8, 97u8, 118u8, 97u8, 115u8, 99u8, 114u8, 105u8, 112u8, 116u8];
    assert(v@ =~= lit_app_js());
    v
}

/// The bytes of `"image/png"`.
pub open spec fn lit_image_png() -> Seq<u8> {
    seq![105u8, 109u8, 97u8, 103u8, 101u8, 47u8, 112u8, 110u8, 103u8]
}

pub fn image_png_bytes() -> (r: Vec<u8>)
    ensures
        r@ == lit_image_png(),
{
    let v: Vec<u8> = vec![105u8, 109u8, 97u8, 103u8, 101u8, 47u8, 112u8, 110u8, 103u8];
    assert(v@ =~= lit_image_png());
    v
}

/// The bytes of `"image/jpeg"`.
pub open spec fn lit_image_jpeg() -> Seq<u8> {
    seq![105u8, 109u8, 97u8, 103u8, 101u8, 47u8, 106u8, 112u8, 101u8, 103u8]
}

pub fn image_jpeg_bytes() -> (r: Vec<u8>)
    ensures
        r@ == lit_image_jpeg(),
{
    let v: Vec<u8> = vec![105u8, 109u8, 97u8, 103u8, 101u8, 47u8, 106u8, 112u8, 101u8, 103u8];
    assert(v@ =~= lit_image_jpeg());
    v
}

/// The bytes of `"image/gif"`.
pub open spec fn lit_image_gif() -> Seq<u8> {
    seq![105u8, 109u8, 97u8, 103u8, 101u8, 47u8, 103u8, 105u8, 102u8]
}

pub fn image_gif_bytes() -> (r: Vec<u8>)
    ensures
        r@ == lit_image_gif(),
{
    let v: Vec<u8> = vec![105u8, 109u8, 97u8, 103u8, 101u8, 47u8, 103u8, 105u8, 102u8];
    assert(v@ =~= lit_image_gif());
    v
}

/// The bytes of `"application/pdf"`.
pub open spec fn lit_app_pdf() -> Seq<u8> {
    seq![97u8, 112u8, 112u8, 108u8, 105u8, 99u8, 97u8, 116u8, 105u8, 111u8, 110u8, 47u8, 112u8, 100u8, 102u8]
}

pub fn app_pdf_bytes() -> (r: Vec<u8>)
    ensures
        r@ == lit_app_pdf(),
{
    let v: Vec<u8> = vec![97u8, 112u8, 112u8, 108u8, 105u8, 99u8, 97u8, 116u8, 105u8, 111u8, 110u8, 47u8, 112u8, 100u8, 102u8];
    assert(v@ =~= lit_app_pdf());
    v
}

/// The bytes of `"application/octet-stream"`.
pub open spec fn lit_octet_stream() -> Seq<u8> {
    seq![97u8, 112u8, 112u8, 108u8, 105u8, 99u8, 97u8, 116u8, 105u8, 111u8, 110u8, 47u8, 111u8, 99u8, 116u8, 101u8, 116u8, 45u8, 115u8, 116u8, 114u8, 101u8, 97u8, 109u8]
}

pub fn octet_stream_bytes() -> (r: Vec<u8>)
    ensures
        r@ == lit_octet_stream(),
{
    let v: Vec<u8> = vec![97u8, 112u8, 112u8, 108u8, 105u8, 99u8, 97u8, 116u8, 105u8, 111u8, 110u8, 47u8, 111u8, 99u8, 116u8, 101u8, 116u8, 45u8, 115u8, 116u8, 114u8, 101u8, 97u8, 109u8];
    assert(v@ =~= lit_octet_stream());
    v
}

/// The bytes of `"<a href=\""`.
pub open spec fn lit_anchor_open() -> Seq<u8> {
    seq![60u8, 97u8, 32u8, 104u8, 114u8, 101u8, 102u8, 61u8, 34u8]
}

pub fn anchor_open_bytes() -> (r: Vec<u8>)
    ensures
        r@ == lit_anchor_open(),
{
    let v: Vec<u8> = vec![60u8, 97u8, 32u8, 104u8, 114u8, 101u8, 102u8, 61u8, 34u8];
    assert(v@ =~= lit_anchor_open());
    v
}

/// The bytes of `"\">"`.
pub open spec fn lit_anchor_mid() -> Seq<u8> {
    seq![34u8, 62u8]
}

pub fn anchor_mid_bytes() -> (r: Vec<u8>)
    ensures
        r@ == lit_anchor_mid(),
{
    let v: Vec<u8> = vec![34u8, 62u8];
    assert(v@ =~= lit_anchor_mid());
    v
}

/// The bytes of `"</a><br/>\n"`.
pub open spec fn lit_anchor_close() -> Seq<u8> {
    seq![60u8, 47u8, 97u8, 62u8, 60u8, 98u8, 114u8, 47u8, 62u8, 10u8]
}

pub fn anchor_close_bytes() -> (r: Vec<u8>)
    ensures
        r@ == lit_anchor_close(),
{
    let v: Vec<u8> = vec![60u8, 47u8, 97u8, 62u8, 60u8, 98u8, 114u8, 47u8, 62u8, 10u8];
    assert(v@ =~= lit_anchor_close());
    v
}

/// The bytes of `"index.html"`.
pub open spec fn lit_index_html() -> Seq<u8> {
    seq![105u8, 110u8, 100u8, 101u8, 120u8, 46u8, 104u8, 116u8, 109u8, 108u8]
}

pub fn index_html_bytes() -> (r: Vec<u8>)
    ensures
        r@ == lit_index_html(),
{
    let v: Vec<u8> = vec![105u8, 110u8, 100u8, 101u8, 120u8, 46u8, 104u8, 116u8, 109u8, 108u8];
    assert(v@ =~= lit_index_html());
    v
}

/// The bytes of `"html"`.
pub open spec fn lit_ext_html() -> Seq<u8> {
    seq![104u8, 116u8, 109u8, 108u8]
}

pub fn ext_html_bytes() -> (r: Vec<u8>)
    ensures
        r@ == lit_ext_html(),
{
    let v: Vec<u8> = vec![104u8, 116u8, 109u8, 108u8];
    assert(v@ =~= lit_ext_html());
    v
}

/// The bytes of `"htm"`.
pub open spec fn lit_ext_htm() -> Seq<u8> {
    seq![104u8, 116u8, 109u8]
}

pub fn ext_htm_bytes() -> (r: Vec<u8>)
    ensures
        r@ == lit_ext_htm(),
{
    let v: Vec<u8> = vec![104u8, 116u8, 109u8];
    assert(v@ =~= lit_ext_htm());
    v
}

/// The bytes of `"txt"`.
pub open spec fn lit_ext_txt() -> Seq<u8> {
    seq![116u8, 120u8, 116u8]
}

pub fn ext_txt_bytes() -> (r: Vec<u8>)
    ensures
        r@ == lit_ext_txt(),
{
    let v: Vec<u8> = vec![116u8, 120u8, 116u8];
    assert(v@ =~= lit_ext_txt());
    v
}

/// The bytes of `"css"`.
pub open spec fn lit_ext_css() -> Seq<u8> {
    seq![99u8, 115u8, 115u8]
}

pub fn ext_css_bytes() -> (r: Vec<u8>)
    ensures
        r@ == lit_ext_css(),
{
    let v: Vec<u8> = vec![99u8, 115u8, 115u8];
    assert(v@ =~= lit_ext_css());
    v
}

/// The bytes of `"js"`.
pub open spec fn lit_ext_js() -> Seq<u8> {
    seq![106u8, 115u8]
}

pub fn ext_js_bytes() -> (r: Vec<u8>)
    ensures
        r@ == lit_ext_js(),
{
    let v: Vec<u8> = vec![106u8, 115u8];
    assert(v@ =~= lit_ext_js());
    v
}

/// The bytes of `"png"`.
pub open spec fn lit_ext_png() -> Seq<u8> {
    seq![112u8, 110u8, 103u8]
}

pub fn ext_png_bytes() -> (r: Vec<u8>)
    ensures
        r@ == lit_ext_png(),
{
    let v: Vec<u8> = vec![112u8, 110u8, 103u8];
    assert(v@ =~= lit_ext_png());
    v
}

/// The bytes of `"jpg"`.
pub open spec fn lit_ext_jpg() -> Seq<u8> {
    seq![106u8, 112u8, 103u8]
}

pub fn ext_jpg_bytes() -> (r: Vec<u8>)
    ensures
        r@ == lit_ext_jpg(),
{
    let v: Vec<u8> = vec![106u8, 112u8, 103u8];
    assert(v@ =~= lit_ext_jpg());
    v
}

/// The bytes of `"jpeg"`.
pub open spec fn lit_ext_jpeg() -> Seq<u8> {
    seq![106u8, 112u8, 101u8, 103u8]
}

pub fn ext_jpeg_bytes() -> (r: Vec<u8>)
    ensures
        r@ == lit_ext_jpeg(),
{
    let v: Vec<u8> = vec![106u8, 112u8, 101u8, 103u8];
    assert(v@ =~= lit_ext_jpeg());
    v
}

/// The bytes of `"gif"`.
pub open spec fn lit_ext_gif() -> Seq<u8> {
    seq![103u8, 105u8, 102u8]
}

pub fn ext_gif_bytes() -> (r: Vec<u8>)
    ensures
        r@ == lit_ext_gif(),
{
    let v: Vec<u8> = vec![103u8, 105u8, 102u8];
    assert(v@ =~= lit_ext_gif());
    v
}

/// The bytes of `"pdf"`.
pub open spec fn lit_ext_pdf() -> Seq<u8> {
    seq![112u8, 100u8, 102u8]
}

pub fn ext_pdf_bytes() -> (r: Vec<u8>)
    ensures
        r@ == lit_ext_pdf(),
{
    let v: Vec<u8> = vec![112u8, 100u8, 102u8];
    assert(v@ =~= lit_ext_pdf());
    v
}

} // verus!
