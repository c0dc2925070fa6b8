use tinyhttpd::bytes::u64_to_dec;
use tinyhttpd::dispatch::{
    index_path, not_found_response, parent_path, plan_response, FsObservation, ResponsePlan,
};
use tinyhttpd::escape::escape_html;
use tinyhttpd::listing::{format_href, listing_body, listing_response};
use tinyhttpd::mime::get_mime_type;
use tinyhttpd::response::{file_response, header_line, start_response, status_line};

fn count_anchors(body: &[u8]) -> usize {
    let pat = b"<a href=\"";
    if body.len() < pat.len() {
        return 0;
    }
    (0..=body.len() - pat.len()).filter(|&i| &body[i..i + pat.len()] == pat).count()
}

#[test]
fn scenario_file_listing_and_missing() {
    // the served tree: `a.txt` holding "hi", and an empty directory `sub`
    let plan = plan_response(b".", b"/a.txt", FsObservation::RegularFile);
    match plan {
        ResponsePlan::ServeFile { fs_path, mime } => {
            assert_eq!(fs_path, b"./a.txt".to_vec());
            assert_eq!(mime, b"text/plain".to_vec());
            let resp = file_response(&mime, b"hi");
            assert_eq!(
                resp,
                b"HTTP/1.1 200 OK\r\nContent-Type: text/plain\r\nContent-Length: 2\r\n\r\nhi"
                    .to_vec()
            );
        },
        _ => panic!("expected a file plan"),
    }

    let plan = plan_response(b".", b"/sub/", FsObservation::Directory(Vec::new()));
    match plan {
        ResponsePlan::ServeListing { response } => {
            let expected_body = b"<a href=\"/\">/</a><br/>\n".to_vec();
            let mut expected =
                format!("HTTP/1.1 200 OK\r\nContent-Type: text/html\r\nContent-Length: {}\r\n\r\n",
                    expected_body.len()).into_bytes();
            expected.extend(expected_body.iter().copied());
            assert_eq!(response, expected);
            assert_eq!(count_anchors(&response), 1);
        },
        _ => panic!("expected a listing plan"),
    }

    let plan = plan_response(b".", b"/missing", FsObservation::Missing);
    match plan {
        ResponsePlan::NotFound { head } => {
            assert_eq!(head, b"HTTP/1.1 404 Not Found\r\n".to_vec());
        },
        _ => panic!("expected a not-found plan"),
    }
}

#[test]
fn file_body_is_byte_exact_even_for_non_text_content() {
    // bytes that are not valid UTF-8, crossing several chunk boundaries
    let mut content: Vec<u8> = Vec::new();
    for i in 0..3000usize {
        content.push((i % 256) as u8);
    }
    content[0] = 0xff;
    content[1] = 0xfe;
    let resp = file_response(b"application/octet-stream", &content);
    let head_end = resp.windows(4).position(|w| w == b"\r\n\r\n").unwrap() + 4;
    let head = String::from_utf8(resp[..head_end].to_vec()).unwrap();
    assert!(head.contains("Content-Length: 3000\r\n"));
    assert_eq!(&resp[head_end..], &content[..]);
}

#[test]
fn not_found_is_a_bare_status_line() {
    let head = not_found_response();
    assert_eq!(head, b"HTTP/1.1 404 Not Found\r\n".to_vec());
    assert_eq!(count_anchors(&head), 0);
}

#[test]
fn index_document_takes_precedence_over_other_entries() {
    let entries = vec![
        b"a.txt".to_vec(),
        b"zebra.png".to_vec(),
        b"index.html".to_vec(),
        b"more".to_vec(),
    ];
    let plan = plan_response(b".", b"/sub", FsObservation::Directory(entries));
    match plan {
        ResponsePlan::ServeFile { fs_path, mime } => {
            assert_eq!(fs_path, b"./sub/index.html".to_vec());
            assert_eq!(mime, b"text/html".to_vec());
        },
        _ => panic!("expected the index document"),
    }
}

#[test]
fn listing_has_one_anchor_per_entry_plus_parent() {
    let entries = vec![b"one".to_vec(), b"two".to_vec(), b"three".to_vec()];
    let body = listing_body(b"/dir", &entries, b"/");
    assert_eq!(count_anchors(&body), entries.len() + 1);
    let full = listing_response(b"/dir", &entries, b"/");
    assert_eq!(count_anchors(&full), entries.len() + 1);
    assert!(full.starts_with(b"HTTP/1.1 200 OK\r\nContent-Type: text/html\r\n"));
}

#[test]
fn listing_declared_length_matches_body() {
    let entries = vec![b"alpha".to_vec(), b"<b>".to_vec()];
    let body = listing_body(b"/d", &entries, b"/");
    let full = listing_response(b"/d", &entries, b"/");
    let head_end = full.windows(4).position(|w| w == b"\r\n\r\n").unwrap() + 4;
    let head = String::from_utf8(full[..head_end].to_vec()).unwrap();
    assert!(head.contains(&format!("Content-Length: {}\r\n", body.len())));
    assert_eq!(&full[head_end..], &body[..]);
}

#[test]
fn filenames_render_escaped_never_as_markup() {
    let entries = vec![b"<script>alert(1)</script>".to_vec()];
    let body = listing_body(b"/d", &entries, b"/");
    let s = String::from_utf8(body.clone()).unwrap();
    assert!(s.contains("&lt;script&gt;alert(1)&lt;/script&gt;"));
    assert!(!s.contains("<script>"));
    // the only raw angle brackets are the anchor markup itself
    assert_eq!(count_anchors(&body), 2);
}

#[test]
fn escape_rewrites_the_three_special_bytes() {
    assert_eq!(escape_html(b"a&b<c>d"), b"a&amp;b&lt;c&gt;d".to_vec());
    assert_eq!(escape_html(b""), b"".to_vec());
    assert_eq!(escape_html(b"plain"), b"plain".to_vec());
}

#[test]
fn href_line_has_the_exact_layout() {
    assert_eq!(
        format_href(b"/d/x", b"x"),
        b"<a href=\"/d/x\">x</a><br/>\n".to_vec()
    );
    // 21 fixed bytes around the escaped target and text
    assert_eq!(format_href(b"", b"").len(), 21);
}

#[test]
fn mime_types_follow_the_extension() {
    assert_eq!(get_mime_type(b"/a.txt"), b"text/plain".to_vec());
    assert_eq!(get_mime_type(b"/index.html"), b"text/html".to_vec());
    assert_eq!(get_mime_type(b"/p.htm"), b"text/html".to_vec());
    assert_eq!(get_mime_type(b"/s.css"), b"text/css".to_vec());
    assert_eq!(get_mime_type(b"/s.js"), b"application/javascript".to_vec());
    assert_eq!(get_mime_type(b"/i.png"), b"image/png".to_vec());
    assert_eq!(get_mime_type(b"/i.jpg"), b"image/jpeg".to_vec());
    assert_eq!(get_mime_type(b"/i.jpeg"), b"image/jpeg".to_vec());
    assert_eq!(get_mime_type(b"/i.gif"), b"image/gif".to_vec());
    assert_eq!(get_mime_type(b"/d.pdf"), b"application/pdf".to_vec());
    assert_eq!(get_mime_type(b"/noext"), b"application/octet-stream".to_vec());
    assert_eq!(get_mime_type(b"/a.tar.unknown"), b"application/octet-stream".to_vec());
    // a dot in a directory name is not an extension of the final segment
    assert_eq!(get_mime_type(b"/dir.d/file"), b"application/octet-stream".to_vec());
}

#[test]
fn parent_path_edges() {
    assert_eq!(parent_path(b"/a/b"), b"/a".to_vec());
    assert_eq!(parent_path(b"/a"), b"/".to_vec());
    assert_eq!(parent_path(b"/"), b"/".to_vec());
    assert_eq!(parent_path(b"/sub/"), b"/".to_vec());
    assert_eq!(parent_path(b"/a/b/c"), b"/a/b".to_vec());
}

#[test]
fn index_path_joins_with_a_single_slash() {
    assert_eq!(index_path(b"/sub"), b"/sub/index.html".to_vec());
    assert_eq!(index_path(b"/sub/"), b"/sub/index.html".to_vec());
    assert_eq!(index_path(b"/"), b"/index.html".to_vec());
}

#[test]
fn decimal_rendering_is_exact() {
    assert_eq!(u64_to_dec(0), b"0".to_vec());
    assert_eq!(u64_to_dec(2), b"2".to_vec());
    assert_eq!(u64_to_dec(1024), b"1024".to_vec());
    assert_eq!(u64_to_dec(u64::MAX), b"18446744073709551615".to_vec());
}

#[test]
fn phased_writer_emits_the_same_bytes_as_the_whole_response() {
    let (hp, mut wire) = start_response(200);
    let (hp, piece) = hp.send_header(b"Content-Type", b"text/plain");
    wire.extend(piece);
    let (hp, piece) = hp.send_header(b"Content-Length", b"2");
    wire.extend(piece);
    let (bp, piece) = hp.end_headers();
    wire.extend(piece);
    let (_bp, piece) = bp.continue_response(b"hi");
    wire.extend(piece);
    assert_eq!(wire, file_response(b"text/plain", b"hi"));
}

#[test]
fn status_and_header_lines() {
    assert_eq!(status_line(200), b"HTTP/1.1 200 OK\r\n".to_vec());
    assert_eq!(status_line(404), b"HTTP/1.1 404 Not Found\r\n".to_vec());
    assert_eq!(header_line(b"Host", b"x"), b"Host: x\r\n".to_vec());
}

#[test]
fn requests_are_independent_of_other_requests() {
    // serving one path is a function of that path and its observation alone:
    // an unrelated request in between changes nothing
    let first = plan_response(b".", b"/a.txt", FsObservation::RegularFile);
    let _other = plan_response(b".", b"/sub/", FsObservation::Directory(vec![b"x".to_vec()]));
    let again = plan_response(b".", b"/a.txt", FsObservation::RegularFile);
    match (first, again) {
        (
            ResponsePlan::ServeFile { fs_path: p1, mime: m1 },
            ResponsePlan::ServeFile { fs_path: p2, mime: m2 },
        ) => {
            assert_eq!(p1, p2);
            assert_eq!(m1, m2);
        },
        _ => panic!("expected file plans"),
    }
}
