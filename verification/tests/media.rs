use tenon::tools::analyze_image::{encode_image, image_payload, is_svg, is_url};
use tenon::tools::fetch_webpage::{is_pdf_content_type, FetchWebpage};
use tenon::tools::record_thought::{RecordThought, SUMMARY_MIN_BYTES};

#[test]
fn test_is_url() {
    assert!(is_url("https://example.com/image.png"));
    assert!(is_url("http://example.com/image.jpg"));
    assert!(!is_url("/tmp/screenshot.png"));
    assert!(!is_url("./local/image.jpg"));
    assert!(!is_url("image.png"));
}

#[test]
fn test_svg_fallback() {
    let invalid_svg = b"<svg><this is not valid svg content>";
    let result = image_payload(invalid_svg.to_vec(), None);
    assert_eq!(result.as_slice(), invalid_svg.as_slice());
}

#[test]
fn svg_detection_ignores_case_and_needs_utf8() {
    assert!(is_svg(b"<?xml?><SVG width='1'/>"));
    assert!(!is_svg(b"\x89PNG\r\n"));
    assert!(!is_svg(&[0xff, 0xfe, b'<', b's', b'v', b'g']));
}

#[test]
fn rasterized_svg_replaces_original_only_for_svg() {
    let png = vec![1u8, 2, 3];
    assert_eq!(image_payload(b"<svg/>".to_vec(), Some(png.clone())), png);
    assert_eq!(image_payload(b"abc".to_vec(), Some(png)), b"abc".to_vec());
}

#[test]
fn png_and_unknown_images_are_sent_as_png_in_base64() {
    let png_magic = b"\x89PNG\r\n\x1a\n".to_vec();
    let data = encode_image(&png_magic);
    assert_eq!(data.mime, "image/png");
    assert_eq!(data.data, "iVBORw0KGgo=");
    let jpeg = vec![0xffu8, 0xd8, 0xff, 0xe0];
    assert_eq!(encode_image(&jpeg).mime, "image/jpeg");
    assert_eq!(encode_image(b"plain").mime, "image/png");
}

#[test]
fn test_is_pdf_content_type() {
    assert!(is_pdf_content_type(Some("application/pdf")));
    assert!(is_pdf_content_type(Some("application/pdf; charset=utf-8")));
    assert!(is_pdf_content_type(Some("APPLICATION/PDF")));
    assert!(!is_pdf_content_type(Some("text/html")));
    assert!(!is_pdf_content_type(Some("application/json")));
    assert!(!is_pdf_content_type(None));
}

#[test]
fn page_question_carries_prompt_and_content() {
    assert_eq!(
        FetchWebpage::question("What?", "# Title"),
        "What?\n\nWebpage content:\n\n# Title"
    );
}

#[test]
fn long_thoughts_are_summarized_and_blank_summaries_dropped() {
    assert!(!RecordThought::needs_summary("short"));
    assert!(RecordThought::needs_summary(&"x".repeat(SUMMARY_MIN_BYTES)));
    assert!(!RecordThought::needs_summary(&"é".repeat(49)));
    assert!(RecordThought::needs_summary(&"é".repeat(50)));
    assert_eq!(RecordThought::usable_summary(Some("  \n".to_string())), None);
    assert_eq!(RecordThought::usable_summary(None), None);
    assert_eq!(
        RecordThought::usable_summary(Some(" gist ".to_string())),
        Some(" gist ".to_string())
    );
    assert_eq!(
        RecordThought::summary_request("a\nb"),
        "Thought to summarize:\n```\na\nb\n```"
    );
}

#[test]
fn formats_are_told_by_magic_bytes() {
    assert_eq!(encode_image(b"GIF87a....").mime, "image/gif");
    assert_eq!(encode_image(b"RIFF\x10\x00\x00\x00WEBPVP8 ").mime, "image/webp");
    assert_eq!(encode_image(b"BM\x00\x00").mime, "image/bmp");
    assert_eq!(encode_image(b"RIFF\x10\x00\x00\x00WAVE").mime, "image/png");
    assert_eq!(encode_image(b"BM").data, "Qk0=");
}
