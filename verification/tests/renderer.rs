use mdz_core::renderer::DEFAULT_CSS;
use mdz_core::{ErrorKind, MdzDocument, MdzParser, MdzRenderer, RenderOptions};
use std::io::{Cursor, Write};

fn options(include_css: bool, base64_images: bool, custom_css: Option<&str>, html_title: Option<&str>) -> RenderOptions {
    RenderOptions {
        include_css,
        base64_images,
        custom_css: custom_css.map(|s| s.to_string()),
        html_title: html_title.map(|s| s.to_string()),
    }
}

fn style_block(html: &str) -> String {
    let start = html.find("<style>\n").unwrap() + "<style>\n".len();
    let end = html.find("\n    </style>").unwrap();
    html[start..end].to_string()
}

fn title_of(html: &str) -> String {
    let start = html.find("<title>").unwrap() + "<title>".len();
    let end = html.find("</title>").unwrap();
    html[start..end].to_string()
}

#[test]
fn default_options_and_renderer() {
    let defaults = RenderOptions::default();
    assert!(defaults.include_css);
    assert!(defaults.base64_images);
    assert!(defaults.custom_css.is_none());
    assert!(defaults.html_title.is_none());
    let renderer = MdzRenderer::new();
    assert!(renderer.options.include_css && renderer.options.base64_images);
    let other = MdzRenderer::with_options(options(false, false, Some("a"), Some("t")));
    assert!(!other.options.include_css);
    assert_eq!(other.options.custom_css.as_deref(), Some("a"));
    let third = MdzRenderer::default();
    assert!(third.options.html_title.is_none());
}

#[test]
fn html_shell_is_exact() {
    let doc = MdzDocument::new("hi".to_string());
    let renderer = MdzRenderer::with_options(options(true, true, Some("p{}"), Some("T")));
    let html = renderer.render_html(&doc).unwrap();
    assert_eq!(
        html,
        "<!DOCTYPE html>\n<html lang=\"en\">\n<head>\n    <meta charset=\"UTF-8\">\n    <meta name=\"viewport\" content=\"width=device-width, initial-scale=1.0\">\n    <title>T</title>\n    <style>\np{}\n    </style>\n</head>\n<body>\n<p>hi</p>\n\n</body>\n</html>"
    );
    let same = renderer.create_html_document("<p>hi</p>\n", &doc).unwrap();
    assert_eq!(same, html);
}

#[test]
fn title_precedence() {
    let mut doc = MdzDocument::new("# Y\n".to_string());
    doc.metadata = MdzParser::extract_metadata("# Y\n");
    let explicit = MdzRenderer::with_options(options(true, true, None, Some("X")));
    assert_eq!(title_of(&explicit.render_html(&doc).unwrap()), "X");
    assert_eq!(title_of(&MdzRenderer::new().render_html(&doc).unwrap()), "Y");
    let bare = MdzDocument::new("text".to_string());
    assert_eq!(title_of(&MdzRenderer::new().render_html(&bare).unwrap()), "MDZ Document");
    assert_eq!(MdzRenderer::new().resolve_title(&bare), "MDZ Document");
}

#[test]
fn css_precedence() {
    let mut doc = MdzDocument::new("x".to_string());
    doc.set_css("B".to_string());
    let custom = MdzRenderer::with_options(options(true, true, Some("A"), None));
    assert_eq!(style_block(&custom.render_html(&doc).unwrap()), "A");
    assert_eq!(style_block(&MdzRenderer::new().render_html(&doc).unwrap()), "B");
    let bare = MdzDocument::new("x".to_string());
    assert_eq!(style_block(&MdzRenderer::new().render_html(&bare).unwrap()), DEFAULT_CSS);
    let off = MdzRenderer::with_options(options(false, true, Some("A"), None));
    assert_eq!(style_block(&off.render_html(&doc).unwrap()), "");
    assert_eq!(custom.get_css_content(&doc), "A");
    assert_eq!(MdzRenderer::new().get_css_content(&bare), DEFAULT_CSS);
}

#[test]
fn default_stylesheet_text() {
    let css = MdzRenderer::new().default_css();
    assert!(css.starts_with("\nbody {\n    font-family: -apple-system, BlinkMacSystemFont, \"Segoe UI\", Roboto, Arial, sans-serif;\n"));
    assert!(css.ends_with("hr {\n    border: none;\n    border-top: 1px solid #ddd;\n    margin: 2em 0;\n}\n        "));
    assert_eq!(css.len(), 1595);
}

#[test]
fn mime_types() {
    let r = MdzRenderer::new();
    assert_eq!(r.detect_mime_type("a.jpg"), "image/jpeg");
    assert_eq!(r.detect_mime_type("a.JPEG"), "image/jpeg");
    assert_eq!(r.detect_mime_type("img/a.png"), "image/png");
    assert_eq!(r.detect_mime_type("a.Gif"), "image/gif");
    assert_eq!(r.detect_mime_type("a.svg"), "image/svg+xml");
    assert_eq!(r.detect_mime_type("a.b.webp"), "image/webp");
    assert_eq!(r.detect_mime_type("a.bmp"), "application/octet-stream");
    assert_eq!(r.detect_mime_type("noext"), "application/octet-stream");
    assert_eq!(r.detect_mime_type("png"), "image/png");
    assert_eq!(r.detect_mime_type(""), "application/octet-stream");
}

#[test]
fn inlines_images_from_archive() {
    let mut writer = zip::ZipWriter::new(Cursor::new(Vec::new()));
    for (name, data) in [
        ("main.md", &b"# Doc\n\n![pic](img/a.png)\n"[..]),
        ("img/a.png", &[0x89, b'P', b'N', b'G'][..]),
        ("css/style.css", &b"body{}"[..]),
    ] {
        writer.start_file(name, zip::write::FileOptions::default()).unwrap();
        writer.write_all(data).unwrap();
    }
    let bytes = writer.finish().unwrap().into_inner();
    let doc = MdzParser::parse_bytes(&bytes).unwrap();
    let html = MdzRenderer::new().render_html(&doc).unwrap();
    assert!(html.contains("data:image/png;base64,iVBORw=="));
    assert!(!html.contains("img/a.png"));
    assert_eq!(style_block(&html), "body{}");
    assert_eq!(title_of(&html), "Doc");
    let plain = MdzRenderer::with_options(options(true, false, None, None)).render_html(&doc).unwrap();
    assert!(plain.contains("<img src=\"img/a.png\" alt=\"pic\" />"));
}

#[test]
fn inlining_replaces_both_forms() {
    let r = MdzRenderer::new();
    let mut images = Vec::new();
    images.push(mdz_core::ImageEntry { path: "img/b.gif".to_string(), data: vec![1, 2, 3] });
    let out = r.process_image_links("see b.gif and img/b.gif.", &images).unwrap();
    assert_eq!(out, "see data:image/gif;base64,AQID and data:image/gif;base64,AQID.");
    let linked = r.process_image_links("![b](img/b.gif)", &images).unwrap();
    assert_eq!(linked, "![b](data:image/gif;base64,AQID)");
    let mut free = Vec::new();
    free.push(mdz_core::ImageEntry { path: "pic.jpg".to_string(), data: vec![255] });
    let out = r.process_image_links("pic.jpg", &free).unwrap();
    assert_eq!(out, "data:image/jpeg;base64,/w==");
    let off = MdzRenderer::with_options(options(true, false, None, None));
    assert_eq!(off.process_image_links("img/b.gif", &images).unwrap(), "img/b.gif");
    let chars: Vec<char> = "x b.gif".chars().collect();
    let one: String = r.inline_one(&chars, &images[0]).into_iter().collect();
    assert_eq!(one, "x data:image/gif;base64,AQID");
}

#[test]
fn markdown_extensions_are_on() {
    let doc = MdzDocument::new("~~gone~~\n\n| a | b |\n|---|---|\n| 1 | 2 |\n\n- [x] done\n\nnote[^1]\n\n[^1]: foot\n".to_string());
    let html = MdzRenderer::new().render_html(&doc).unwrap();
    assert!(html.contains("<del>gone</del>"));
    assert!(html.contains("<table>"));
    assert!(html.contains("type=\"checkbox\""));
    assert!(html.contains("footnote"));
}

#[test]
fn plain_text_rendering() {
    let r = MdzRenderer::new();
    let doc = MdzDocument::new("# Title\n\nSome **bold** and *soft* text with [a link](http://x.y).\n## Sub\n".to_string());
    assert_eq!(
        r.render_text(&doc).unwrap(),
        "Title\n\nSome bold and soft text with a link.\nSub\n"
    );
    let image = MdzDocument::new("![](a.png) and ![alt](b.png)".to_string());
    assert_eq!(r.render_text(&image).unwrap(), " and ");
    let mixed = MdzDocument::new("pic: ![alt](img/a.png) end".to_string());
    assert_eq!(r.render_text(&mixed).unwrap(), "pic:  end");
    let both = MdzDocument::new("[go](http://x) ![pic](p.gif) [on](y)".to_string());
    assert_eq!(r.render_text(&both).unwrap(), "go  on");
    let empty = MdzDocument::new(String::new());
    assert_eq!(r.render_text(&empty).unwrap(), "");
}

#[test]
fn render_errors_have_kind() {
    let err = mdz_core::MdzError::Render("x".to_string());
    assert_eq!(err.kind(), ErrorKind::Render);
    assert_eq!(err.message(), "Rendering error: x");
}

#[test]
fn image_stored_under_the_bare_directory() {
    let r = MdzRenderer::new();
    let mut images = Vec::new();
    images.push(mdz_core::ImageEntry { path: "img/".to_string(), data: vec![1, 2, 3] });
    let out = r.process_image_links("x img/ y", &images).unwrap();
    assert_eq!(out, "x data:application/octet-stream;base64,AQID y");
}

#[test]
fn inlined_reference_is_a_data_url() {
    let mut doc = MdzDocument::new("![pic](img/a.png) and ![same](a.png)".to_string());
    doc.add_image("img/a.png".to_string(), vec![0x89, b'P', b'N', b'G']);
    let html = MdzRenderer::new().render_html(&doc).unwrap();
    assert!(html.contains("<img src=\"data:image/png;base64,iVBORw==\" alt=\"pic\" />"));
    assert!(html.contains("<img src=\"data:image/png;base64,iVBORw==\" alt=\"same\" />"));
    assert!(!html.contains("img/"));
    assert!(!html.contains("a.png"));
}
