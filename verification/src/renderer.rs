//! Rendering a document as a page of HTML, or as plain text.

use crate::document::{image_views, DocumentView, ImageEntry, MdzDocument};
use crate::engines::{
    base64_encode, base64_text, encodable, markdown_html, markdown_to_html, regex_replace_all,
    regex_replaced, MarkdownExtensions,
};
use crate::error::MdzError;
use crate::text::{
    chars_eq, extension, from_chars, has_prefix, lowered, lowered_extension, replace_all,
    replaced, slice_chars, starts_with, to_chars,
};
use vstd::prelude::*;

verus! {

/// The stylesheet of a page whose document brings none.
pub const DEFAULT_CSS: &'static str = "\nbody {\n    font-family: -apple-system, BlinkMacSystemFont, \"Segoe UI\", Roboto, Arial, sans-serif;\n    line-height: 1.6;\n    max-width: 800px;\n    margin: 0 auto;\n    padding: 20px;\n    color: #333;\n}\n\nh1, h2, h3, h4, h5, h6 {\n    color: #2c3e50;\n    margin-top: 1.5em;\n    margin-bottom: 0.5em;\n}\n\nh1 {\n    border-bottom: 2px solid #3498db;\n    padding-bottom: 0.3em;\n}\n\nh2 {\n    border-bottom: 1px solid #bdc3c7;\n    padding-bottom: 0.2em;\n}\n\nimg {\n    max-width: 100%;\n    height: auto;\n    display: block;\n    margin: 1em auto;\n    border-radius: 4px;\n    box-shadow: 0 2px 8px rgba(0,0,0,0.1);\n}\n\ncode {\n    background-color: #f8f9fa;\n    padding: 2px 6px;\n    border-radius: 3px;\n    font-family: \"SFMono-Regular\", Consolas, \"Liberation Mono\", Menlo, monospace;\n    font-size: 0.9em;\n}\n\npre {\n    background-color: #f8f9fa;\n    padding: 16px;\n    border-radius: 6px;\n    overflow-x: auto;\n    border-left: 4px solid #3498db;\n}\n\npre code {\n    background: none;\n    padding: 0;\n}\n\nblockquote {\n    border-left: 4px solid #3498db;\n    margin: 1em 0;\n    padding-left: 1em;\n    color: #666;\n    font-style: italic;\n}\n\ntable {\n    border-collapse: collapse;\n    width: 100%;\n    margin: 1em 0;\n}\n\nth, td {\n    border: 1px solid #ddd;\n    padding: 8px 12px;\n    text-align: left;\n}\n\nth {\n    background-color: #f8f9fa;\n    font-weight: 600;\n}\n\na {\n    color: #3498db;\n    text-decoration: none;\n}\n\na:hover {\n    text-decoration: underline;\n}\n\nul, ol {\n    padding-left: 1.5em;\n}\n\nli {\n    margin: 0.25em 0;\n}\n\nhr {\n    border: none;\n    border-top: 1px solid #ddd;\n    margin: 2em 0;\n}\n        ";

/// How a document is rendered.
#[derive(Debug, Clone)]
pub struct RenderOptions {
    /// Whether the page gets a stylesheet.
    pub include_css: bool,
    /// Whether the images are put into the page as data URLs.
    pub base64_images: bool,
    /// A stylesheet to use in place of the document's.
    pub custom_css: Option<String>,
    /// A title to use in place of the document's.
    pub html_title: Option<String>,
}

/// Render options as plain values.
pub struct OptionsView {
    pub include_css: bool,
    pub base64_images: bool,
    pub custom_css: Option<Seq<char>>,
    pub html_title: Option<Seq<char>>,
}

impl View for RenderOptions {
    type V = OptionsView;

    open spec fn view(&self) -> OptionsView {
        OptionsView {
            include_css: self.include_css,
            base64_images: self.base64_images,
            custom_css: self.custom_css.deep_view(),
            html_title: self.html_title.deep_view(),
        }
    }
}

/// The options of a renderer that was given none: a stylesheet, inlined
/// images, and neither a stylesheet nor a title of its own.
pub open spec fn default_options() -> OptionsView {
    OptionsView { include_css: true, base64_images: true, custom_css: None, html_title: None }
}

impl Default for RenderOptions {
    fn default() -> (r: Self)
        ensures
            r@ == default_options(),
    {
        RenderOptions { include_css: true, base64_images: true, custom_css: None, html_title: None }
    }
}

/// The renderer of MDZ documents.
pub struct MdzRenderer {
    pub options: RenderOptions,
}

/// The MIME type that goes with the extension of a path.
pub open spec fn mime_of(path: Seq<char>) -> Seq<char> {
    let ext = lowered(extension(path));
    if ext == "jpg"@ || ext == "jpeg"@ {
        "image/jpeg"@
    } else if ext == "png"@ {
        "image/png"@
    } else if ext == "gif"@ {
        "image/gif"@
    } else if ext == "svg"@ {
        "image/svg+xml"@
    } else if ext == "webp"@ {
        "image/webp"@
    } else {
        "application/octet-stream"@
    }
}

/// The data URL that holds an image.
pub open spec fn data_url(path: Seq<char>, data: Seq<u8>) -> Seq<char> {
    "data:"@ + mime_of(path) + ";base64,"@ + base64_text(data)
}

/// A path without the `img/` that it begins with, if it begins so.
pub open spec fn stripped_path(path: Seq<char>) -> Seq<char> {
    if has_prefix(path, "img/"@) {
        path.skip(4)
    } else {
        path
    }
}

/// The markdown in which one image is inlined: first every occurrence of
/// its whole path, then every occurrence of its path without the leading
/// `img/` is replaced by its data URL. Where nothing is left of the path
/// without `img/`, only the whole path is replaced.
pub open spec fn inline_image(content: Seq<char>, path: Seq<char>, data: Seq<u8>) -> Seq<char> {
    let url = data_url(path, data);
    let whole = replaced(content, path, url);
    if stripped_path(path).len() == 0 {
        whole
    } else {
        replaced(whole, stripped_path(path), url)
    }
}

/// The markdown in which the images are inlined, one after the other in
/// their order.
pub open spec fn inline_images(content: Seq<char>, images: Seq<(Seq<char>, Seq<u8>)>) -> Seq<char>
    decreases images.len(),
{
    if images.len() == 0 {
        content
    } else {
        inline_image(inline_images(content, images.drop_last()), images.last().0, images.last().1)
    }
}

/// Whether every image can be encoded.
pub open spec fn all_encodable(images: Seq<(Seq<char>, Seq<u8>)>) -> bool {
    forall|i: int| 0 <= i < images.len() ==> encodable((#[trigger] images[i]).1.len())
}

/// The markdown that is converted: with the images inlined where the
/// options ask for it, as it stands otherwise.
pub open spec fn processed_markdown(options: OptionsView, doc: DocumentView) -> Seq<char> {
    if options.base64_images {
        inline_images(doc.content, doc.images)
    } else {
        doc.content
    }
}

/// The title of the page: the title of the options, else the title of the
/// document, else `MDZ Document`.
pub open spec fn title_for(option: Option<Seq<char>>, document: Option<Seq<char>>) -> Seq<char> {
    match option {
        Some(title) => title,
        None => match document {
            Some(title) => title,
            None => "MDZ Document"@,
        },
    }
}

/// The stylesheet that is chosen: the custom one, else the document's, else
/// the default.
pub open spec fn css_for(custom: Option<Seq<char>>, document: Option<Seq<char>>) -> Seq<char> {
    match custom {
        Some(css) => css,
        None => match document {
            Some(css) => css,
            None => DEFAULT_CSS@,
        },
    }
}

/// The stylesheet block of the page: empty where the options ask for no
/// stylesheet, the chosen stylesheet otherwise.
pub open spec fn stylesheet_for(
    include_css: bool,
    custom: Option<Seq<char>>,
    document: Option<Seq<char>>,
) -> Seq<char> {
    if include_css {
        css_for(custom, document)
    } else {
        Seq::empty()
    }
}

/// The page: an HTML5 shell with the title, the stylesheet and the body in
/// their places.
pub open spec fn html_document(title: Seq<char>, css: Seq<char>, body: Seq<char>) -> Seq<char> {
    "<!DOCTYPE html>\n<html lang=\"en\">\n<head>\n    <meta charset=\"UTF-8\">\n    <meta name=\"viewport\" content=\"width=device-width, initial-scale=1.0\">\n    <title>"@
        + title + "</title>\n    <style>\n"@ + css + "\n    </style>\n</head>\n<body>\n"@ + body
        + "\n</body>\n</html>"@
}

/// The page around a body that was converted already.
pub open spec fn page_around(options: OptionsView, doc: DocumentView, body: Seq<char>) -> Seq<char> {
    html_document(
        title_for(options.html_title, doc.metadata.title),
        stylesheet_for(options.include_css, options.custom_css, doc.css),
        body,
    )
}

/// The page that a document is rendered as.
pub open spec fn html_page(options: OptionsView, doc: DocumentView) -> Seq<char> {
    page_around(
        options,
        doc,
        markdown_html(processed_markdown(options, doc), true, true, true, true),
    )
}

/// One step of the way to plain text: a replacement of the matches of a
/// pattern, where the steps before went well.
pub open spec fn strip_step(text: Option<Seq<char>>, pattern: Seq<char>, replacement: Seq<char>) -> Option<
    Seq<char>,
> {
    match text {
        Some(text) => regex_replaced(pattern, text, replacement),
        None => None,
    }
}

/// The plain text of markdown: without the `#` marks and the white space
/// behind them at the starts of lines, with `**text**` and `*text*` reduced
/// to their text, without `![alt](url)`, and with `[text](url)` reduced to
/// its text, in this order. The images go before the links, so that
/// nothing of an image is taken for a link and left standing.
pub open spec fn plain_text(content: Seq<char>) -> Option<Seq<char>> {
    let no_marks = strip_step(Some(content), "(?m)^#+\\s*"@, ""@);
    let no_bold = strip_step(no_marks, "\\*\\*([^*]+)\\*\\*"@, "$1"@);
    let no_emphasis = strip_step(no_bold, "\\*([^*]+)\\*"@, "$1"@);
    let no_images = strip_step(no_emphasis, "!\\[[^\\]]*\\]\\([^)]+\\)"@, ""@);
    strip_step(no_images, "\\[([^\\]]+)\\]\\([^)]+\\)"@, "$1"@)
}

/// How the inlining grows with one more image.
proof fn lemma_inline_step(content: Seq<char>, images: Seq<(Seq<char>, Seq<u8>)>, upto: int)
    requires
        0 <= upto < images.len(),
    ensures
        inline_images(content, images.take(upto + 1)) == inline_image(
            inline_images(content, images.take(upto)),
            images[upto].0,
            images[upto].1,
        ),
{
    assert(images.take(upto + 1).drop_last() == images.take(upto));
}

impl MdzRenderer {
    /// A renderer with the default options.
    pub fn new() -> (r: Self)
        ensures
            r.options@ == default_options(),
    {
        MdzRenderer { options: RenderOptions::default() }
    }

    /// A renderer with the given options.
    pub fn with_options(options: RenderOptions) -> (r: Self)
        ensures
            r.options == options,
    {
        MdzRenderer { options }
    }

    /// The MIME type that goes with the extension of a path.
    pub fn detect_mime_type(&self, path: &str) -> (mime: &'static str)
        ensures
            mime@ == mime_of(path@),
    {
        let ext = lowered_extension(path);
        if chars_eq(&ext, &to_chars("jpg")) || chars_eq(&ext, &to_chars("jpeg")) {
            "image/jpeg"
        } else if chars_eq(&ext, &to_chars("png")) {
            "image/png"
        } else if chars_eq(&ext, &to_chars("gif")) {
            "image/gif"
        } else if chars_eq(&ext, &to_chars("svg")) {
            "image/svg+xml"
        } else if chars_eq(&ext, &to_chars("webp")) {
            "image/webp"
        } else {
            "application/octet-stream"
        }
    }

    /// The stylesheet of a page whose document brings none.
    pub fn default_css(&self) -> (css: &'static str)
        ensures
            css@ == DEFAULT_CSS@,
    {
        DEFAULT_CSS
    }

    /// The stylesheet that is chosen for a document: the custom one, else
    /// the document's, else the default.
    pub fn get_css_content(&self, document: &MdzDocument) -> (css: String)
        ensures
            css@ == css_for(self.options@.custom_css, document@.css),
    {
        match &self.options.custom_css {
            Some(custom) => custom.clone(),
            None => match &document.css {
                Some(css) => css.clone(),
                None => String::from_str(self.default_css()),
            },
        }
    }

    /// The title of the page for a document.
    pub fn resolve_title(&self, document: &MdzDocument) -> (title: String)
        ensures
            title@ == title_for(self.options@.html_title, document@.metadata.title),
    {
        match &self.options.html_title {
            Some(title) => title.clone(),
            None => match &document.metadata.title {
                Some(title) => title.clone(),
                None => String::from_str("MDZ Document"),
            },
        }
    }

    /// The page around a body that was converted already.
    pub fn create_html_document(&self, body: &str, document: &MdzDocument) -> (r: Result<
        String,
        MdzError,
    >)
        ensures
            r matches Ok(html) && html@ == page_around(self.options@, document@, body@),
    {
        let title = self.resolve_title(document);
        let css = if self.options.include_css {
            self.get_css_content(document)
        } else {
            String::new()
        };
        let mut html = String::from_str(
            "<!DOCTYPE html>\n<html lang=\"en\">\n<head>\n    <meta charset=\"UTF-8\">\n    <meta name=\"viewport\" content=\"width=device-width, initial-scale=1.0\">\n    <title>",
        );
        html.append(title.as_str());
        html.append("</title>\n    <style>\n");
        html.append(css.as_str());
        html.append("\n    </style>\n</head>\n<body>\n");
        html.append(body);
        html.append("\n</body>\n</html>");
        Ok(html)
    }

    /// The markdown with one image inlined.
    pub fn inline_one(&self, content: &Vec<char>, image: &ImageEntry) -> (r: Vec<char>)
        requires
            encodable(image.data@.len()),
        ensures
            r@ == inline_image(content@, image.path@, image.data@),
    {
        let path = to_chars(image.path.as_str());
        let mut url = String::from_str("data:");
        url.append(self.detect_mime_type(image.path.as_str()));
        url.append(";base64,");
        url.append(base64_encode(&image.data).as_str());
        let url = to_chars(url.as_str());
        let img_dir = to_chars("img/");
        let bare = if starts_with(&path, &img_dir) {
            proof {
                reveal_strlit("img/");
                assert(path@.subrange(4, path@.len() as int) == path@.skip(4));
            }
            slice_chars(&path, 4, path.len())
        } else {
            slice_chars(&path, 0, path.len())
        };
        assert(path@.subrange(0, path@.len() as int) == path@);
        let whole = replace_all(content, &path, &url);
        if bare.len() == 0 {
            whole
        } else {
            replace_all(&whole, &bare, &url)
        }
    }

    /// The markdown that is converted: with every image inlined where the
    /// options ask for it. Fails where an image is too large to be encoded.
    pub fn process_image_links(&self, content: &str, images: &Vec<ImageEntry>) -> (r: Result<
        String,
        MdzError,
    >)
        ensures
            match r {
                Ok(processed) => {
                    &&& self.options.base64_images ==> all_encodable(
                        image_views(images@),
                    )
                    &&& processed@ == if self.options.base64_images {
                        inline_images(content@, image_views(images@))
                    } else {
                        content@
                    }
                },
                Err(e) => {
                    &&& self.options.base64_images
                    &&& !all_encodable(image_views(images@))
                    &&& e matches MdzError::Render(reason) && reason@ == "image too large to inline"@
                },
            },
    {
        if !self.options.base64_images {
            return Ok(String::from_str(content));
        }
        let ghost views = image_views(images@);
        let mut processed = to_chars(content);
        let mut i: usize = 0;
        assert(views.take(0) =~= Seq::empty());
        while i < images.len()
            invariant
                i <= images.len(),
                self.options.base64_images,
                views == image_views(images@),
                processed@ == inline_images(content@, views.take(i as int)),
                forall|j: int| 0 <= j < i ==> encodable((#[trigger] views[j]).1.len()),
            decreases images.len() - i,
        {
            let size = images[i].data.len();
            if size / 3 > (usize::MAX - 4) / 4 {
                assert(views[i as int].1.len() == size);
                assert(!encodable(views[i as int].1.len()));
                return Err(MdzError::Render(String::from_str("image too large to inline")));
            }
            proof {
                lemma_inline_step(content@, views, i as int);
            }
            processed = self.inline_one(&processed, &images[i]);
            i += 1;
        }
        assert(views.take(images.len() as int) == views);
        Ok(from_chars(&processed))
    }

    /// Renders a document as a page of HTML. Fails only where the images
    /// are to be inlined and one of them is too large to be encoded.
    pub fn render_html(&self, document: &MdzDocument) -> (r: Result<String, MdzError>)
        ensures
            match r {
                Ok(html) => {
                    &&& self.options.base64_images ==> all_encodable(document@.images)
                    &&& html@ == html_page(self.options@, document@)
                },
                Err(e) => {
                    &&& self.options.base64_images
                    &&& !all_encodable(document@.images)
                    &&& e matches MdzError::Render(reason) && reason@ == "image too large to inline"@
                },
            },
    {
        let markdown = match self.process_image_links(
            document.content.as_str(),
            &document.images,
        ) {
            Ok(markdown) => markdown,
            Err(e) => {
                return Err(e);
            },
        };
        let extensions = MarkdownExtensions {
            strikethrough: true,
            tables: true,
            footnotes: true,
            tasklists: true,
        };
        let body = markdown_to_html(markdown.as_str(), extensions);
        self.create_html_document(body.as_str(), document)
    }

    /// Renders a document as plain text, by way of five replacements.
    /// Fails where the pattern engine refuses one of the patterns.
    pub fn render_text(&self, document: &MdzDocument) -> (r: Result<String, MdzError>)
        ensures
            match r {
                Ok(text) => plain_text(document@.content) == Some(text@),
                Err(e) => plain_text(document@.content) is None && e is Render,
            },
    {
        let text = match regex_replace_all("(?m)^#+\\s*", document.content.as_str(), "") {
            Ok(text) => text,
            Err(reason) => {
                return Err(MdzError::Render(reason));
            },
        };
        let text = match regex_replace_all("\\*\\*([^*]+)\\*\\*", text.as_str(), "$1") {
            Ok(text) => text,
            Err(reason) => {
                return Err(MdzError::Render(reason));
            },
        };
        let text = match regex_replace_all("\\*([^*]+)\\*", text.as_str(), "$1") {
            Ok(text) => text,
            Err(reason) => {
                return Err(MdzError::Render(reason));
            },
        };
        let text = match regex_replace_all("!\\[[^\\]]*\\]\\([^)]+\\)", text.as_str(), "") {
            Ok(text) => text,
            Err(reason) => {
                return Err(MdzError::Render(reason));
            },
        };
        match regex_replace_all("\\[([^\\]]+)\\]\\([^)]+\\)", text.as_str(), "$1") {
            Ok(text) => Ok(text),
            Err(reason) => Err(MdzError::Render(reason)),
        }
    }
}

impl Default for MdzRenderer {
    fn default() -> (r: Self)
        ensures
            r.options@ == default_options(),
    {
        MdzRenderer::new()
    }
}

} // verus!
