//! The engines that the renderer hands its text to: the `base64` crate for
//! image bytes, `pulldown_cmark` for markdown, `regex` for patterns.
//!
//! Nothing here is proved of these crates. Each result gets a name, and the
//! renderer's contracts say which text is handed to which engine.

use base64::Engine;
use vstd::prelude::*;

verus! {

/// The text that encodes the given bytes in base64, with the standard
/// alphabet and padding.
pub uninterp spec fn base64_text(data: Seq<u8>) -> Seq<char>;

/// Whether bytes of the given number can be encoded: the length of what
/// encodes them has to fit the machine's word.
pub open spec fn encodable(len: nat) -> bool {
    len / 3 * 4 + 4 <= usize::MAX
}

/// Encodes bytes in base64. Calls `Engine::encode` on
/// `base64::engine::general_purpose::STANDARD`, which panics where the
/// length of its result does not fit `usize`; `requires` leaves those
/// inputs out. The contract claims that the result depends on the bytes
/// alone.
#[verifier::external_body]
pub(crate) fn base64_encode(data: &Vec<u8>) -> (text: String)
    requires
        encodable(data@.len()),
    ensures
        text@ == base64_text(data@),
{
    base64::engine::general_purpose::STANDARD.encode(data)
}

/// The extensions of CommonMark that a conversion can switch on.
#[derive(Debug, Clone, Copy, PartialEq, Eq)]
pub struct MarkdownExtensions {
    pub strikethrough: bool,
    pub tables: bool,
    pub footnotes: bool,
    pub tasklists: bool,
}

/// The HTML that the markdown engine makes of a text, with the given
/// extensions on: strikethrough, tables, footnotes, task lists.
pub uninterp spec fn markdown_html(
    text: Seq<char>,
    strikethrough: bool,
    tables: bool,
    footnotes: bool,
    tasklists: bool,
) -> Seq<char>;

/// Converts markdown to HTML. Calls `pulldown_cmark::html::push_html` on
/// `Parser::new_ext`, with the options that the extensions stand for. The
/// contract claims that the result depends on the text and the extensions
/// alone.
#[verifier::external_body]
pub(crate) fn markdown_to_html(text: &str, extensions: MarkdownExtensions) -> (html: String)
    ensures
        html@ == markdown_html(
            text@,
            extensions.strikethrough,
            extensions.tables,
            extensions.footnotes,
            extensions.tasklists,
        ),
{
    let mut options = pulldown_cmark::Options::empty();
    options.set(pulldown_cmark::Options::ENABLE_STRIKETHROUGH, extensions.strikethrough);
    options.set(pulldown_cmark::Options::ENABLE_TABLES, extensions.tables);
    options.set(pulldown_cmark::Options::ENABLE_FOOTNOTES, extensions.footnotes);
    options.set(pulldown_cmark::Options::ENABLE_TASKLISTS, extensions.tasklists);
    let mut html = String::new();
    pulldown_cmark::html::push_html(&mut html, pulldown_cmark::Parser::new_ext(text, options));
    html
}

/// The text in which every match of a pattern is replaced, as the `regex`
/// crate reads patterns and replacements; `None` where the crate does not
/// accept the pattern.
pub uninterp spec fn regex_replaced(pattern: Seq<char>, text: Seq<char>, replacement: Seq<char>) -> Option<
    Seq<char>,
>;

/// Replaces every match of a pattern in a text. Calls `Regex::new` and
/// `Regex::replace_all`. The contract claims that the result depends on the
/// pattern, the text and the replacement alone; on a pattern that the crate
/// refuses, it hands the crate's words on.
#[verifier::external_body]
pub(crate) fn regex_replace_all(pattern: &str, text: &str, replacement: &str) -> (r: Result<
    String,
    String,
>)
    ensures
        match r {
            Ok(replaced) => regex_replaced(pattern@, text@, replacement@) == Some(replaced@),
            Err(_) => regex_replaced(pattern@, text@, replacement@) is None,
        },
{
    match regex::Regex::new(pattern) {
        Ok(re) => Ok(re.replace_all(text, replacement).into_owned()),
        Err(e) => Err(e.to_string()),
    }
}

} // verus!
