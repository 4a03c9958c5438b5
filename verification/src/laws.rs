//! What holds of the library as a whole, stated over the same functions as
//! its contracts and proved from their definitions.

use crate::archive::{entry_paths, named_payload, Entry};
use crate::document::{DocumentView, Timestamp};
use crate::error::ErrorKind;
use crate::parser::{loaded_css, loaded_images, main_text, metadata_at, parsed};
use crate::renderer::{stylesheet_for, title_for, DEFAULT_CSS};
use crate::validator::{
    format_warning, format_warnings, has_parent_segment, path_notes, path_warnings, report_of,
    supported_image, ValidationReport,
};
use vstd::prelude::*;
use vstd::utf8::{encode_utf8, is_ascii_chars};

verus! {

/// A container whose one entry is `main.md`, found in its place and holding
/// a text, parses to a document with that text as its content, no image and
/// no stylesheet.
pub proof fn law_parse_main_only(text: Seq<char>, now: Timestamp)
    ensures
        parsed(seq![("main.md"@, true, Some(Some(encode_utf8(text))))], now) == Ok::<
            DocumentView,
            ErrorKind,
        >(
            DocumentView {
                content: text,
                images: Seq::empty(),
                css: None,
                metadata: metadata_at(text, now),
            },
        ),
{
    let entry: Entry = ("main.md"@, true, Some(Some(encode_utf8(text))));
    let entries = seq![entry];
    reveal_strlit("main.md");
    reveal_strlit("css/style.css");
    reveal_strlit("img/");
    vstd::utf8::encode_utf8_valid_utf8(text);
    vstd::utf8::encode_utf8_decode_utf8(text);
    assert(entries.last() == entry);
    assert(entries.drop_last() =~= Seq::<Entry>::empty());
    assert("main.md"@[0] != "img/"@[0]);
    assert("main.md"@.subrange(0, 4)[0] == "main.md"@[0]);
    assert("main.md"@.len() != "css/style.css"@.len());
    assert(named_payload(entries.drop_last(), "css/style.css"@) is None);
    assert(loaded_images(entries.drop_last()) == Ok::<Seq<(Seq<char>, Seq<u8>)>, ErrorKind>(
        Seq::empty(),
    ));
    assert(main_text(entries) == Ok::<Seq<char>, ErrorKind>(text));
    assert(loaded_css(entries) == Ok::<Option<Seq<char>>, ErrorKind>(None));
}

/// No entry with a path, nothing to read under that path.
pub proof fn lemma_absent_payload(entries: Seq<Entry>, name: Seq<char>)
    requires
        !entry_paths(entries).contains(name),
    ensures
        named_payload(entries, name) is None,
    decreases entries.len(),
{
    if entries.len() > 0 {
        let paths = entry_paths(entries);
        assert(paths[entries.len() - 1] == entries.last().0);
        assert forall|i: int| 0 <= i < entries.len() - 1 implies entry_paths(
            entries.drop_last(),
        )[i] != name by {
            assert(paths[i] == entries[i].0);
        }
        lemma_absent_payload(entries.drop_last(), name);
    }
}

/// On a container without `main.md`, parsing fails for want of a required
/// entry, and the validation report, which is owed where every entry is
/// found in its place, says that the main document is absent, holds exactly
/// one error, and is not valid.
pub proof fn law_missing_main(entries: Seq<Entry>, now: Timestamp)
    requires
        !entry_paths(entries).contains("main.md"@),
    ensures
        parsed(entries, now) == Err::<DocumentView, ErrorKind>(ErrorKind::MissingFile),
        !report_of(entry_paths(entries)).has_main_md,
        report_of(entry_paths(entries)).errors.len() == 1,
        !report_of(entry_paths(entries)).is_valid(),
{
    lemma_absent_payload(entries, "main.md"@);
}

/// The title of a page: the title of the options wins over the title of
/// the document, which wins over `MDZ Document`.
pub proof fn law_title_precedence(option: Seq<char>, document: Seq<char>)
    ensures
        title_for(Some(option), Some(document)) == option,
        title_for(Some(option), None) == option,
        title_for(None, Some(document)) == document,
        title_for(None, None) == "MDZ Document"@,
{
}

/// The stylesheet of a page: a custom stylesheet wins over the document's,
/// which wins over the default; and where the options ask for no
/// stylesheet, the block is empty whatever the two are.
pub proof fn law_css_precedence(
    custom: Seq<char>,
    document: Seq<char>,
    any_custom: Option<Seq<char>>,
    any_document: Option<Seq<char>>,
)
    ensures
        stylesheet_for(true, Some(custom), any_document) == custom,
        stylesheet_for(true, None, Some(document)) == document,
        stylesheet_for(true, None, None) == DEFAULT_CSS@,
        stylesheet_for(false, any_custom, any_document) == Seq::<char>::empty(),
{
}

/// An image among the files earns a warning on its format where its format
/// is not supported, and only there.
pub proof fn law_format_warnings(files: Seq<Seq<char>>, path: Seq<char>)
    requires
        files.contains(path),
    ensures
        format_warnings(files).contains(format_warning(path)) <==> !supported_image(path),
{
    let unsupported = |path: Seq<char>| !supported_image(path);
    let warn = |path: Seq<char>| format_warning(path);
    let kept = files.filter(unsupported);
    files.filter_lemma(unsupported);
    if !supported_image(path) {
        let i = choose|i: int| 0 <= i < files.len() && files[i] == path;
        assert(kept.contains(files[i]));
        let j = choose|j: int| 0 <= j < kept.len() && kept[j] == path;
        assert(kept.map_values(warn)[j] == format_warning(path));
    }
    if format_warnings(files).contains(format_warning(path)) {
        let j = choose|j: int|
            0 <= j < kept.map_values(warn).len() && kept.map_values(warn)[j] == format_warning(
                path,
            );
        assert(format_warning(kept[j]) == format_warning(path));
        let n = "Unsupported image format: "@.len() as int;
        assert(format_warning(kept[j]).skip(n) =~= kept[j]);
        assert(format_warning(path).skip(n) =~= path);
        assert(!supported_image(kept[j]));
    }
}

/// A path earns no warning exactly where it is ASCII, holds no space and has
/// no `..` segment.
pub proof fn law_clean_path(path: Seq<char>)
    ensures
        path_warnings(path).len() == 0 <==> is_ascii_chars(path) && !path.contains(' ')
            && !has_parent_segment(path),
        path_warnings(path).len() == path_notes(path).len(),
{
}

/// A path with a `..` segment earns a warning.
pub proof fn law_traversal_warned(path: Seq<char>)
    requires
        has_parent_segment(path),
    ensures
        path_warnings(path).len() > 0,
{
}

/// Whether a report is valid depends on its errors and on the presence of
/// the main document, and on nothing else: not on its warnings, however
/// many there are.
pub proof fn law_validity(report: ValidationReport, warnings: Seq<Seq<char>>)
    ensures
        report.is_valid() <==> report.errors.len() == 0 && report.has_main_md,
        (ValidationReport { warnings, ..report }).is_valid() == report.is_valid(),
{
}

/// The report on a container is valid exactly where the container has
/// `main.md`.
pub proof fn law_report_validity(names: Seq<Seq<char>>)
    ensures
        report_of(names).is_valid() <==> names.contains("main.md"@),
{
}

} // verus!
