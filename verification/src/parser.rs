//! Parsing a container into a document.

use crate::archive::{
    archive_entries, archive_len, entry_name, named_payload, open_archive, read_entry,
    read_named, zip_entries, Archive, Entry, EntryRead,
};
use crate::document::{
    current_time, default_metadata, distinct_paths, image_views, put_image, store_image,
    DocumentMetadata, DocumentView, ImageEntry, MdzDocument, MetadataView, Timestamp,
};
use crate::error::{ErrorKind, MdzError};
use crate::text::{
    ends_with_char, from_chars, has_last, has_prefix, slice_chars, starts_with, text_from_utf8,
    to_chars, trim_range, trimmed,
};
use vstd::prelude::*;
use vstd::slice::slice_to_vec;
use vstd::utf8::{decode_utf8, valid_utf8};

verus! {

/// The parser of MDZ containers.
pub struct MdzParser;

/// Where the first line of a text ends: at its first line feed, or at its
/// end where it has none.
pub open spec fn line_end(s: Seq<char>) -> int
    decreases s.len(),
{
    if s.len() == 0 || s[0] == '\n' {
        0
    } else {
        1 + line_end(s.drop_first())
    }
}

/// The title that a line gives: where the line, without the white space at
/// its ends, begins with `# `, what follows, again without the white space
/// at its ends.
pub open spec fn heading_title(line: Seq<char>) -> Option<Seq<char>> {
    let text = trimmed(line);
    if text.len() >= 2 && text[0] == '#' && text[1] == ' ' {
        Some(trimmed(text.skip(2)))
    } else {
        None
    }
}

/// The title of a document: the one that the first of its lines with a
/// title gives.
pub open spec fn title_of(content: Seq<char>) -> Option<Seq<char>>
    decreases content.len(),
{
    let end = line_end(content);
    let here = heading_title(content.take(end));
    if here is Some {
        here
    } else if 0 <= end < content.len() {
        title_of(content.skip(end + 1))
    } else {
        None
    }
}

/// The metadata of a document that was parsed at the time `now`.
pub open spec fn metadata_at(content: Seq<char>, now: Timestamp) -> MetadataView {
    MetadataView { title: title_of(content), modified_at: Some(now), ..default_metadata() }
}

/// Whether an entry with the given path holds an image: the path lies under
/// `img/` and does not end in a slash.
pub open spec fn is_image_path(name: Seq<char>) -> bool {
    has_prefix(name, "img/"@) && !has_last(name, '/')
}

/// The text that bytes stand for, where they were read and are UTF-8.
pub open spec fn text_of(bytes: Option<Seq<u8>>) -> Result<Seq<char>, ErrorKind> {
    match bytes {
        Some(bytes) => if valid_utf8(bytes) {
            Ok(decode_utf8(bytes))
        } else {
            Err(ErrorKind::Io)
        },
        None => Err(ErrorKind::Io),
    }
}

/// The content of the document in a container with the given entries: the
/// text of `main.md`.
pub open spec fn main_text(entries: Seq<Entry>) -> Result<Seq<char>, ErrorKind> {
    match named_payload(entries, "main.md"@) {
        None => Err(ErrorKind::MissingFile),
        Some(bytes) => text_of(bytes),
    }
}

/// The images of the document in a container with the given entries: each
/// entry under `img/` that is no directory marker, stored under its path in
/// the order of the entries.
pub open spec fn loaded_images(entries: Seq<Entry>) -> Result<Seq<(Seq<char>, Seq<u8>)>, ErrorKind>
    decreases entries.len(),
{
    if entries.len() == 0 {
        Ok(Seq::empty())
    } else {
        let entry = entries.last();
        match loaded_images(entries.drop_last()) {
            Err(kind) => Err(kind),
            Ok(images) => if !entry.1 {
                Err(ErrorKind::Zip)
            } else if !is_image_path(entry.0) {
                Ok(images)
            } else {
                match entry.2 {
                    None => Err(ErrorKind::Zip),
                    Some(None) => Err(ErrorKind::Io),
                    Some(Some(bytes)) => Ok(put_image(images, entry.0, bytes)),
                }
            },
        }
    }
}

/// The stylesheet of the document in a container with the given entries:
/// the text of `css/style.css`, where the container has that entry.
pub open spec fn loaded_css(entries: Seq<Entry>) -> Result<Option<Seq<char>>, ErrorKind> {
    match named_payload(entries, "css/style.css"@) {
        None => Ok(None),
        Some(bytes) => match text_of(bytes) {
            Ok(text) => Ok(Some(text)),
            Err(kind) => Err(kind),
        },
    }
}

/// What parsing a container with the given entries at the time `now` owes:
/// the document, or the kind of the first failure.
pub open spec fn parsed(entries: Seq<Entry>, now: Timestamp) -> Result<DocumentView, ErrorKind> {
    match main_text(entries) {
        Err(kind) => Err(kind),
        Ok(content) => match loaded_images(entries) {
            Err(kind) => Err(kind),
            Ok(images) => match loaded_css(entries) {
                Err(kind) => Err(kind),
                Ok(css) => Ok(
                    DocumentView { content, images, css, metadata: metadata_at(content, now) },
                ),
            },
        },
    }
}

/// Whether a result is what parsing a container with the given entries
/// owes.
pub open spec fn parse_outcome(entries: Seq<Entry>, r: Result<MdzDocument, MdzError>) -> bool {
    match r {
        Ok(doc) => {
            &&& doc.metadata.modified_at is Some
            &&& parsed(entries, doc.metadata.modified_at.unwrap()) == Ok::<DocumentView, ErrorKind>(
                doc@,
            )
            &&& doc.wf()
        },
        Err(e) => {
            &&& forall|now: Timestamp| #[trigger]
                parsed(entries, now) == Err::<DocumentView, ErrorKind>(e.kind_of())
            &&& e is MissingFile ==> e.detail() == "main.md"@
        },
    }
}

/// The first line of `s[from..]` ends where the scan for a line feed stops.
proof fn lemma_line_end(s: Seq<char>, from: int, at: int)
    requires
        0 <= from <= at <= s.len(),
        forall|j: int| from <= j < at ==> s[j] != '\n',
        at == s.len() || s[at] == '\n',
    ensures
        line_end(s.skip(from)) == at - from,
    decreases at - from,
{
    if from < at {
        assert(s.skip(from).drop_first() == s.skip(from + 1));
        lemma_line_end(s, from + 1, at);
    }
}

/// Once the images cannot be loaded from the first entries, they cannot be
/// loaded from more of them, and the failure stays the same.
proof fn lemma_loaded_images_fails(entries: Seq<Entry>, upto: int)
    requires
        0 <= upto <= entries.len(),
        loaded_images(entries.take(upto)) is Err,
    ensures
        loaded_images(entries) == loaded_images(entries.take(upto)),
    decreases entries.len() - upto,
{
    if upto < entries.len() {
        assert(entries.take(upto + 1).drop_last() == entries.take(upto));
        lemma_loaded_images_fails(entries, upto + 1);
    } else {
        assert(entries.take(upto) == entries);
    }
}

impl MdzParser {
    /// The title of a document with the given content: the text of its first
    /// heading of the first level.
    pub fn extract_title(content: &str) -> (title: Option<String>)
        ensures
            title.deep_view() == title_of(content@),
    {
        let chars = to_chars(content);
        let n = chars.len();
        let mut start: usize = 0;
        assert(chars@.skip(0) == chars@);
        loop
            invariant
                n == chars.len(),
                chars@ == content@,
                start <= n,
                title_of(content@) == title_of(chars@.skip(start as int)),
            decreases n - start,
        {
            let mut end: usize = start;
            while end < n && chars[end] != '\n'
                invariant
                    n == chars.len(),
                    start <= end <= n,
                    forall|j: int| start <= j < end ==> chars@[j] != '\n',
                decreases n - end,
            {
                end += 1;
            }
            let ghost rest = chars@.skip(start as int);
            proof {
                lemma_line_end(chars@, start as int, end as int);
                assert(rest.take(end - start) == chars@.subrange(start as int, end as int));
            }
            let (a, b) = trim_range(&chars, start, end);
            if b - a >= 2 && chars[a] == '#' && chars[a + 1] == ' ' {
                let (c, d) = trim_range(&chars, a + 2, b);
                proof {
                    let text = chars@.subrange(a as int, b as int);
                    assert(text[0] == chars@[a as int]);
                    assert(text[1] == chars@[a + 1]);
                    assert(text.skip(2) == chars@.subrange(a + 2, b as int));
                }
                return Some(from_chars(&slice_chars(&chars, c, d)));
            }
            proof {
                let text = chars@.subrange(a as int, b as int);
                if b - a >= 2 {
                    assert(text[0] == chars@[a as int]);
                    assert(text[1] == chars@[a + 1]);
                }
            }
            if end >= n {
                return None;
            }
            assert(rest.skip(end - start + 1) == chars@.skip(end + 1));
            start = end + 1;
        }
    }

    /// The metadata of a document with the given content: its title, the
    /// time of the call as the time of its last change, and the defaults.
    pub fn extract_metadata(content: &str) -> (metadata: DocumentMetadata)
        ensures
            metadata.modified_at is Some,
            metadata@ == metadata_at(content@, metadata.modified_at.unwrap()),
    {
        let mut metadata = DocumentMetadata::default();
        metadata.title = Self::extract_title(content);
        metadata.modified_at = Some(current_time());
        metadata
    }

    /// Reads `main.md` as text.
    fn read_main_md(archive: &mut Archive) -> (r: Result<String, MdzError>)
        ensures
            archive_entries(*final(archive)) == archive_entries(*old(archive)),
            match r {
                Ok(content) => main_text(archive_entries(*old(archive))) == Ok::<
                    Seq<char>,
                    ErrorKind,
                >(content@),
                Err(e) => main_text(archive_entries(*old(archive))) == Err::<Seq<char>, ErrorKind>(
                    e.kind_of(),
                ) && (e is MissingFile ==> e.detail() == "main.md"@),
            },
    {
        match read_named(archive, "main.md") {
            EntryRead::Unopened(_) => Err(MdzError::MissingFile(String::from_str("main.md"))),
            EntryRead::Unreadable(reason) => Err(MdzError::Io(reason)),
            EntryRead::Bytes(bytes) => match text_from_utf8(bytes) {
                Ok(content) => Ok(content),
                Err(reason) => Err(MdzError::Io(reason)),
            },
        }
    }

    /// Reads the images: every entry under `img/` that is no directory
    /// marker.
    fn load_images(archive: &mut Archive) -> (r: Result<Vec<ImageEntry>, MdzError>)
        ensures
            archive_entries(*final(archive)) == archive_entries(*old(archive)),
            match r {
                Ok(images) => loaded_images(archive_entries(*old(archive))) == Ok::<
                    Seq<(Seq<char>, Seq<u8>)>,
                    ErrorKind,
                >(image_views(images@)) && distinct_paths(image_views(images@)),
                Err(e) => loaded_images(archive_entries(*old(archive))) == Err::<
                    Seq<(Seq<char>, Seq<u8>)>,
                    ErrorKind,
                >(e.kind_of()) && !(e is MissingFile),
            },
    {
        let ghost entries = archive_entries(*archive);
        let img_dir = to_chars("img/");
        let mut images: Vec<ImageEntry> = Vec::new();
        let n = archive_len(archive);
        let mut i: usize = 0;
        assert(image_views(images@) =~= Seq::empty());
        assert(entries.take(0) =~= Seq::empty());
        while i < n
            invariant
                i <= n,
                n == entries.len(),
                archive_entries(*archive) == entries,
                archive_entries(*old(archive)) == entries,
                img_dir@ == "img/"@,
                loaded_images(entries.take(i as int)) == Ok::<Seq<(Seq<char>, Seq<u8>)>, ErrorKind>(
                    image_views(images@),
                ),
                distinct_paths(image_views(images@)),
            decreases n - i,
        {
            proof {
                assert(entries.take(i + 1).drop_last() == entries.take(i as int));
                assert(entries.take(i + 1).last() == entries[i as int]);
            }
            let name = match entry_name(archive, i) {
                Ok(name) => name,
                Err(reason) => {
                    proof {
                        lemma_loaded_images_fails(entries, i + 1);
                    }
                    return Err(MdzError::Zip(reason));
                },
            };
            let chars = to_chars(name.as_str());
            if starts_with(&chars, &img_dir) && !ends_with_char(&chars, '/') {
                match read_entry(archive, i) {
                    EntryRead::Unopened(reason) => {
                        proof {
                            lemma_loaded_images_fails(entries, i + 1);
                        }
                        return Err(MdzError::Zip(reason));
                    },
                    EntryRead::Unreadable(reason) => {
                        proof {
                            lemma_loaded_images_fails(entries, i + 1);
                        }
                        return Err(MdzError::Io(reason));
                    },
                    EntryRead::Bytes(bytes) => {
                        store_image(&mut images, name, bytes);
                    },
                }
            }
            i += 1;
        }
        assert(entries.take(n as int) == entries);
        Ok(images)
    }

    /// Reads `css/style.css` as text, where the container has it.
    fn load_css(archive: &mut Archive) -> (r: Result<Option<String>, MdzError>)
        ensures
            archive_entries(*final(archive)) == archive_entries(*old(archive)),
            match r {
                Ok(css) => loaded_css(archive_entries(*old(archive))) == Ok::<
                    Option<Seq<char>>,
                    ErrorKind,
                >(css.deep_view()),
                Err(e) => loaded_css(archive_entries(*old(archive))) == Err::<
                    Option<Seq<char>>,
                    ErrorKind,
                >(e.kind_of()) && !(e is MissingFile),
            },
    {
        match read_named(archive, "css/style.css") {
            EntryRead::Unopened(_) => Ok(None),
            EntryRead::Unreadable(reason) => Err(MdzError::Io(reason)),
            EntryRead::Bytes(bytes) => match text_from_utf8(bytes) {
                Ok(css) => Ok(Some(css)),
                Err(reason) => Err(MdzError::Io(reason)),
            },
        }
    }

    /// Parses the container behind an archive into a document. Fails with
    /// `MissingFile` where the container has no `main.md` that opens, with
    /// `Io` where an entry it needs cannot be read or is no UTF-8 text, and
    /// with `Zip` where an entry is not found in its place or an image does
    /// not open.
    pub fn parse(archive: &mut Archive) -> (r: Result<MdzDocument, MdzError>)
        ensures
            archive_entries(*final(archive)) == archive_entries(*old(archive)),
            parse_outcome(archive_entries(*old(archive)), r),
    {
        let content = match Self::read_main_md(archive) {
            Ok(content) => content,
            Err(e) => {
                return Err(e);
            },
        };
        let metadata = Self::extract_metadata(content.as_str());
        let images = match Self::load_images(archive) {
            Ok(images) => images,
            Err(e) => {
                return Err(e);
            },
        };
        let css = match Self::load_css(archive) {
            Ok(css) => css,
            Err(e) => {
                return Err(e);
            },
        };
        Ok(MdzDocument { content, images, css, metadata })
    }

    /// Parses the container that the bytes encode. Fails with `Zip` where
    /// the bytes encode no archive, and as `parse` does otherwise.
    pub fn parse_bytes(data: &[u8]) -> (r: Result<MdzDocument, MdzError>)
        ensures
            match zip_entries(data@) {
                None => r matches Err(e) && e is Zip,
                Some(entries) => parse_outcome(entries, r),
            },
    {
        match open_archive(slice_to_vec(data)) {
            Ok(mut archive) => Self::parse(&mut archive),
            Err(reason) => Err(MdzError::Zip(reason)),
        }
    }
}

} // verus!
