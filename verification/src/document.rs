//! The document model: the markdown text, the images it embeds, its
//! stylesheet and its metadata.

use crate::text::{chars_eq, to_chars};
use vstd::prelude::*;

verus! {

/// A point in time: whole seconds since 1970-01-01 00:00:00 UTC, and the
/// nanoseconds into that second.
#[derive(Debug, Clone, Copy, PartialEq, Eq)]
pub struct Timestamp {
    pub secs: i64,
    pub nanos: u32,
}

/// The time on the system's clock. Calls `chrono::Utc::now`, and
/// `DateTime::timestamp` and `DateTime::timestamp_subsec_nanos` on what it
/// gives. The contract claims nothing of the result: it depends on when the
/// call is made. `Utc::now` panics where the system's clock stands before
/// 1970; that is no input of the call, and no `requires` can leave it out.
#[verifier::external_body]
pub(crate) fn current_time() -> Timestamp {
    let now = chrono::Utc::now();
    Timestamp { secs: now.timestamp(), nanos: now.timestamp_subsec_nanos() }
}

/// What is known about a document besides its content.
#[derive(Debug, Clone)]
pub struct DocumentMetadata {
    pub title: Option<String>,
    pub created_at: Option<Timestamp>,
    pub modified_at: Option<Timestamp>,
    pub version: String,
}

/// Metadata as plain values.
pub struct MetadataView {
    pub title: Option<Seq<char>>,
    pub created_at: Option<Timestamp>,
    pub modified_at: Option<Timestamp>,
    pub version: Seq<char>,
}

impl View for DocumentMetadata {
    type V = MetadataView;

    open spec fn view(&self) -> MetadataView {
        MetadataView {
            title: self.title.deep_view(),
            created_at: self.created_at,
            modified_at: self.modified_at,
            version: self.version@,
        }
    }
}

/// The metadata of a document of which nothing is known yet.
pub open spec fn default_metadata() -> MetadataView {
    MetadataView { title: None, created_at: None, modified_at: None, version: "1.0"@ }
}

impl Default for DocumentMetadata {
    fn default() -> (r: Self)
        ensures
            r@ == default_metadata(),
    {
        DocumentMetadata {
            title: None,
            created_at: None,
            modified_at: None,
            version: String::from_str("1.0"),
        }
    }
}

/// An image of a document: its path in the container and its bytes.
#[derive(Debug, Clone)]
pub struct ImageEntry {
    pub path: String,
    pub data: Vec<u8>,
}

impl View for ImageEntry {
    type V = (Seq<char>, Seq<u8>);

    open spec fn view(&self) -> (Seq<char>, Seq<u8>) {
        (self.path@, self.data@)
    }
}

/// Where the first image with the given path stands; the number of images
/// where none has that path.
pub open spec fn position_of(images: Seq<(Seq<char>, Seq<u8>)>, path: Seq<char>) -> int
    decreases images.len(),
{
    if images.len() == 0 {
        0
    } else if images[0].0 == path {
        0
    } else {
        1 + position_of(images.drop_first(), path)
    }
}

/// The bytes stored under a path, if any are.
pub open spec fn lookup(images: Seq<(Seq<char>, Seq<u8>)>, path: Seq<char>) -> Option<Seq<u8>> {
    let at = position_of(images, path);
    if at < images.len() {
        Some(images[at].1)
    } else {
        None
    }
}

/// The images after one is stored: it takes the place of the image that had
/// its path, or comes last where none had.
pub open spec fn put_image(images: Seq<(Seq<char>, Seq<u8>)>, path: Seq<char>, data: Seq<u8>) -> Seq<
    (Seq<char>, Seq<u8>),
> {
    let at = position_of(images, path);
    if at < images.len() {
        images.update(at, (path, data))
    } else {
        images.push((path, data))
    }
}

/// Whether no two images have the same path.
pub open spec fn distinct_paths(images: Seq<(Seq<char>, Seq<u8>)>) -> bool {
    forall|i: int, j: int|
        0 <= i < j < images.len() ==> (#[trigger] images[i]).0 != (#[trigger] images[j]).0
}

/// The images as a mapping from path to bytes.
pub open spec fn image_map(images: Seq<(Seq<char>, Seq<u8>)>) -> Map<Seq<char>, Seq<u8>> {
    Map::new(
        |path: Seq<char>| lookup(images, path) is Some,
        |path: Seq<char>| lookup(images, path).unwrap(),
    )
}

/// `position_of` finds the first image with the path.
pub proof fn lemma_position_of(images: Seq<(Seq<char>, Seq<u8>)>, path: Seq<char>)
    ensures
        0 <= position_of(images, path) <= images.len(),
        forall|j: int| 0 <= j < position_of(images, path) ==> (#[trigger] images[j]).0 != path,
        position_of(images, path) < images.len() ==> images[position_of(images, path)].0 == path,
    decreases images.len(),
{
    if images.len() > 0 && images[0].0 != path {
        let rest = images.drop_first();
        lemma_position_of(rest, path);
        assert forall|j: int| 0 <= j < position_of(images, path) implies (#[trigger] images[j]).0
            != path by {
            if j > 0 {
                assert(images[j] == rest[j - 1]);
            }
        }
    }
}

/// An index before which no image has the path, and at which one has it or
/// the images end, is the position of the path.
pub proof fn lemma_position_is(images: Seq<(Seq<char>, Seq<u8>)>, path: Seq<char>, at: int)
    requires
        0 <= at <= images.len(),
        forall|j: int| 0 <= j < at ==> (#[trigger] images[j]).0 != path,
        at < images.len() ==> images[at].0 == path,
    ensures
        position_of(images, path) == at,
{
    lemma_position_of(images, path);
    let found = position_of(images, path);
    if found < at {
        assert(images[found].0 != path);
    }
}

/// Storing an image is an insertion into the mapping from path to bytes,
/// and keeps the paths distinct.
pub proof fn lemma_put_image(images: Seq<(Seq<char>, Seq<u8>)>, path: Seq<char>, data: Seq<u8>)
    ensures
        lookup(put_image(images, path, data), path) == Some(data),
        forall|other: Seq<char>|
            other != path ==> lookup(put_image(images, path, data), other) == lookup(
                images,
                other,
            ),
        image_map(put_image(images, path, data)) == image_map(images).insert(path, data),
        distinct_paths(images) ==> distinct_paths(put_image(images, path, data)),
{
    let after = put_image(images, path, data);
    let at = position_of(images, path);
    lemma_position_of(images, path);
    lemma_position_is(after, path, at);
    assert forall|other: Seq<char>| other != path implies lookup(after, other) == lookup(
        images,
        other,
    ) by {
        let k = position_of(images, other);
        lemma_position_of(images, other);
        assert forall|j: int| 0 <= j < k implies (#[trigger] after[j]).0 != other by {
            assert(images[j].0 != other);
        }
        lemma_position_is(after, other, if k < images.len() { k } else { after.len() as int });
    }
    assert(image_map(after) =~= image_map(images).insert(path, data));
    if distinct_paths(images) {
        assert forall|i: int, j: int| 0 <= i < j < after.len() implies (#[trigger] after[i]).0 != (
        #[trigger] after[j]).0 by {
            if at < images.len() {
                assert(after[i].0 == images[i].0);
                assert(after[j].0 == images[j].0);
            } else if j < images.len() {
                assert(after[i] == images[i]);
                assert(after[j] == images[j]);
            } else {
                assert(after[i] == images[i]);
            }
        }
    }
}

/// The images as plain values.
pub open spec fn image_views(images: Seq<ImageEntry>) -> Seq<(Seq<char>, Seq<u8>)> {
    images.map_values(|image: ImageEntry| image@)
}

/// Where the first of the images with the given path stands, if there is
/// one.
pub fn find_image_in(images: &Vec<ImageEntry>, path: &str) -> (r: Option<usize>)
    ensures
        match r {
            Some(at) => at < images.len() && at == position_of(image_views(images@), path@),
            None => position_of(image_views(images@), path@) == images.len(),
        },
{
    let wanted = to_chars(path);
    let mut i: usize = 0;
    while i < images.len()
        invariant
            i <= images.len(),
            wanted@ == path@,
            forall|j: int| 0 <= j < i ==> (#[trigger] image_views(images@)[j]).0 != path@,
        decreases images.len() - i,
    {
        let here = to_chars(images[i].path.as_str());
        if chars_eq(&here, &wanted) {
            proof {
                lemma_position_is(image_views(images@), path@, i as int);
            }
            return Some(i);
        }
        i += 1;
    }
    proof {
        lemma_position_is(image_views(images@), path@, images.len() as int);
    }
    None
}

/// Stores an image among the images: in the place of the one that had its
/// path, or behind the last where none had.
pub fn store_image(images: &mut Vec<ImageEntry>, path: String, data: Vec<u8>)
    ensures
        image_views(final(images)@) == put_image(image_views(old(images)@), path@, data@),
        distinct_paths(image_views(old(images)@)) ==> distinct_paths(image_views(final(images)@)),
{
    proof {
        lemma_put_image(image_views(images@), path@, data@);
    }
    match find_image_in(images, path.as_str()) {
        Some(at) => {
            images.set(at, ImageEntry { path, data });
        },
        None => {
            images.push(ImageEntry { path, data });
        },
    }
    assert(image_views(images@) =~= put_image(image_views(old(images)@), path@, data@));
}

/// An MDZ document.
#[derive(Debug, Clone)]
pub struct MdzDocument {
    /// The markdown text.
    pub content: String,
    /// The images, each under the path it has in the container. No two have
    /// the same path.
    pub images: Vec<ImageEntry>,
    /// The stylesheet, if the document has one.
    pub css: Option<String>,
    pub metadata: DocumentMetadata,
}

/// A document as plain values.
pub struct DocumentView {
    pub content: Seq<char>,
    pub images: Seq<(Seq<char>, Seq<u8>)>,
    pub css: Option<Seq<char>>,
    pub metadata: MetadataView,
}

impl View for MdzDocument {
    type V = DocumentView;

    open spec fn view(&self) -> DocumentView {
        DocumentView {
            content: self.content@,
            images: image_views(self.images@),
            css: self.css.deep_view(),
            metadata: self.metadata@,
        }
    }
}

impl MdzDocument {
    /// Whether the document is well formed: no two images have the same path.
    pub open spec fn wf(&self) -> bool {
        distinct_paths(self@.images)
    }

    /// The images as a mapping from path to bytes.
    pub open spec fn image_map(&self) -> Map<Seq<char>, Seq<u8>> {
        image_map(self@.images)
    }

    /// A document with the given content, no image, no stylesheet and the
    /// default metadata.
    pub fn new(content: String) -> (doc: Self)
        ensures
            doc@ == (DocumentView {
                content: content@,
                images: Seq::empty(),
                css: None,
                metadata: default_metadata(),
            }),
            doc.wf(),
    {
        let doc = MdzDocument {
            content,
            images: Vec::new(),
            css: None,
            metadata: DocumentMetadata::default(),
        };
        assert(doc@.images =~= Seq::empty());
        doc
    }

    /// Where the first image with the given path stands, if there is one.
    pub fn find_image(&self, path: &str) -> (r: Option<usize>)
        ensures
            match r {
                Some(at) => at < self.images.len() && at == position_of(self@.images, path@),
                None => position_of(self@.images, path@) == self.images.len(),
            },
    {
        find_image_in(&self.images, path)
    }

    /// The bytes of the image stored under a path, if there is one.
    pub fn image(&self, path: &str) -> (r: Option<&Vec<u8>>)
        ensures
            match r {
                Some(data) => lookup(self@.images, path@) == Some(data@),
                None => lookup(self@.images, path@) is None,
            },
    {
        match self.find_image(path) {
            Some(at) => Some(&self.images[at].data),
            None => None,
        }
    }

    /// Stores an image under a path. An image that was stored under the same
    /// path gives way to it.
    pub fn add_image(&mut self, path: String, data: Vec<u8>)
        ensures
            final(self)@ == (DocumentView {
                images: put_image(old(self)@.images, path@, data@),
                ..old(self)@
            }),
            final(self).image_map() == old(self).image_map().insert(path@, data@),
            old(self).wf() ==> final(self).wf(),
    {
        proof {
            lemma_put_image(self@.images, path@, data@);
        }
        store_image(&mut self.images, path, data);
    }

    /// Gives the document a stylesheet, in place of the one it had.
    pub fn set_css(&mut self, css: String)
        ensures
            final(self)@ == (DocumentView { css: Some(css@), ..old(self)@ }),
    {
        self.css = Some(css);
    }
}

} // verus!
