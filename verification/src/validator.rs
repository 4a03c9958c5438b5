//! Structural validation of a container: which entries it holds, and which
//! of their paths deserve a warning.

use crate::archive::{
    all_found, archive_entries, archive_len, entry_name, entry_paths, open_archive, zip_entries,
    Archive, Entry,
};
use crate::error::MdzError;
use crate::text::{
    chars_eq, contains_char, ends_with_char, extension, has_last, has_prefix, lowered,
    lowered_extension, starts_with, to_chars,
};
use vstd::prelude::*;
use vstd::slice::slice_to_vec;
use vstd::utf8::is_ascii_chars;

verus! {

/// The validator of MDZ containers.
pub struct MdzValidator;

/// What a validation found.
#[derive(Debug, Clone)]
pub struct ValidationResult {
    pub has_main_md: bool,
    pub has_img_dir: bool,
    pub has_css_dir: bool,
    pub has_main_css: bool,
    pub image_files: Vec<String>,
    pub css_files: Vec<String>,
    pub errors: Vec<String>,
    pub warnings: Vec<String>,
}

/// A validation result as plain values.
pub struct ValidationReport {
    pub has_main_md: bool,
    pub has_img_dir: bool,
    pub has_css_dir: bool,
    pub has_main_css: bool,
    pub image_files: Seq<Seq<char>>,
    pub css_files: Seq<Seq<char>>,
    pub errors: Seq<Seq<char>>,
    pub warnings: Seq<Seq<char>>,
}

impl ValidationReport {
    /// A report stands for a valid container where it has no error and the
    /// main document is present. Warnings do not count.
    pub open spec fn is_valid(self) -> bool {
        self.errors.len() == 0 && self.has_main_md
    }
}

impl View for ValidationResult {
    type V = ValidationReport;

    open spec fn view(&self) -> ValidationReport {
        ValidationReport {
            has_main_md: self.has_main_md,
            has_img_dir: self.has_img_dir,
            has_css_dir: self.has_css_dir,
            has_main_css: self.has_main_css,
            image_files: self.image_files.deep_view(),
            css_files: self.css_files.deep_view(),
            errors: self.errors.deep_view(),
            warnings: self.warnings.deep_view(),
        }
    }
}

impl ValidationResult {
    /// The result before anything was found.
    pub fn new() -> (r: Self)
        ensures
            !r.has_main_md,
            !r.has_img_dir,
            !r.has_css_dir,
            !r.has_main_css,
            r.image_files@.len() == 0,
            r.css_files@.len() == 0,
            r.errors@.len() == 0,
            r.warnings@.len() == 0,
    {
        ValidationResult {
            has_main_md: false,
            has_img_dir: false,
            has_css_dir: false,
            has_main_css: false,
            image_files: Vec::new(),
            css_files: Vec::new(),
            errors: Vec::new(),
            warnings: Vec::new(),
        }
    }

    /// Whether the container passed: no error, and the main document is there.
    pub fn is_valid(&self) -> (r: bool)
        ensures
            r <==> self.errors@.len() == 0 && self.has_main_md,
            r == self@.is_valid(),
    {
        self.errors.len() == 0 && self.has_main_md
    }
}

/// Whether `..` stands at `i` as a whole segment of the path: between
/// slashes, or between a slash and an end of the path.
pub open spec fn parent_segment_at(path: Seq<char>, i: int) -> bool {
    &&& 0 <= i
    &&& i + 2 <= path.len()
    &&& path[i] == '.'
    &&& path[i + 1] == '.'
    &&& (i == 0 || path[i - 1] == '/')
    &&& (i + 2 == path.len() || path[i + 2] == '/')
}

/// Whether one of the segments of the path is `..`.
pub open spec fn has_parent_segment(path: Seq<char>) -> bool {
    exists|i: int| parent_segment_at(path, i)
}

/// What is said of a path with a `..` segment.
pub open spec fn traversal_note() -> Seq<char> {
    "Path traversal not allowed"@
}

/// What is said of a path with a space.
pub open spec fn space_note() -> Seq<char> {
    "Spaces in file paths not recommended"@
}

/// What is said of a path with a character outside ASCII.
pub open spec fn non_ascii_note() -> Seq<char> {
    "Non-ASCII characters not recommended"@
}

/// The notes that a path earns, one for each rule it breaks, in the order
/// of the rules: no `..` segment, no space, ASCII only.
pub open spec fn path_notes(path: Seq<char>) -> Seq<Seq<char>> {
    (if has_parent_segment(path) {
        seq![traversal_note()]
    } else {
        Seq::empty()
    }) + (if path.contains(' ') {
        seq![space_note()]
    } else {
        Seq::empty()
    }) + (if !is_ascii_chars(path) {
        seq![non_ascii_note()]
    } else {
        Seq::empty()
    })
}

/// The warning that reports one note on a path.
pub open spec fn path_warning(path: Seq<char>, note: Seq<char>) -> Seq<char> {
    "Invalid file path '"@ + path + "': Validation error: "@ + note
}

/// The warnings on one path.
pub open spec fn path_warnings(path: Seq<char>) -> Seq<Seq<char>> {
    path_notes(path).map_values(|note: Seq<char>| path_warning(path, note))
}

/// The warnings on the paths of all entries, entry by entry.
pub open spec fn hygiene_warnings(names: Seq<Seq<char>>) -> Seq<Seq<char>> {
    names.map_values(|name: Seq<char>| path_warnings(name)).flatten()
}

/// Whether the extension of a path, in lower case, names an image format
/// that is supported.
pub open spec fn supported_image(path: Seq<char>) -> bool {
    let ext = lowered(extension(path));
    ext == "jpg"@ || ext == "jpeg"@ || ext == "png"@ || ext == "gif"@ || ext == "svg"@ || ext
        == "webp"@
}

/// The warning on an image whose format is not supported.
pub open spec fn format_warning(path: Seq<char>) -> Seq<char> {
    "Unsupported image format: "@ + path
}

/// The warnings on the images whose format is not supported, image by image.
pub open spec fn format_warnings(files: Seq<Seq<char>>) -> Seq<Seq<char>> {
    files.filter(|path: Seq<char>| !supported_image(path)).map_values(
        |path: Seq<char>| format_warning(path),
    )
}

/// Whether a path lies under `img/`.
pub open spec fn under_img(name: Seq<char>) -> bool {
    has_prefix(name, "img/"@)
}

/// Whether a path lies under `css/`.
pub open spec fn under_css(name: Seq<char>) -> bool {
    has_prefix(name, "css/"@)
}

/// Whether a path stands for a directory: it ends in a slash.
pub open spec fn is_directory_marker(name: Seq<char>) -> bool {
    has_last(name, '/')
}

/// The paths under `img/` that are no directory markers, in their order.
pub open spec fn image_files_of(names: Seq<Seq<char>>) -> Seq<Seq<char>> {
    names.filter(|name: Seq<char>| under_img(name) && !is_directory_marker(name))
}

/// The paths under `css/` that are no directory markers, in their order.
pub open spec fn css_files_of(names: Seq<Seq<char>>) -> Seq<Seq<char>> {
    names.filter(|name: Seq<char>| under_css(name) && !is_directory_marker(name))
}

/// The one error that a report can hold.
pub open spec fn missing_main_error() -> Seq<char> {
    "Missing required file: main.md"@
}

/// The report on a container whose entries have the given paths, in the
/// order of the container's directory.
pub open spec fn report_of(names: Seq<Seq<char>>) -> ValidationReport {
    ValidationReport {
        has_main_md: names.contains("main.md"@),
        has_img_dir: any_under_img(names),
        has_css_dir: any_under_css(names),
        has_main_css: css_files_of(names).contains("css/style.css"@),
        image_files: image_files_of(names),
        css_files: css_files_of(names),
        errors: if names.contains("main.md"@) {
            Seq::empty()
        } else {
            seq![missing_main_error()]
        },
        warnings: hygiene_warnings(names) + format_warnings(image_files_of(names)),
    }
}

/// Whether a result is what validating a container with the given entries
/// owes: the report on their paths, unless one of them is not found in its
/// place.
pub open spec fn validate_outcome(entries: Seq<Entry>, r: Result<ValidationResult, MdzError>) -> bool {
    match r {
        Ok(result) => all_found(entries) && result@ == report_of(entry_paths(entries)),
        Err(e) => !all_found(entries) && e is Zip,
    }
}

/// Whether some path lies under `img/`.
pub open spec fn any_under_img(names: Seq<Seq<char>>) -> bool {
    exists|i: int| 0 <= i < names.len() && under_img(#[trigger] names[i])
}

/// Whether some path lies under `css/`.
pub open spec fn any_under_css(names: Seq<Seq<char>>) -> bool {
    exists|i: int| 0 <= i < names.len() && under_css(#[trigger] names[i])
}

/// How the parts of a report grow with one more path.
proof fn lemma_report_step(names: Seq<Seq<char>>, name: Seq<char>)
    ensures
        names.push(name).contains("main.md"@) <==> names.contains("main.md"@) || name
            == "main.md"@,
        any_under_img(names.push(name)) <==> any_under_img(names) || under_img(name),
        any_under_css(names.push(name)) <==> any_under_css(names) || under_css(name),
        image_files_of(names.push(name)) == if under_img(name) && !is_directory_marker(name) {
            image_files_of(names).push(name)
        } else {
            image_files_of(names)
        },
        css_files_of(names.push(name)) == if under_css(name) && !is_directory_marker(name) {
            css_files_of(names).push(name)
        } else {
            css_files_of(names)
        },
        hygiene_warnings(names.push(name)) == hygiene_warnings(names) + path_warnings(name),
{
    let longer = names.push(name);
    assert(longer.drop_last() == names);
    assert(longer.last() == name);
    assert(longer[names.len() as int] == name);
    if names.contains("main.md"@) {
        let i = choose|i: int| 0 <= i < names.len() && names[i] == "main.md"@;
        assert(longer[i] == "main.md"@);
    }
    if any_under_img(names) {
        let i = choose|i: int| 0 <= i < names.len() && under_img(#[trigger] names[i]);
        assert(under_img(longer[i]));
    }
    if any_under_img(longer) {
        let i = choose|i: int| 0 <= i < longer.len() && under_img(#[trigger] longer[i]);
        if i < names.len() {
            assert(under_img(names[i]));
        }
    }
    if any_under_css(names) {
        let i = choose|i: int| 0 <= i < names.len() && under_css(#[trigger] names[i]);
        assert(under_css(longer[i]));
    }
    if any_under_css(longer) {
        let i = choose|i: int| 0 <= i < longer.len() && under_css(#[trigger] longer[i]);
        if i < names.len() {
            assert(under_css(names[i]));
        }
    }
    reveal(Seq::filter);
    let per_path = |name: Seq<char>| path_warnings(name);
    assert(longer.map_values(per_path) =~= names.map_values(per_path).push(path_warnings(name)));
    names.map_values(per_path).lemma_flatten_push(path_warnings(name));
}

/// How the warnings on image formats grow with one more image.
proof fn lemma_format_step(files: Seq<Seq<char>>, path: Seq<char>)
    ensures
        format_warnings(files.push(path)) == if supported_image(path) {
            format_warnings(files)
        } else {
            format_warnings(files).push(format_warning(path))
        },
{
    let longer = files.push(path);
    assert(longer.drop_last() == files);
    reveal(Seq::filter);
    let unsupported = |path: Seq<char>| !supported_image(path);
    let warn = |path: Seq<char>| format_warning(path);
    if !supported_image(path) {
        assert(longer.filter(unsupported) == files.filter(unsupported).push(path));
        assert(files.filter(unsupported).push(path).map_values(warn) =~= files.filter(
            unsupported,
        ).map_values(warn).push(format_warning(path)));
    }
}

fn find_parent_segment(path: &Vec<char>) -> (r: bool)
    ensures
        r == has_parent_segment(path@),
{
    let n = path.len();
    if n < 2 {
        return false;
    }
    let mut i: usize = 0;
    while i + 1 < n
        invariant
            n == path.len(),
            n >= 2,
            i <= n - 1,
            forall|j: int| 0 <= j < i ==> !parent_segment_at(path@, j),
        decreases n - i,
    {
        if path[i] == '.' && path[i + 1] == '.' && (i == 0 || path[i - 1] == '/') && (i + 2 == n
            || path[i + 2] == '/') {
            assert(parent_segment_at(path@, i as int));
            return true;
        }
        i += 1;
    }
    false
}

impl MdzValidator {
    /// The notes on a path: one for each rule that it breaks.
    pub fn check_file_path(path: &str) -> (notes: Vec<String>)
        ensures
            notes.deep_view() == path_notes(path@),
    {
        let chars = to_chars(path);
        let mut notes: Vec<String> = Vec::new();
        if find_parent_segment(&chars) {
            notes.push(String::from_str("Path traversal not allowed"));
        }
        if contains_char(&chars, ' ') {
            notes.push(String::from_str("Spaces in file paths not recommended"));
        }
        if !path.is_ascii() {
            notes.push(String::from_str("Non-ASCII characters not recommended"));
        }
        assert(notes.deep_view() =~= path_notes(path@));
        notes
    }

    /// Holds a path to the rules: no `..` segment, no space, ASCII only.
    /// The error names the first rule that the path breaks.
    pub fn validate_file_path(path: &str) -> (r: Result<(), MdzError>)
        ensures
            r is Ok <==> path_notes(path@).len() == 0,
            r matches Err(e) ==> e matches MdzError::Validation(m) && m@ == path_notes(path@)[0],
    {
        let chars = to_chars(path);
        if find_parent_segment(&chars) {
            return Err(MdzError::Validation(String::from_str("Path traversal not allowed")));
        }
        if contains_char(&chars, ' ') {
            return Err(
                MdzError::Validation(String::from_str("Spaces in file paths not recommended")),
            );
        }
        if !path.is_ascii() {
            return Err(
                MdzError::Validation(String::from_str("Non-ASCII characters not recommended")),
            );
        }
        Ok(())
    }

    /// Whether the extension of a path names a supported image format.
    pub fn is_valid_image_format(path: &str) -> (r: bool)
        ensures
            r == supported_image(path@),
    {
        let ext = lowered_extension(path);
        chars_eq(&ext, &to_chars("jpg")) || chars_eq(&ext, &to_chars("jpeg")) || chars_eq(
            &ext,
            &to_chars("png"),
        ) || chars_eq(&ext, &to_chars("gif")) || chars_eq(&ext, &to_chars("svg")) || chars_eq(
            &ext,
            &to_chars("webp"),
        )
    }

    /// Validates a container by the paths of its entries, given in the order
    /// of its directory.
    pub fn validate_names(names: &Vec<String>) -> (r: ValidationResult)
        ensures
            r@ == report_of(names.deep_view()),
    {
        let ghost all = names.deep_view();
        let main_md = to_chars("main.md");
        let img_dir = to_chars("img/");
        let css_dir = to_chars("css/");
        let mut has_main_md = false;
        let mut has_img_dir = false;
        let mut has_css_dir = false;
        let mut image_files: Vec<String> = Vec::new();
        let mut css_files: Vec<String> = Vec::new();
        let mut warnings: Vec<String> = Vec::new();

        let mut i: usize = 0;
        assert(image_files.deep_view() =~= image_files_of(all.take(0))) by {
            reveal(Seq::filter);
        }
        assert(css_files.deep_view() =~= css_files_of(all.take(0))) by {
            reveal(Seq::filter);
        }
        assert(warnings.deep_view() =~= hygiene_warnings(all.take(0)));
        while i < names.len()
            invariant
                i <= names.len(),
                all == names.deep_view(),
                main_md@ == "main.md"@,
                img_dir@ == "img/"@,
                css_dir@ == "css/"@,
                has_main_md == all.take(i as int).contains("main.md"@),
                has_img_dir == any_under_img(all.take(i as int)),
                has_css_dir == any_under_css(all.take(i as int)),
                image_files.deep_view() == image_files_of(all.take(i as int)),
                css_files.deep_view() == css_files_of(all.take(i as int)),
                warnings.deep_view() == hygiene_warnings(all.take(i as int)),
            decreases names.len() - i,
        {
            let name = names[i].as_str();
            let chars = to_chars(name);
            proof {
                assert(all.take(i + 1) == all.take(i as int).push(name@));
                lemma_report_step(all.take(i as int), name@);
            }
            if chars_eq(&chars, &main_md) {
                has_main_md = true;
            }
            let is_marker = ends_with_char(&chars, '/');
            if starts_with(&chars, &img_dir) {
                has_img_dir = true;
                if !is_marker {
                    let ghost before = image_files.deep_view();
                    image_files.push(names[i].clone());
                    assert(image_files.deep_view() =~= before.push(name@));
                }
            }
            if starts_with(&chars, &css_dir) {
                has_css_dir = true;
                if !is_marker {
                    let ghost before = css_files.deep_view();
                    css_files.push(names[i].clone());
                    assert(css_files.deep_view() =~= before.push(name@));
                }
            }
            let notes = Self::check_file_path(name);
            let ghost before = warnings.deep_view();
            let mut k: usize = 0;
            while k < notes.len()
                invariant
                    k <= notes.len(),
                    notes.deep_view() == path_notes(name@),
                    warnings.deep_view() == before + path_warnings(name@).take(k as int),
                decreases notes.len() - k,
            {
                let mut warning = String::from_str("Invalid file path '");
                warning.append(name);
                warning.append("': Validation error: ");
                warning.append(notes[k].as_str());
                let ghost earlier = warnings.deep_view();
                warnings.push(warning);
                assert(warnings.deep_view() =~= earlier.push(
                    path_warning(name@, path_notes(name@)[k as int]),
                )) by {
                    assert(notes.deep_view()[k as int] == notes@[k as int]@);
                }
                assert(path_warnings(name@).take(k + 1) =~= path_warnings(name@).take(
                    k as int,
                ).push(path_warning(name@, path_notes(name@)[k as int])));
                k += 1;
            }
            assert(path_warnings(name@).take(notes.len() as int) =~= path_warnings(name@));
            i += 1;
        }
        assert(all.take(names.len() as int) == all);

        let mut k: usize = 0;
        let ghost hygiene = warnings.deep_view();
        assert(format_warnings(image_files.deep_view().take(0)) =~= Seq::empty()) by {
            reveal(Seq::filter);
        }
        while k < image_files.len()
            invariant
                k <= image_files.len(),
                warnings.deep_view() == hygiene + format_warnings(
                    image_files.deep_view().take(k as int),
                ),
            decreases image_files.len() - k,
        {
            let path = image_files[k].as_str();
            proof {
                let files = image_files.deep_view();
                assert(files.take(k + 1) == files.take(k as int).push(path@));
                lemma_format_step(files.take(k as int), path@);
            }
            if !Self::is_valid_image_format(path) {
                let mut warning = String::from_str("Unsupported image format: ");
                warning.append(path);
                let ghost earlier = warnings.deep_view();
                warnings.push(warning);
                assert(warnings.deep_view() =~= earlier.push(format_warning(path@)));
            }
            k += 1;
        }
        assert(image_files.deep_view().take(image_files.len() as int) == image_files.deep_view());

        let style = to_chars("css/style.css");
        let mut has_main_css = false;
        let mut k: usize = 0;
        while k < css_files.len()
            invariant
                k <= css_files.len(),
                style@ == "css/style.css"@,
                has_main_css == css_files.deep_view().take(k as int).contains("css/style.css"@),
            decreases css_files.len() - k,
        {
            let chars = to_chars(css_files[k].as_str());
            proof {
                let files = css_files.deep_view();
                let seen = files.take(k as int);
                let longer = files.take(k + 1);
                assert(longer == seen.push(chars@));
                assert(longer[k as int] == chars@);
                if seen.contains("css/style.css"@) {
                    let j = choose|j: int| 0 <= j < seen.len() && seen[j] == "css/style.css"@;
                    assert(longer[j] == "css/style.css"@);
                }
            }
            if chars_eq(&chars, &style) {
                has_main_css = true;
            }
            k += 1;
        }
        assert(css_files.deep_view().take(css_files.len() as int) == css_files.deep_view());

        let mut errors: Vec<String> = Vec::new();
        if !has_main_md {
            errors.push(String::from_str("Missing required file: main.md"));
        }
        let result = ValidationResult {
            has_main_md,
            has_img_dir,
            has_css_dir,
            has_main_css,
            image_files,
            css_files,
            errors,
            warnings,
        };
        assert(result@.errors =~= report_of(all).errors);
        result
    }

    /// Validates the container behind an archive. The report covers every
    /// entry; the call fails only where an entry is not found in the place
    /// that the container's directory gives it.
    pub fn validate(archive: &mut Archive) -> (r: Result<ValidationResult, MdzError>)
        ensures
            archive_entries(*final(archive)) == archive_entries(*old(archive)),
            validate_outcome(archive_entries(*old(archive)), r),
    {
        let ghost entries = archive_entries(*archive);
        let mut names: Vec<String> = Vec::new();
        let n = archive_len(archive);
        let mut i: usize = 0;
        assert(names.deep_view() =~= entry_paths(entries.take(0)));
        while i < n
            invariant
                i <= n,
                n == entries.len(),
                archive_entries(*archive) == entries,
                archive_entries(*old(archive)) == entries,
                names.deep_view() == entry_paths(entries.take(i as int)),
                forall|j: int| 0 <= j < i ==> (#[trigger] entries[j]).1,
            decreases n - i,
        {
            match entry_name(archive, i) {
                Ok(name) => {
                    let ghost before = names.deep_view();
                    names.push(name);
                    assert(names.deep_view() =~= before.push(entries[i as int].0));
                    assert(entry_paths(entries.take(i + 1)) =~= entry_paths(
                        entries.take(i as int),
                    ).push(entries[i as int].0));
                },
                Err(reason) => {
                    assert(!entries[i as int].1);
                    return Err(MdzError::Zip(reason));
                },
            }
            i += 1;
        }
        assert(entries.take(n as int) == entries);
        Ok(Self::validate_names(&names))
    }

    /// Validates the container that the bytes encode. Fails where the bytes
    /// encode no archive, and as `validate` does otherwise.
    pub fn validate_bytes(data: &[u8]) -> (r: Result<ValidationResult, MdzError>)
        ensures
            match zip_entries(data@) {
                None => r matches Err(e) && e is Zip,
                Some(entries) => validate_outcome(entries, r),
            },
    {
        match open_archive(slice_to_vec(data)) {
            Ok(mut archive) => Self::validate(&mut archive),
            Err(reason) => Err(MdzError::Zip(reason)),
        }
    }
}

} // verus!
