//! The browsable list of supported images in one directory.
use vstd::prelude::*;
use vstd::std_specs::iter::IteratorSpec;

verus! {

/// Extensions of the image formats the viewer opens, in lower case.
pub open spec fn supported() -> Seq<&'static str> {
    seq![
        "jpg", "jpeg", "png", "gif", "tif", "tiff", "webp", "bmp", "ico", "qoi", "pbm", "pgm",
        "ppm", "tga", "dds", "ff", "hdr", "exr", "jxl", "psd", "icns", "kra", "avif", "svg",
        "svgz", "apng", "jp2", "j2k", "j2c", "jpx", "dcm", "dicom", "ktx2",
    ]
}

pub const SUPPORTED_COUNT: usize = 33;

/// Code of `c` with ASCII upper-case letters mapped to lower case.
pub open spec fn lower_code(c: char) -> u32 {
    if 'A' <= c && c <= 'Z' {
        (c as u32 + 32) as u32
    } else {
        c as u32
    }
}

/// `a` and `b` are equal up to ASCII case.
pub open spec fn eq_ignore_ascii_case(a: Seq<char>, b: Seq<char>) -> bool {
    &&& a.len() == b.len()
    &&& forall|i: int| 0 <= i < a.len() ==> lower_code(#[trigger] a[i]) == lower_code(b[i])
}

/// `ext` names a supported format, in any ASCII case.
pub open spec fn ext_supported(ext: Seq<char>) -> bool {
    exists|i: int| 0 <= i < supported().len() && eq_ignore_ascii_case(ext, #[trigger] supported()[i]@)
}

/// Extension of a path as `std::path::Path::extension` finds it.
pub uninterp spec fn extension_of(path: Seq<char>) -> Option<Seq<char>>;

/// Final component of a path as `std::path::Path::file_name` finds it.
pub uninterp spec fn file_name_of(path: Seq<char>) -> Option<Seq<char>>;

/// A path the gallery lists: its extension names a supported format.
pub open spec fn listed(path: Seq<char>) -> bool {
    match extension_of(path) {
        Some(e) => ext_supported(e),
        None => false,
    }
}

/// Lexicographic order of character codes, the order of `String`'s `Ord`.
pub open spec fn str_le(a: Seq<char>, b: Seq<char>) -> bool
    decreases a.len(),
{
    if a.len() == 0 {
        true
    } else if b.len() == 0 {
        false
    } else if a[0] != b[0] {
        (a[0] as u32) < (b[0] as u32)
    } else {
        str_le(a.drop_first(), b.drop_first())
    }
}

pub open spec fn sorted_paths(v: Seq<String>) -> bool {
    forall|i: int| 0 <= i < v.len() - 1 ==> str_le(#[trigger] v[i]@, v[i + 1]@)
}

/// Relies on `std::path::Path::extension`: the extension of `path`, which as a
/// `&str` is valid UTF-8 and so converts without loss.
#[verifier::external_body]
fn path_extension(path: &str) -> (r: Option<String>)
    ensures
        match r {
            Some(s) => extension_of(path@) == Some(s@),
            None => extension_of(path@) is None,
        },
{
    std::path::Path::new(path).extension().map(|e| e.to_string_lossy().into_owned())
}

/// Relies on `std::path::Path::file_name`: the final component of `path`, which as a
/// `&str` is valid UTF-8 and so converts without loss.
#[verifier::external_body]
fn path_file_name(path: &str) -> (r: Option<String>)
    ensures
        match r {
            Some(s) => file_name_of(path@) == Some(s@),
            None => file_name_of(path@) is None,
        },
{
    std::path::Path::new(path).file_name().map(|n| n.to_string_lossy().into_owned())
}

/// Relies on `slice::sort_unstable` over `String`'s `Ord`, which compares the UTF-8
/// bytes lexicographically, the same order as comparing character codes.
#[verifier::external_body]
fn sort_strings(v: &mut Vec<String>)
    ensures
        final(v)@.to_multiset() == old(v)@.to_multiset(),
        final(v)@.len() == old(v)@.len(),
        sorted_paths(final(v)@),
{
    v.sort_unstable()
}

/// The characters of `s`.
pub(crate) fn chars_of(s: &str) -> (r: Vec<char>)
    ensures
        r@ == s@,
{
    let mut out: Vec<char> = Vec::new();
    let mut it = s.chars();
    loop
        invariant
            out@ + it.remaining() == s@,
            it.decrease() is Some,
        ensures
            out@ == s@,
        decreases it.decrease()->0,
    {
        match it.next() {
            Some(c) => {
                out.push(c);
            },
            None => {
                break;
            },
        }
    }
    out
}

fn lower(c: char) -> (r: u32)
    ensures
        r == lower_code(c),
{
    if 'A' <= c && c <= 'Z' {
        c as u32 + 32
    } else {
        c as u32
    }
}

/// `a` and `b` are equal up to ASCII case.
fn chars_eq_ignore_ascii_case(a: &Vec<char>, b: &Vec<char>) -> (r: bool)
    ensures
        r == eq_ignore_ascii_case(a@, b@),
{
    if a.len() != b.len() {
        return false;
    }
    let mut i: usize = 0;
    while i < a.len()
        invariant
            a@.len() == b@.len(),
            i <= a@.len(),
            forall|j: int| 0 <= j < i ==> lower_code(#[trigger] a@[j]) == lower_code(b@[j]),
        decreases a@.len() - i,
    {
        if lower(a[i]) != lower(b[i]) {
            return false;
        }
        i = i + 1;
    }
    true
}

/// Whether `ext` names a supported format, ignoring ASCII case.
pub fn is_supported_extension(ext: &str) -> (r: bool)
    ensures
        r == ext_supported(ext@),
{
    let table: [&str; 33] = [
        "jpg", "jpeg", "png", "gif", "tif", "tiff", "webp", "bmp", "ico", "qoi", "pbm", "pgm",
        "ppm", "tga", "dds", "ff", "hdr", "exr", "jxl", "psd", "icns", "kra", "avif", "svg",
        "svgz", "apng", "jp2", "j2k", "j2c", "jpx", "dcm", "dicom", "ktx2",
    ];
    assert(table@ == supported());
    let e = chars_of(ext);
    let mut i: usize = 0;
    while i < SUPPORTED_COUNT
        invariant
            i <= SUPPORTED_COUNT,
            table@ == supported(),
            e@ == ext@,
            forall|j: int| 0 <= j < i ==> !eq_ignore_ascii_case(ext@, #[trigger] supported()[j]@),
        decreases SUPPORTED_COUNT - i,
    {
        let name = chars_of(table[i]);
        if chars_eq_ignore_ascii_case(&e, &name) {
            return true;
        }
        i = i + 1;
    }
    false
}

/// Index of the first path equal to `p` at or after `i`; `0` when there is none.
pub open spec fn index_from(v: Seq<String>, p: Seq<char>, i: int) -> int
    decreases v.len() - i,
{
    if i < 0 || i >= v.len() {
        0
    } else if v[i]@ == p {
        i
    } else {
        index_from(v, p, i + 1)
    }
}

pub open spec fn owned(r: Option<&String>) -> Option<String> {
    match r {
        Some(s) => Some(*s),
        None => None,
    }
}

/// The supported images of a directory, sorted, and the one being viewed.
#[derive(Debug)]
pub struct Gallery {
    paths: Vec<String>,
    index: usize,
}

impl Default for Gallery {
    fn default() -> (r: Gallery)
        ensures
            r.paths_view().len() == 0,
            r.index_spec() == 0,
    {
        Gallery { paths: Vec::new(), index: 0 }
    }
}

impl Gallery {
    pub closed spec fn paths_view(&self) -> Seq<String> {
        self.paths@
    }

    pub closed spec fn index_spec(&self) -> int {
        self.index as int
    }

    /// The index points at a path, or is 0 in an empty gallery.
    pub open spec fn wf(&self) -> bool {
        &&& 0 <= self.index_spec()
        &&& self.index_spec() < self.paths_view().len() || (self.paths_view().len() == 0
            && self.index_spec() == 0)
    }

    pub open spec fn current_spec(&self) -> Option<String> {
        if 0 <= self.index_spec() < self.paths_view().len() {
            Some(self.paths_view()[self.index_spec()])
        } else {
            None
        }
    }

    /// The gallery of a directory whose entries are `entries`: the entries whose
    /// extension names a supported format, sorted, positioned at `file_path` (or at
    /// the first entry when `file_path` is not among them).
    pub fn from_listing(file_path: &String, entries: Vec<String>) -> (r: Gallery)
        ensures
            r.wf(),
            r.paths_view().to_multiset() == entries@.filter(|p: String| listed(p@)).to_multiset(),
            sorted_paths(r.paths_view()),
            r.index_spec() == index_from(r.paths_view(), file_path@, 0),
    {
        let ghost pred = |p: String| listed(p@);
        let mut kept: Vec<String> = Vec::new();
        let mut i: usize = 0;
        while i < entries.len()
            invariant
                i <= entries@.len(),
                pred == (|p: String| listed(p@)),
                kept@ == entries@.subrange(0, i as int).filter(pred),
            decreases entries@.len() - i,
        {
            proof {
                reveal(Seq::filter);
                assert(entries@.subrange(0, i as int + 1).drop_last() == entries@.subrange(
                    0,
                    i as int,
                ));
            }
            let path: &str = entries[i].as_str();
            assert(path@ == entries@[i as int]@);
            let keep = match path_extension(path) {
                Some(ext) => {
                    let e: &str = ext.as_str();
                    assert(e@ == ext@);
                    is_supported_extension(e)
                },
                None => false,
            };
            assert(keep == pred(entries@[i as int]));
            assert(entries@.subrange(0, i as int + 1).last() == entries@[i as int]);
            if keep {
                kept.push(entries[i].clone());
            }
            i = i + 1;
        }
        assert(entries@.subrange(0, entries@.len() as int) == entries@);
        sort_strings(&mut kept);
        let index = Self::position_of(&kept, file_path);
        Gallery { paths: kept, index }
    }

    fn position_of(paths: &Vec<String>, file_path: &String) -> (r: usize)
        ensures
            r == index_from(paths@, file_path@, 0),
            r < paths@.len() || r == 0,
    {
        let mut i: usize = 0;
        while i < paths.len()
            invariant
                i <= paths@.len(),
                index_from(paths@, file_path@, 0) == index_from(paths@, file_path@, i as int),
            decreases paths@.len() - i,
        {
            if paths[i] == *file_path {
                return i;
            }
            i = i + 1;
        }
        0
    }

    /// Final component of `path`, or an empty string when it has none.
    pub fn filename(path: &str) -> (r: String)
        ensures
            match file_name_of(path@) {
                Some(n) => r@ == n,
                None => r@ == Seq::<char>::empty(),
            },
    {
        match path_file_name(path) {
            Some(n) => n,
            None => String::new(),
        }
    }

    /// Moves to `file_path` when the gallery holds it, and returns it; returns `None`
    /// and changes nothing otherwise (the directory has to be listed anew).
    pub fn set(&mut self, file_path: &String) -> (r: Option<&String>)
        requires
            old(self).wf(),
        ensures
            final(self).wf(),
            final(self).paths_view() == old(self).paths_view(),
            (exists|i: int|
                0 <= i < old(self).paths_view().len() && (#[trigger] old(self).paths_view()[i])@
                    == file_path@) ==> {
                &&& final(self).index_spec() == index_from(old(self).paths_view(), file_path@, 0)
                &&& owned(r) == final(self).current_spec()
                &&& r is Some
            },
            !(exists|i: int|
                0 <= i < old(self).paths_view().len() && (#[trigger] old(self).paths_view()[i])@
                    == file_path@) ==> r is None && final(self).index_spec() == old(
                self,
            ).index_spec(),
    {
        let mut i: usize = 0;
        while i < self.paths.len()
            invariant
                i <= self.paths@.len(),
                *self == *old(self),
                index_from(self.paths@, file_path@, 0) == index_from(
                    self.paths@,
                    file_path@,
                    i as int,
                ),
                forall|j: int| 0 <= j < i ==> (#[trigger] self.paths@[j])@ != file_path@,
            decreases self.paths@.len() - i,
        {
            if self.paths[i] == *file_path {
                assert(old(self).paths_view()[i as int]@ == file_path@);
                self.index = i;
                return self.current();
            }
            i = i + 1;
        }
        None
    }

    /// Moves to the next image, wrapping to the first.
    pub fn next(&mut self) -> (r: Option<&String>)
        requires
            old(self).wf(),
        ensures
            final(self).wf(),
            final(self).paths_view() == old(self).paths_view(),
            old(self).paths_view().len() > 0 ==> final(self).index_spec() == (old(
                self,
            ).index_spec() + 1) % (old(self).paths_view().len() as int),
            old(self).paths_view().len() == 0 ==> final(self).index_spec() == 0,
            owned(r) == final(self).current_spec(),
    {
        let n = self.paths.len();
        if n > 0 {
            self.index = (self.index + 1) % n;
        }
        self.current()
    }

    /// Moves to the previous image, wrapping to the last.
    pub fn previous(&mut self) -> (r: Option<&String>)
        requires
            old(self).wf(),
        ensures
            final(self).wf(),
            final(self).paths_view() == old(self).paths_view(),
            old(self).paths_view().len() > 0 ==> final(self).index_spec() == if old(
                self,
            ).index_spec() == 0 {
                old(self).paths_view().len() - 1
            } else {
                old(self).index_spec() - 1
            },
            old(self).paths_view().len() == 0 ==> final(self).index_spec() == 0,
            owned(r) == final(self).current_spec(),
    {
        let n = self.paths.len();
        if n > 0 {
            self.index = if self.index == 0 {
                n - 1
            } else {
                self.index - 1
            };
        }
        self.current()
    }

    /// The image being viewed, if the gallery is not empty.
    pub fn current(&self) -> (r: Option<&String>)
        ensures
            owned(r) == self.current_spec(),
    {
        if self.index < self.paths.len() {
            Some(&self.paths[self.index])
        } else {
            None
        }
    }

    pub fn position(&self) -> (r: usize)
        ensures
            r == self.index_spec(),
    {
        self.index
    }

    pub fn len(&self) -> (r: usize)
        ensures
            r == self.paths_view().len(),
    {
        self.paths.len()
    }
}


/// Decoder that a file is read with, chosen by its extension.
#[derive(Clone, Copy, Debug, PartialEq, Eq, Structural)]
pub enum MediaFormat {
    /// Animated GIF.
    Gif,
    /// Radiance HDR, tone mapped.
    Hdr,
    /// OpenEXR, tone mapped.
    Exr,
    Jxl,
    Psd,
    Icns,
    /// Krita document (its merged image).
    Kra,
    /// SVG or gzipped SVG, rasterised.
    Svg,
    /// JPEG 2000.
    Jp2,
    Dicom,
    Dds,
    Ktx2,
    /// Animated PNG.
    Apng,
    /// WebP, still or animated.
    WebP,
    /// Any format the general image decoder guesses from the content.
    Generic,
}

/// The decoder for a file with extension `ext` (ASCII case ignored).
pub open spec fn spec_media_format(ext: Seq<char>) -> MediaFormat {
    if eq_ignore_ascii_case(ext, "gif"@) {
        MediaFormat::Gif
    } else if eq_ignore_ascii_case(ext, "hdr"@) {
        MediaFormat::Hdr
    } else if eq_ignore_ascii_case(ext, "exr"@) {
        MediaFormat::Exr
    } else if eq_ignore_ascii_case(ext, "jxl"@) {
        MediaFormat::Jxl
    } else if eq_ignore_ascii_case(ext, "psd"@) {
        MediaFormat::Psd
    } else if eq_ignore_ascii_case(ext, "icns"@) {
        MediaFormat::Icns
    } else if eq_ignore_ascii_case(ext, "kra"@) {
        MediaFormat::Kra
    } else if eq_ignore_ascii_case(ext, "svg"@) || eq_ignore_ascii_case(ext, "svgz"@) {
        MediaFormat::Svg
    } else if eq_ignore_ascii_case(ext, "jp2"@) || eq_ignore_ascii_case(ext, "j2k"@)
        || eq_ignore_ascii_case(ext, "j2c"@) || eq_ignore_ascii_case(ext, "jpx"@) {
        MediaFormat::Jp2
    } else if eq_ignore_ascii_case(ext, "dcm"@) || eq_ignore_ascii_case(ext, "dicom"@) {
        MediaFormat::Dicom
    } else if eq_ignore_ascii_case(ext, "dds"@) {
        MediaFormat::Dds
    } else if eq_ignore_ascii_case(ext, "ktx2"@) {
        MediaFormat::Ktx2
    } else if eq_ignore_ascii_case(ext, "apng"@) {
        MediaFormat::Apng
    } else if eq_ignore_ascii_case(ext, "webp"@) {
        MediaFormat::WebP
    } else {
        MediaFormat::Generic
    }
}

fn ext_is(ext: &Vec<char>, name: &str) -> (r: bool)
    ensures
        r == eq_ignore_ascii_case(ext@, name@),
{
    let n = chars_of(name);
    chars_eq_ignore_ascii_case(ext, &n)
}

/// The decoder for a file at `path`, by its extension; files without one go to
/// the general decoder.
pub fn media_format(path: &str) -> (r: MediaFormat)
    ensures
        r == match extension_of(path@) {
            Some(e) => spec_media_format(e),
            None => MediaFormat::Generic,
        },
{
    match path_extension(path) {
        Some(e) => format_for_extension(e.as_str()),
        None => MediaFormat::Generic,
    }
}

/// The decoder for files with extension `ext` (ASCII case ignored).
pub fn format_for_extension(ext: &str) -> (r: MediaFormat)
    ensures
        r == spec_media_format(ext@),
{
    let ext = chars_of(ext);
    if ext_is(&ext, "gif") {
        MediaFormat::Gif
    } else if ext_is(&ext, "hdr") {
        MediaFormat::Hdr
    } else if ext_is(&ext, "exr") {
        MediaFormat::Exr
    } else if ext_is(&ext, "jxl") {
        MediaFormat::Jxl
    } else if ext_is(&ext, "psd") {
        MediaFormat::Psd
    } else if ext_is(&ext, "icns") {
        MediaFormat::Icns
    } else if ext_is(&ext, "kra") {
        MediaFormat::Kra
    } else if ext_is(&ext, "svg") || ext_is(&ext, "svgz") {
        MediaFormat::Svg
    } else if ext_is(&ext, "jp2") || ext_is(&ext, "j2k") || ext_is(&ext, "j2c") || ext_is(
        &ext,
        "jpx",
    ) {
        MediaFormat::Jp2
    } else if ext_is(&ext, "dcm") || ext_is(&ext, "dicom") {
        MediaFormat::Dicom
    } else if ext_is(&ext, "dds") {
        MediaFormat::Dds
    } else if ext_is(&ext, "ktx2") {
        MediaFormat::Ktx2
    } else if ext_is(&ext, "apng") {
        MediaFormat::Apng
    } else if ext_is(&ext, "webp") {
        MediaFormat::WebP
    } else {
        MediaFormat::Generic
    }
}

} // verus!
