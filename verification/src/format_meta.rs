//! The format catalog: which image formats exist, how their file extensions
//! are recognised, whether their codecs may run on several threads at once,
//! and the bounds of their quality parameter.
//!
//! Quality values are carried as integers in tenths of a quality unit, so
//! that a step of a tenth can be stated exactly: a JPEG quality of 75 is
//! stored as 750.

use vstd::prelude::*;

use crate::paths;

verus! {

/// Whether a format's codec may be invoked from several threads at once.
/// The PNG optimizer is internally multi-threaded, so a batch that writes
/// PNG must run serially; the JPEG and WebP encoders are single-threaded
/// and safe to fan out.
#[derive(Debug, Clone, Copy, PartialEq, Eq, Structural)]
pub enum ProcessStrategy {
    Serial,
    Parallel,
}

#[derive(Debug, Clone, Copy, PartialEq, Eq, Structural)]
pub enum ImageFormat {
    Png,
    Jpeg,
    WebP,
}

#[derive(Debug, Clone, Copy, PartialEq, Eq, Structural)]
pub enum ImageFormatError {
    Unsupported,
}

/// Bounds of one format's quality parameter, in tenths of a quality unit.
#[derive(Debug)]
pub struct CompressOptionsContext {
    pub extension: String,
    pub min: u32,
    pub max: u32,
    pub default: u32,
    pub step: u32,
}

impl Clone for CompressOptionsContext {
    fn clone(&self) -> (r: Self)
        ensures
            r == *self,
    {
        CompressOptionsContext {
            extension: self.extension.clone(),
            min: self.min,
            max: self.max,
            default: self.default,
            step: self.step,
        }
    }
}

/// One row of the supported-format listing.
#[derive(Debug)]
pub struct FormatSupport {
    pub extension: String,
    pub readable: bool,
    pub writable: bool,
}

/// Lower-case an ASCII letter; any other character is unchanged.
pub open spec fn lower_char(c: char) -> char {
    if 'A' <= c && c <= 'Z' {
        ((c as u8) + 32) as char
    } else {
        c
    }
}

/// `s` with every ASCII letter lower-cased.
pub open spec fn lower_seq(s: Seq<char>) -> Seq<char> {
    Seq::new(s.len(), |i: int| lower_char(s[i]))
}

/// The format whose extension is `ext`, compared without regard to ASCII
/// case, or `None` for an unknown extension.
pub open spec fn format_of_extension(ext: Seq<char>) -> Option<ImageFormat> {
    let l = lower_seq(ext);
    if l == "jpg"@ || l == "jpeg"@ {
        Some(ImageFormat::Jpeg)
    } else if l == "png"@ {
        Some(ImageFormat::Png)
    } else if l == "webp"@ {
        Some(ImageFormat::WebP)
    } else {
        None
    }
}

/// The format detected for a path from its file extension.
pub open spec fn detected_format(s: Seq<char>) -> Option<ImageFormat> {
    match paths::extension_of(s) {
        Some(e) => format_of_extension(e),
        None => None,
    }
}

/// The concurrency class of a format's codec.
pub open spec fn strategy_of(f: ImageFormat) -> ProcessStrategy {
    match f {
        ImageFormat::Png => ProcessStrategy::Serial,
        ImageFormat::Jpeg => ProcessStrategy::Parallel,
        ImageFormat::WebP => ProcessStrategy::Parallel,
    }
}

/// The extension under which a format is listed.
pub open spec fn representative_ext(f: ImageFormat) -> Seq<char> {
    match f {
        ImageFormat::Png => "png"@,
        ImageFormat::Jpeg => "jpg"@,
        ImageFormat::WebP => "webp"@,
    }
}

/// Whether the catalog can decode files of format `f` at all.
pub open spec fn readable_spec(f: ImageFormat) -> bool {
    true
}

/// Whether files of format `f` can be produced from format `t`:
/// the JPEG and WebP encoders accept any decoded image, while the PNG
/// optimizer only rewrites files that already are PNG.
pub open spec fn can_compress_spec(f: ImageFormat, target: ImageFormat) -> bool {
    match target {
        ImageFormat::Png => f == ImageFormat::Png,
        ImageFormat::Jpeg => true,
        ImageFormat::WebP => true,
    }
}

/// Whether some readable format can be turned into `f`.
pub open spec fn writable_spec(f: ImageFormat) -> bool {
    true
}

/// The formats that files of format `f` can be turned into.
pub open spec fn writable_list(f: ImageFormat) -> Seq<ImageFormat> {
    match f {
        ImageFormat::Png => seq![
            ImageFormat::Png,
            ImageFormat::Jpeg,
            ImageFormat::WebP,
        ],
        ImageFormat::Jpeg => seq![ImageFormat::Jpeg, ImageFormat::WebP],
        ImageFormat::WebP => seq![ImageFormat::Jpeg, ImageFormat::WebP],
    }
}

/// Smallest quality value of `f`, in tenths.
pub open spec fn quality_min(f: ImageFormat) -> u32 {
    0
}

/// Largest quality value of `f`, in tenths.
pub open spec fn quality_max(f: ImageFormat) -> u32 {
    match f {
        ImageFormat::Png => 60,
        ImageFormat::Jpeg => 1000,
        ImageFormat::WebP => 1000,
    }
}

/// Quality used when a request names none, in tenths.
pub open spec fn quality_default(f: ImageFormat) -> u32 {
    match f {
        ImageFormat::Png => 60,
        ImageFormat::Jpeg => 750,
        ImageFormat::WebP => 750,
    }
}

/// Granularity of the quality control, in tenths.
pub open spec fn quality_step(f: ImageFormat) -> u32 {
    match f {
        ImageFormat::Png => 10,
        ImageFormat::Jpeg => 1,
        ImageFormat::WebP => 1,
    }
}

fn lower_char_exec(c: char) -> (r: char)
    ensures
        r == lower_char(c),
{
    if 'A' <= c && c <= 'Z' {
        (((c as u8) + 32) as char)
    } else {
        c
    }
}

/// Whether `a` and `b` are the same string apart from ASCII case.
fn eq_lowered(a: &str, b: &str) -> (r: bool)
    ensures
        r == (lower_seq(a@) == lower_seq(b@)),
{
    let la = a.unicode_len();
    let lb = b.unicode_len();
    if la != lb {
        proof {
            assert(lower_seq(a@).len() != lower_seq(b@).len());
        }
        return false;
    }
    let mut i: usize = 0;
    while i < la
        invariant
            i <= la,
            la == a@.len(),
            la == b@.len(),
            forall|j: int| 0 <= j < i ==> lower_seq(a@)[j] == lower_seq(b@)[j],
        decreases la - i,
    {
        let ca = lower_char_exec(a.get_char(i));
        let cb = lower_char_exec(b.get_char(i));
        if ca != cb {
            proof {
                assert(lower_seq(a@)[i as int] != lower_seq(b@)[i as int]);
            }
            return false;
        }
        i = i + 1;
    }
    proof {
        assert(lower_seq(a@) =~= lower_seq(b@));
    }
    true
}

impl ImageFormat {
    /// Recognises an extension, without regard to ASCII case.
    pub fn from_extension(ext: &str) -> (r: Option<ImageFormat>)
        ensures
            r == format_of_extension(ext@),
    {
        proof {
            reveal_strlit("jpg");
            reveal_strlit("jpeg");
            reveal_strlit("png");
            reveal_strlit("webp");
            assert(lower_seq("jpg"@) =~= "jpg"@);
            assert(lower_seq("jpeg"@) =~= "jpeg"@);
            assert(lower_seq("png"@) =~= "png"@);
            assert(lower_seq("webp"@) =~= "webp"@);
        }
        if eq_lowered(ext, "jpg") || eq_lowered(ext, "jpeg") {
            Some(ImageFormat::Jpeg)
        } else if eq_lowered(ext, "png") {
            Some(ImageFormat::Png)
        } else if eq_lowered(ext, "webp") {
            Some(ImageFormat::WebP)
        } else {
            None
        }
    }

    /// Detects a file's format from the extension of its path.
    pub fn from_path(path: &str) -> (r: Result<ImageFormat, ImageFormatError>)
        ensures
            r == (match detected_format(path@) {
                Some(f) => Result::<ImageFormat, ImageFormatError>::Ok(f),
                None => Result::<ImageFormat, ImageFormatError>::Err(
                    ImageFormatError::Unsupported,
                ),
            }),
    {
        match paths::extension_str(path) {
            Some(ext) => match ImageFormat::from_extension(ext) {
                Some(f) => Ok(f),
                None => Err(ImageFormatError::Unsupported),
            },
            None => Err(ImageFormatError::Unsupported),
        }
    }

    /// The file extensions under which a format is recognised.
    pub fn extensions_str(self) -> (r: Vec<&'static str>)
        ensures
            r@.len() == (if self == ImageFormat::Jpeg {
                2int
            } else {
                1int
            }),
            r@[0]@ == representative_ext(self),
            self == ImageFormat::Jpeg ==> r@[1]@ == "jpeg"@,
    {
        match self {
            ImageFormat::Png => vec!["png"],
            ImageFormat::Jpeg => vec!["jpg", "jpeg"],
            ImageFormat::WebP => vec!["webp"],
        }
    }

    /// The extension under which the format is listed.
    pub fn get_representative_ext_str(&self) -> (r: String)
        ensures
            r@ == representative_ext(*self),
    {
        let exts = self.extensions_str();
        String::from_str(exts[0])
    }

    /// The concurrency class of the format's codec.
    pub fn process_strategy(&self) -> (r: ProcessStrategy)
        ensures
            r == strategy_of(*self),
    {
        match self {
            ImageFormat::Png => ProcessStrategy::Serial,
            ImageFormat::Jpeg => ProcessStrategy::Parallel,
            ImageFormat::WebP => ProcessStrategy::Parallel,
        }
    }

    /// Every format of the catalog.
    pub fn get_formats() -> (r: Vec<ImageFormat>)
        ensures
            r@ == seq![ImageFormat::Jpeg, ImageFormat::Png, ImageFormat::WebP],
    {
        let jpg = ImageFormat::Jpeg;
        let png = ImageFormat::Png;
        let webp = ImageFormat::WebP;

        let formats = vec![jpg, png, webp];

        proof {
            assert(formats@ =~= seq![
                ImageFormat::Jpeg,
                ImageFormat::Png,
                ImageFormat::WebP,
            ]);
        }
        formats
    }

    /// Whether the catalog can decode files of this format.
    pub fn readable(&self) -> (r: bool)
        ensures
            r == readable_spec(*self),
    {
        true
    }

    /// Whether files of this format can be turned into `target`.
    pub fn can_compress(&self, target: &ImageFormat) -> (r: bool)
        ensures
            r == can_compress_spec(*self, *target),
    {
        match target {
            ImageFormat::Png => *self == ImageFormat::Png,
            ImageFormat::Jpeg => true,
            ImageFormat::WebP => true,
        }
    }

    /// The formats that files of this format can be turned into.
    pub fn writable_formats(&self) -> (r: Vec<ImageFormat>)
        ensures
            r@ == writable_list(*self),
            forall|t: ImageFormat| r@.contains(t) <==> can_compress_spec(*self, t),
    {
        let r = match self {
            ImageFormat::Png => vec![
                ImageFormat::Png,
                ImageFormat::Jpeg,
                ImageFormat::WebP,
            ],
            ImageFormat::Jpeg => vec![ImageFormat::Jpeg, ImageFormat::WebP],
            ImageFormat::WebP => vec![ImageFormat::Jpeg, ImageFormat::WebP],
        };
        proof {
            assert(r@ =~= writable_list(*self));
            assert forall|t: ImageFormat| r@.contains(t) <==> can_compress_spec(
                *self,
                t,
            ) by {
                if can_compress_spec(*self, t) {
                    match t {
                        ImageFormat::Png => assert(r@[0] == t),
                        ImageFormat::Jpeg => {
                            if *self == ImageFormat::Png {
                                assert(r@[1] == t);
                            } else {
                                assert(r@[0] == t);
                            }
                        },
                        ImageFormat::WebP => {
                            if *self == ImageFormat::Png {
                                assert(r@[2] == t);
                            } else {
                                assert(r@[1] == t);
                            }
                        },
                    }
                }
            }
        }
        r
    }

    /// The bounds of the format's quality parameter, in tenths.
    pub fn get_compress_options_context(&self) -> (r: CompressOptionsContext)
        ensures
            r.extension@ == representative_ext(*self),
            r.min == quality_min(*self),
            r.max == quality_max(*self),
            r.default == quality_default(*self),
            r.step == quality_step(*self),
    {
        match self {
            ImageFormat::Png => CompressOptionsContext {
                extension: self.get_representative_ext_str(),
                min: 0,
                max: 60,
                default: 60,
                step: 10,
            },
            ImageFormat::Jpeg => CompressOptionsContext {
                extension: self.get_representative_ext_str(),
                min: 0,
                max: 1000,
                default: 750,
                step: 1,
            },
            ImageFormat::WebP => CompressOptionsContext {
                extension: self.get_representative_ext_str(),
                min: 0,
                max: 1000,
                default: 750,
                step: 1,
            },
        }
    }
}

/// The rows of the supported-format listing, one per catalog format.
pub fn list_supported_formats() -> (r: Vec<FormatSupport>)
    ensures
        r@.len() == 3,
        forall|i: int| 0 <= i < 3 ==> (#[trigger] r@[i]).extension@ == representative_ext(
            seq![ImageFormat::Jpeg, ImageFormat::Png, ImageFormat::WebP][i],
        ),
        forall|i: int| 0 <= i < 3 ==> (#[trigger] r@[i]).readable == readable_spec(
            seq![ImageFormat::Jpeg, ImageFormat::Png, ImageFormat::WebP][i],
        ),
        forall|i: int| 0 <= i < 3 ==> (#[trigger] r@[i]).writable == writable_spec(
            seq![ImageFormat::Jpeg, ImageFormat::Png, ImageFormat::WebP][i],
        ),
{
    let formats = ImageFormat::get_formats();
    let mut r: Vec<FormatSupport> = Vec::new();
    let mut i: usize = 0;
    while i < formats.len()
        invariant
            i <= formats.len(),
            formats@ == seq![ImageFormat::Jpeg, ImageFormat::Png, ImageFormat::WebP],
            r@.len() == i,
            forall|j: int| 0 <= j < i ==> (#[trigger] r@[j]).extension@
                == representative_ext(formats@[j]),
            forall|j: int| 0 <= j < i ==> (#[trigger] r@[j]).readable == readable_spec(
                formats@[j],
            ),
            forall|j: int| 0 <= j < i ==> (#[trigger] r@[j]).writable == writable_spec(
                formats@[j],
            ),
        decreases formats.len() - i,
    {
        let f = formats[i];
        r.push(FormatSupport {
            extension: f.get_representative_ext_str(),
            readable: true,
            writable: true,
        });
        i = i + 1;
    }
    r
}

/// The quality-parameter bounds of every catalog format.
pub fn list_compress_options() -> (r: Vec<CompressOptionsContext>)
    ensures
        r@.len() == 3,
        forall|i: int| 0 <= i < 3 ==> (#[trigger] r@[i]).extension@ == representative_ext(
            seq![ImageFormat::Jpeg, ImageFormat::Png, ImageFormat::WebP][i],
        ),
        forall|i: int| 0 <= i < 3 ==> (#[trigger] r@[i]).default == quality_default(
            seq![ImageFormat::Jpeg, ImageFormat::Png, ImageFormat::WebP][i],
        ),
        forall|i: int| 0 <= i < 3 ==> (#[trigger] r@[i]).min == quality_min(
            seq![ImageFormat::Jpeg, ImageFormat::Png, ImageFormat::WebP][i],
        ) && (#[trigger] r@[i]).max == quality_max(
            seq![ImageFormat::Jpeg, ImageFormat::Png, ImageFormat::WebP][i],
        ) && r@[i].step == quality_step(
            seq![ImageFormat::Jpeg, ImageFormat::Png, ImageFormat::WebP][i],
        ),
{
    let formats = ImageFormat::get_formats();
    let mut r: Vec<CompressOptionsContext> = Vec::new();
    let mut i: usize = 0;
    while i < formats.len()
        invariant
            i <= formats.len(),
            formats@ == seq![ImageFormat::Jpeg, ImageFormat::Png, ImageFormat::WebP],
            r@.len() == i,
            forall|j: int| 0 <= j < i ==> (#[trigger] r@[j]).extension@
                == representative_ext(formats@[j]),
            forall|j: int| 0 <= j < i ==> (#[trigger] r@[j]).min == quality_min(
                formats@[j],
            ) && (#[trigger] r@[j]).max == quality_max(formats@[j]) && r@[j].default
                == quality_default(formats@[j]) && r@[j].step == quality_step(formats@[j]),
        decreases formats.len() - i,
    {
        let f = formats[i];
        r.push(f.get_compress_options_context());
        i = i + 1;
    }
    r
}

} // verus!
