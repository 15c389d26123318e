//! Job records of a compression run, and the verified planning half of a
//! compression request: which formats are involved, which extension the
//! output carries, where the output file goes, and which quality value the
//! codec is handed.
//!
//! The codec invocation itself (decoding pixels and writing the output
//! file) is outside this crate; a caller performs it with the values of a
//! [`CompressPlan`] and reports the outcome back as a [`Result`] record.

use vstd::prelude::*;

use crate::format_meta::{
    can_compress_spec, detected_format, format_of_extension, quality_default, ImageFormat,
};
use crate::paths;
use crate::paths::{extension_of, with_extension};

verus! {

/// The lifecycle states of a job.
#[derive(Debug, Clone, Copy, PartialEq, Eq, Structural)]
pub enum Status {
    Initialized,
    Pending,
    Success,
    Failed,
    Unsupported,
}

/// What a finished compression produced: the written file, its size in
/// bytes, the elapsed time in milliseconds, and the extension it carries.
#[derive(Debug)]
pub struct Result {
    pub size: u64,
    pub path: String,
    pub elapsed: u64,
    pub extension: String,
}

/// The mathematical value of a `Result` record.
pub ghost struct OutputModel {
    pub size: u64,
    pub path: Seq<char>,
    pub elapsed: u64,
    pub extension: Seq<char>,
}

impl View for Result {
    type V = OutputModel;

    open spec fn view(&self) -> OutputModel {
        OutputModel {
            size: self.size,
            path: self.path@,
            elapsed: self.elapsed,
            extension: self.extension@,
        }
    }
}

impl Clone for Result {
    fn clone(&self) -> (r: Self)
        ensures
            r == *self,
    {
        Result {
            size: self.size,
            path: self.path.clone(),
            elapsed: self.elapsed,
            extension: self.extension.clone(),
        }
    }
}

/// A compression request: the target extension and, optionally, a quality
/// value in tenths of a quality unit.
#[derive(Debug)]
pub struct CompressOptions {
    pub quality: Option<u32>,
    pub extension: String,
}

/// The mathematical value of a `CompressOptions` record.
pub ghost struct OptionsModel {
    pub quality: Option<u32>,
    pub extension: Seq<char>,
}

impl View for CompressOptions {
    type V = OptionsModel;

    open spec fn view(&self) -> OptionsModel {
        OptionsModel { quality: self.quality, extension: self.extension@ }
    }
}

impl Clone for CompressOptions {
    fn clone(&self) -> (r: Self)
        ensures
            r == *self,
    {
        CompressOptions {
            quality: self.quality,
            extension: self.extension.clone(),
        }
    }
}

/// Why a compression request is rejected or a run fails.
#[derive(Debug, Clone, Copy, PartialEq, Eq, Structural)]
pub enum CompressError {
    /// The requested target format cannot be produced from the detected
    /// input format.
    UnsupportedConversion(ImageFormat, ImageFormat),
    /// The input path or the requested target names no catalog format.
    FormatDetectionFailed,
    /// The input file could not be read or the output not written.
    FilesystemError,
    /// The codec itself failed on the file.
    CodecError,
}

/// Everything the codec needs for one run, computed and checked up front.
#[derive(Debug)]
pub struct CompressPlan {
    pub input_format: ImageFormat,
    pub output_format: ImageFormat,
    /// The extension the output file carries: the input path's own
    /// spelling when the target format equals the input format (the file
    /// is recompressed in place), the requested extension otherwise.
    pub extension: String,
    pub output_path: String,
    /// Quality in tenths of a quality unit, defaulted per format when the
    /// request names none.
    pub quality: u32,
}

impl Clone for CompressPlan {
    fn clone(&self) -> (r: Self)
        ensures
            r == *self,
    {
        CompressPlan {
            input_format: self.input_format,
            output_format: self.output_format,
            extension: self.extension.clone(),
            output_path: self.output_path.clone(),
            quality: self.quality,
        }
    }
}

/// The extension the output of a run carries: the path's own extension
/// when the detected and the requested format agree, the requested
/// extension otherwise.
pub open spec fn chosen_extension(path: Seq<char>, requested: Seq<char>) -> Seq<char> {
    if detected_format(path) == format_of_extension(requested) {
        extension_of(path).unwrap()
    } else {
        requested
    }
}

/// Checks a compression request and computes the plan for its run.
///
/// A plan is returned exactly when both the input path and the requested
/// extension name a catalog format and the conversion between the two is
/// supported; the error says which of the checks failed.
pub fn compress_plan(file_path: &str, options: CompressOptions) -> (r: core::result::Result<
    CompressPlan,
    CompressError,
>)
    ensures
        match r {
            Ok(p) => {
                &&& detected_format(file_path@) == Some(p.input_format)
                &&& format_of_extension(options.extension@) == Some(p.output_format)
                &&& can_compress_spec(p.input_format, p.output_format)
                &&& p.extension@ == chosen_extension(file_path@, options.extension@)
                &&& p.output_path@ == with_extension(file_path@, p.extension@)
                &&& p.quality == (match options.quality {
                    Some(q) => q,
                    None => quality_default(p.output_format),
                })
            },
            Err(e) => match e {
                CompressError::FormatDetectionFailed => detected_format(file_path@) is None
                    || format_of_extension(options.extension@) is None,
                CompressError::UnsupportedConversion(f, t) => {
                    &&& detected_format(file_path@) == Some(f)
                    &&& format_of_extension(options.extension@) == Some(t)
                    &&& !can_compress_spec(f, t)
                },
                _ => false,
            },
        },
        r is Err <==> detected_format(file_path@) is None || format_of_extension(
            options.extension@,
        ) is None || !can_compress_spec(
            detected_format(file_path@).unwrap(),
            format_of_extension(options.extension@).unwrap(),
        ),
{
    let input_format = match ImageFormat::from_path(file_path) {
        Ok(f) => f,
        Err(_) => {
            return Err(CompressError::FormatDetectionFailed);
        },
    };
    let output_format = match ImageFormat::from_extension(options.extension.as_str()) {
        Some(f) => f,
        None => {
            return Err(CompressError::FormatDetectionFailed);
        },
    };
    if !input_format.can_compress(&output_format) {
        return Err(CompressError::UnsupportedConversion(input_format, output_format));
    }
    let extension: String = if input_format == output_format {
        match paths::extension_str(file_path) {
            Some(e) => String::from_str(e),
            None => {
                // A detected input format implies the path has an extension.
                proof {
                    assert(false);
                }
                String::new()
            },
        }
    } else {
        options.extension.clone()
    };
    proof {
        paths::lemma_last_index_of(paths::file_name_of(file_path@), '.');
    }
    let output_path = paths::set_file_to_same_dir(file_path, extension.as_str());
    let quality = match options.quality {
        Some(q) => q,
        None => output_format.get_compress_options_context().default,
    };
    Ok(CompressPlan { input_format, output_format, extension, output_path, quality })
}

} // verus!
