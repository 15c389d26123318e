//! The conversion counterpart of the compresser: the same verified
//! planning half, but without the convertibility check — a conversion
//! request is planned for any pair of recognised formats, and an
//! impossible pair surfaces later as a failed run.

use vstd::prelude::*;

use crate::compresser::chosen_extension;
use crate::format_meta::{detected_format, format_of_extension, quality_default, ImageFormat};
use crate::paths;
use crate::paths::with_extension;

verus! {

/// The lifecycle states of a conversion job.
#[derive(Debug, Clone, Copy, PartialEq, Eq, Structural)]
pub enum ConvertStatus {
    Initialized,
    Pending,
    Success,
    Failed,
    Unsupported,
}

/// What a finished conversion produced.
#[derive(Debug)]
pub struct CovertResult {
    pub size: u64,
    pub path: String,
    pub elapsed: u64,
    pub extension: String,
}

impl Clone for CovertResult {
    fn clone(&self) -> (r: Self)
        ensures
            r == *self,
    {
        CovertResult {
            size: self.size,
            path: self.path.clone(),
            elapsed: self.elapsed,
            extension: self.extension.clone(),
        }
    }
}

/// A conversion request: the target extension and, optionally, a quality
/// value in tenths of a quality unit.
#[derive(Debug)]
pub struct CompressOptions {
    pub quality: Option<u32>,
    pub extension: String,
}

impl Clone for CompressOptions {
    fn clone(&self) -> (r: Self)
        ensures
            r == *self,
    {
        CompressOptions {
            quality: self.quality,
            extension: self.extension.clone(),
        }
    }
}

/// Why a conversion request is rejected.
#[derive(Debug)]
pub enum ConvertError {
    /// A conversion between the named extensions cannot be performed.
    Unsupported(String, String),
    /// The input path or the requested target names no catalog format.
    FormatDetectionFailed,
}

/// Everything the codec needs for one conversion, computed up front.
#[derive(Debug)]
pub struct CovertPlan {
    pub input_format: ImageFormat,
    pub output_format: ImageFormat,
    /// The extension the output file carries: the input path's own
    /// spelling when the target format equals the input format, the
    /// requested extension otherwise.
    pub extension: String,
    pub output_path: String,
    /// Quality in tenths of a quality unit, defaulted per format when the
    /// request names none.
    pub quality: u32,
}

impl Clone for CovertPlan {
    fn clone(&self) -> (r: Self)
        ensures
            r == *self,
    {
        CovertPlan {
            input_format: self.input_format,
            output_format: self.output_format,
            extension: self.extension.clone(),
            output_path: self.output_path.clone(),
            quality: self.quality,
        }
    }
}

/// Computes the plan for one conversion request.
///
/// A plan is returned exactly when both the input path and the requested
/// extension name a catalog format.
pub fn covert_plan(file_path: &str, options: CompressOptions) -> (r: core::result::Result<
    CovertPlan,
    ConvertError,
>)
    ensures
        match r {
            Ok(p) => {
                &&& detected_format(file_path@) == Some(p.input_format)
                &&& format_of_extension(options.extension@) == Some(p.output_format)
                &&& p.extension@ == chosen_extension(file_path@, options.extension@)
                &&& p.output_path@ == with_extension(file_path@, p.extension@)
                &&& p.quality == (match options.quality {
                    Some(q) => q,
                    None => quality_default(p.output_format),
                })
            },
            Err(e) => match e {
                ConvertError::FormatDetectionFailed => detected_format(file_path@) is None
                    || format_of_extension(options.extension@) is None,
                ConvertError::Unsupported(_, _) => false,
            },
        },
        r is Err <==> detected_format(file_path@) is None || format_of_extension(
            options.extension@,
        ) is None,
{
    let input_format = match ImageFormat::from_path(file_path) {
        Ok(f) => f,
        Err(_) => {
            return Err(ConvertError::FormatDetectionFailed);
        },
    };
    let output_format = match ImageFormat::from_extension(options.extension.as_str()) {
        Some(f) => f,
        None => {
            return Err(ConvertError::FormatDetectionFailed);
        },
    };
    let extension: String = if input_format == output_format {
        match paths::extension_str(file_path) {
            Some(e) => String::from_str(e),
            None => {
                // A detected input format implies the path has an extension.
                proof {
                    assert(false);
                }
                String::new()
            },
        }
    } else {
        options.extension.clone()
    };
    proof {
        paths::lemma_last_index_of(paths::file_name_of(file_path@), '.');
    }
    let output_path = paths::set_file_to_same_dir(file_path, extension.as_str());
    let quality = match options.quality {
        Some(q) => q,
        None => output_format.get_compress_options_context().default,
    };
    Ok(CovertPlan { input_format, output_format, extension, output_path, quality })
}

} // verus!
