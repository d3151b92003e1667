use vstd::prelude::*;
use crate::text::{chars_of, contains, has_substring};
use crate::unicode::{lowercase_of, to_lowercase};

verus! {

/// Which hardware encoder families the transcoding tool offers.
#[derive(Clone, Copy, Debug, PartialEq, Eq, Structural)]
pub struct GpuCapabilities {
    /// NVIDIA.
    pub has_nvenc: bool,
    /// Intel Quick Sync.
    pub has_qsv: bool,
    /// The generic Linux interface.
    pub has_vaapi: bool,
    /// macOS.
    pub has_videotoolbox: bool,
    /// AMD.
    pub has_amf: bool,
}

/// The capabilities that an encoder listing shows: a family is present when
/// its name fragment occurs in the listing, in any letter case.
pub open spec fn listed_capabilities(listing: Seq<char>) -> GpuCapabilities {
    let lower = lowercase_of(listing);
    GpuCapabilities {
        has_nvenc: has_substring(lower, "nvenc"@),
        has_qsv: has_substring(lower, "qsv"@),
        has_vaapi: has_substring(lower, "vaapi"@),
        has_videotoolbox: has_substring(lower, "videotoolbox"@),
        has_amf: has_substring(lower, "amf"@),
    }
}

/// The capabilities when nothing is known: no hardware encoder at all.
pub open spec fn no_capabilities() -> GpuCapabilities {
    GpuCapabilities {
        has_nvenc: false,
        has_qsv: false,
        has_vaapi: false,
        has_videotoolbox: false,
        has_amf: false,
    }
}

/// Reads the hardware encoder families out of the tool's encoder listing.
/// `None` stands for a tool that could not be reached.
pub fn check_gpu_availability(listing: Option<&str>) -> (caps: GpuCapabilities)
    ensures
        caps == match listing {
            Some(text) => listed_capabilities(text@),
            None => no_capabilities(),
        },
{
    match listing {
        Some(text) => {
            let lower = to_lowercase(text);
            let chars = chars_of(lower.as_str());
            GpuCapabilities {
                has_nvenc: contains(&chars, &chars_of("nvenc")),
                has_qsv: contains(&chars, &chars_of("qsv")),
                has_vaapi: contains(&chars, &chars_of("vaapi")),
                has_videotoolbox: contains(&chars, &chars_of("videotoolbox")),
                has_amf: contains(&chars, &chars_of("amf")),
            }
        },
        None => GpuCapabilities {
            has_nvenc: false,
            has_qsv: false,
            has_vaapi: false,
            has_videotoolbox: false,
            has_amf: false,
        },
    }
}

} // verus!
