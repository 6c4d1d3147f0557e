//! The quality mapper: a closed set of symbolic quality tiers, mapped
//! deterministically to codec-specific encoder parameters per output
//! format. JPEG takes a numeric quality factor; PNG takes a
//! compression-effort level and a filter strategy (lossless, so the
//! tier trades encode time for output size, not fidelity).
use vstd::prelude::*;

use crate::text::str_eq;

verus! {

/// A symbolic quality level from the closed set the tool accepts.
#[derive(Clone, Copy, Debug, PartialEq, Eq, Structural)]
pub enum QualityTier {
    Low,
    Medium,
    High,
}

/// An output format from the closed, extension-derived set.
#[derive(Clone, Copy, Debug, PartialEq, Eq, Structural)]
pub enum Format {
    Jpeg,
    Png,
}

/// How hard the PNG encoder works to shrink the output.
#[derive(Clone, Copy, Debug, PartialEq, Eq, Structural)]
pub enum PngCompression {
    Fast,
    Balanced,
    Best,
}

/// The PNG scanline filter strategy.
#[derive(Clone, Copy, Debug, PartialEq, Eq, Structural)]
pub enum PngFilter {
    Adaptive,
}

/// Format-specific encoder parameters chosen by the quality mapper.
#[derive(Clone, Copy, Debug, PartialEq, Eq, Structural)]
pub enum EncoderParams {
    Jpeg { quality: u8 },
    Png { compression: PngCompression, filter: PngFilter },
}

/// Why a quality specification was rejected.
#[derive(Clone, Copy, Debug, PartialEq, Eq, Structural)]
pub enum QualityError {
    /// The given tier is not in the recognized set.
    UnsupportedQuality,
}

/// The JPEG quality factor for a tier (higher = larger file, higher
/// fidelity; always within the encoder's accepted range of 1 to 100).
pub open spec fn jpeg_quality(t: QualityTier) -> u8 {
    match t {
        QualityTier::Low => 50u8,
        QualityTier::Medium => 75u8,
        QualityTier::High => 90u8,
    }
}

/// The PNG compression effort for a tier.
pub open spec fn png_compression(t: QualityTier) -> PngCompression {
    match t {
        QualityTier::Low => PngCompression::Fast,
        QualityTier::Medium => PngCompression::Balanced,
        QualityTier::High => PngCompression::Best,
    }
}

/// The encoder parameters a tier denotes for a format. Every tier of
/// the closed set maps for every supported format, so the mapping is
/// total; a tier specification outside the set is rejected earlier, by
/// `QualityTier::from_str`.
pub open spec fn params_for(t: QualityTier, f: Format) -> EncoderParams {
    match f {
        Format::Jpeg => EncoderParams::Jpeg { quality: jpeg_quality(t) },
        Format::Png => EncoderParams::Png {
            compression: png_compression(t),
            filter: PngFilter::Adaptive,
        },
    }
}

/// The tier a quality specification string denotes, if any.
pub open spec fn tier_of(s: Seq<char>) -> Option<QualityTier> {
    if s == "low"@ {
        Some(QualityTier::Low)
    } else if s == "medium"@ {
        Some(QualityTier::Medium)
    } else if s == "high"@ {
        Some(QualityTier::High)
    } else {
        None
    }
}

/// Map a tier and a format to the encoder parameters to use.
pub fn encoder_params(t: QualityTier, f: Format) -> (r: EncoderParams)
    ensures
        r == params_for(t, f),
{
    match f {
        Format::Jpeg => {
            let q: u8 = match t {
                QualityTier::Low => 50,
                QualityTier::Medium => 75,
                QualityTier::High => 90,
            };
            EncoderParams::Jpeg { quality: q }
        },
        Format::Png => {
            let c = match t {
                QualityTier::Low => PngCompression::Fast,
                QualityTier::Medium => PngCompression::Balanced,
                QualityTier::High => PngCompression::Best,
            };
            EncoderParams::Png { compression: c, filter: PngFilter::Adaptive }
        },
    }
}

/// The quality mapper is a pure function: the parameters are fully
/// determined by the tier and the format, so any two results obtained
/// for the same pair are identical.
pub proof fn lemma_quality_mapper_pure(
    t: QualityTier,
    f: Format,
    r1: EncoderParams,
    r2: EncoderParams,
)
    requires
        r1 == params_for(t, f),
        r2 == params_for(t, f),
    ensures
        r1 == r2,
{
}

/// The JPEG quality factor always lies in the encoder's accepted
/// range.
pub proof fn lemma_jpeg_quality_in_range(t: QualityTier)
    ensures
        1 <= jpeg_quality(t) <= 100,
{
}

impl QualityTier {
    /// Parse a quality specification string from the closed set
    /// `low` / `medium` / `high`.
    pub fn from_str(s: &str) -> (r: Result<QualityTier, QualityError>)
        ensures
            match r {
                Ok(t) => tier_of(s@) == Some(t),
                Err(e) => tier_of(s@) is None && e == QualityError::UnsupportedQuality,
            },
    {
        if str_eq(s, "low") {
            Ok(QualityTier::Low)
        } else if str_eq(s, "medium") {
            Ok(QualityTier::Medium)
        } else if str_eq(s, "high") {
            Ok(QualityTier::High)
        } else {
            Err(QualityError::UnsupportedQuality)
        }
    }
}

} // verus!
