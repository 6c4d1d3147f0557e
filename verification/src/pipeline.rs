//! The batch pipeline: decode, plan the resize, map the quality tier,
//! re-encode. The codec itself is an external capability of the
//! `image` crate, consumed through trusted wrappers; the pipeline
//! decides dimensions and encoder parameters, sequences the calls, and
//! isolates each work item's failure from the rest of the batch.
use vstd::prelude::*;

use crate::dims::Dimensions;
use crate::dims::Strategy;
use crate::quality::EncoderParams;
use crate::quality::Format;
use crate::quality::PngCompression;
use crate::quality::PngFilter;
use crate::quality::QualityTier;
use crate::quality::encoder_params;
use crate::quality::lemma_jpeg_quality_in_range;
use crate::quality::params_for;
use crate::quality::tier_of;
use crate::discovery::WorkItem;

verus! {

#[verifier::external_type_specification]
#[verifier::external_body]
pub struct ExDynamicImage(image::DynamicImage);

/// A decoded raster image: its pixel data, opaque to the contracts,
/// together with its dimensions as plain values.
pub struct Image {
    pub width: u32,
    pub height: u32,
    data: image::DynamicImage,
}

/// The dimensions of the image that a byte string decodes to, or
/// `None` when the bytes are not a decodable image. Decoding is a
/// function of the bytes alone.
pub uninterp spec fn decoded_dims(bytes: Seq<u8>) -> Option<(u32, u32)>;

/// Whether the bytes decode to a real image: one with at least one
/// pixel on each axis.
pub open spec fn decode_accepted(bytes: Seq<u8>) -> bool {
    match decoded_dims(bytes) {
        Some(d) => d.0 >= 1 && d.1 >= 1,
        None => false,
    }
}

/// The source dimensions of a decodable byte string.
pub open spec fn source_dims(bytes: Seq<u8>) -> Dimensions {
    match decoded_dims(bytes) {
        Some(d) => Dimensions { width: d.0, height: d.1 },
        None => Dimensions { width: 0, height: 0 },
    }
}

/// Relies on image::load_from_memory: decoding either yields an image,
/// whose dimensions GenericImageView::dimensions reports, or fails;
/// the outcome and the dimensions are functions of the bytes alone.
#[verifier::external_body]
fn decode_image(bytes: &Vec<u8>) -> (r: Option<Image>)
    ensures
        match r {
            Some(img) => decoded_dims(bytes@) == Some((img.width, img.height)),
            None => decoded_dims(bytes@) is None,
        },
{
    match image::load_from_memory(bytes.as_slice()) {
        Ok(data) => {
            let (width, height) = image::GenericImageView::dimensions(&data);
            Some(Image { width, height, data })
        },
        Err(_) => None,
    }
}

/// Relies on DynamicImage::resize_exact: the result is the same image
/// resampled (with the Catmull-Rom filter) to exactly the requested
/// dimensions.
#[verifier::external_body]
fn resize_image(img: &Image, width: u32, height: u32) -> (r: Image)
    requires
        width >= 1,
        height >= 1,
    ensures
        r.width == width,
        r.height == height,
{
    let data = img.data.resize_exact(width, height, image::imageops::FilterType::CatmullRom);
    Image { width, height, data }
}

/// Relies on JpegEncoder::new_with_quality (which accepts a quality
/// factor of 1 to 100) and DynamicImage::write_with_encoder, which
/// writes the JPEG encoding into the buffer or fails.
#[verifier::external_body]
fn encode_jpeg(img: &Image, quality: u8) -> (r: Option<Vec<u8>>)
    requires
        1 <= quality <= 100,
{
    let mut buf: Vec<u8> = Vec::new();
    let enc = image::codecs::jpeg::JpegEncoder::new_with_quality(&mut buf, quality);
    match img.data.write_with_encoder(enc) {
        Ok(()) => Some(buf),
        Err(_) => None,
    }
}

/// Relies on PngEncoder::new_with_quality and
/// DynamicImage::write_with_encoder, which writes the PNG encoding
/// into the buffer or fails.
#[verifier::external_body]
fn encode_png(img: &Image, compression: PngCompression, filter: PngFilter) -> (r: Option<
    Vec<u8>,
>) {
    let c = match compression {
        PngCompression::Fast => image::codecs::png::CompressionType::Fast,
        PngCompression::Balanced => image::codecs::png::CompressionType::Default,
        PngCompression::Best => image::codecs::png::CompressionType::Best,
    };
    let f = match filter {
        PngFilter::Adaptive => image::codecs::png::FilterType::Adaptive,
    };
    let mut buf: Vec<u8> = Vec::new();
    let enc = image::codecs::png::PngEncoder::new_with_quality(&mut buf, c, f);
    match img.data.write_with_encoder(enc) {
        Ok(()) => Some(buf),
        Err(_) => None,
    }
}

/// A processed work item: the re-encoded bytes, the dimensions before
/// and after, and the encoder parameters that were applied.
pub struct ProcessOutcome {
    pub data: Vec<u8>,
    pub before: Dimensions,
    pub after: Dimensions,
    pub params: EncoderParams,
}

/// A per-item failure. Each is isolated to its work item; none aborts
/// the batch.
#[derive(Clone, Copy, Debug, PartialEq, Eq, Structural)]
pub enum ItemError {
    /// The source bytes are not a decodable image (unreadable, corrupt,
    /// or degenerate).
    Decode,
    /// The quality specification names no recognized tier.
    UnsupportedQuality,
    /// The codec refused to write the re-encoded image.
    Encode,
}

/// What a processing result must say about its input: success reports
/// the decoded dimensions, the planned dimensions and the mapped
/// encoder parameters; each failure names the stage that refused and
/// comes only from inputs that stage refuses.
pub open spec fn outcome_matches(
    bytes: Seq<u8>,
    strategy: Strategy,
    quality: Seq<char>,
    format: Format,
    r: Result<ProcessOutcome, ItemError>,
) -> bool {
    match r {
        Ok(o) => {
            &&& decode_accepted(bytes)
            &&& tier_of(quality) is Some
            &&& o.before == source_dims(bytes)
            &&& o.after == strategy.plan(source_dims(bytes))
            &&& o.params == params_for(tier_of(quality).unwrap(), format)
        },
        Err(ItemError::Decode) => !decode_accepted(bytes),
        Err(ItemError::UnsupportedQuality) => decode_accepted(bytes) && tier_of(quality) is None,
        Err(ItemError::Encode) => decode_accepted(bytes) && tier_of(quality) is Some,
    }
}

/// Turn the codec's answer into the item's outcome: encoded bytes
/// complete the outcome, a refusal is an encode failure.
pub fn assemble_outcome(
    encoded: Option<Vec<u8>>,
    before: Dimensions,
    after: Dimensions,
    params: EncoderParams,
) -> (r: Result<ProcessOutcome, ItemError>)
    ensures
        match encoded {
            Some(data) => r == Ok::<ProcessOutcome, ItemError>(
                ProcessOutcome { data, before, after, params },
            ),
            None => r == Err::<ProcessOutcome, ItemError>(ItemError::Encode),
        },
{
    match encoded {
        Some(data) => Ok(ProcessOutcome { data, before, after, params }),
        None => Err(ItemError::Encode),
    }
}

/// Process one work item held in memory: decode the source bytes,
/// plan the target dimensions under the strategy, resize when the plan
/// differs from the source, and re-encode in the item's format at the
/// requested quality.
pub fn process_image(bytes: &Vec<u8>, strategy: &Strategy, quality: &str, format: Format) -> (r:
    Result<ProcessOutcome, ItemError>)
    ensures
        outcome_matches(bytes@, *strategy, quality@, format, r),
{
    let img = match decode_image(bytes) {
        Some(i) => i,
        None => {
            return Err(ItemError::Decode);
        },
    };
    if img.width < 1 || img.height < 1 {
        return Err(ItemError::Decode);
    }
    let before = Dimensions { width: img.width, height: img.height };
    let tier = match QualityTier::from_str(quality) {
        Ok(t) => t,
        Err(_) => {
            return Err(ItemError::UnsupportedQuality);
        },
    };
    let after = strategy.apply(before);
    let resized = if after.width != before.width || after.height != before.height {
        resize_image(&img, after.width, after.height)
    } else {
        img
    };
    let params = encoder_params(tier, format);
    let encoded = match params {
        EncoderParams::Jpeg { quality: q } => {
            proof {
                lemma_jpeg_quality_in_range(tier);
            }
            encode_jpeg(&resized, q)
        },
        EncoderParams::Png { compression, filter } => encode_png(&resized, compression, filter),
    };
    assemble_outcome(encoded, before, after, params)
}

/// The report for one work item of a batch.
pub struct ItemReport {
    pub name: String,
    pub result: Result<ProcessOutcome, ItemError>,
}

/// Process a whole batch, one report per work item, in work-set order.
/// A failing item yields its report and the batch goes on: the reports
/// are as many as the items, each about its own item's bytes alone.
pub fn run_batch(
    items: &Vec<WorkItem>,
    contents: &Vec<Vec<u8>>,
    strategy: &Strategy,
    quality: &str,
) -> (r: Vec<ItemReport>)
    requires
        items@.len() == contents@.len(),
    ensures
        r@.len() == items@.len(),
        forall|i: int| 0 <= i < r@.len() ==> #[trigger] r@[i].name@ == items@[i].name@,
        forall|i: int|
            0 <= i < r@.len() ==> outcome_matches(
                contents@[i]@,
                *strategy,
                quality@,
                items@[i].format,
                #[trigger] r@[i].result,
            ),
{
    let mut r: Vec<ItemReport> = Vec::new();
    let mut i: usize = 0;
    while i < items.len()
        invariant
            i <= items@.len(),
            items@.len() == contents@.len(),
            r@.len() == i,
            forall|k: int| 0 <= k < i ==> #[trigger] r@[k].name@ == items@[k].name@,
            forall|k: int|
                0 <= k < i ==> outcome_matches(
                    contents@[k]@,
                    *strategy,
                    quality@,
                    items@[k].format,
                    #[trigger] r@[k].result,
                ),
        decreases items@.len() - i,
    {
        let item = &items[i];
        let result = process_image(&contents[i], strategy, quality, item.format);
        let report = ItemReport { name: item.name.clone(), result };
        r.push(report);
        i += 1;
    }
    r
}

} // verus!
