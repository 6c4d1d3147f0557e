use compactor::dims::Bound;
use compactor::dims::Dimensions;
use compactor::dims::Strategy;
use compactor::discovery::WorkItem;
use compactor::pipeline::process_image;
use compactor::pipeline::run_batch;
use compactor::pipeline::ItemError;
use compactor::quality::EncoderParams;
use compactor::quality::Format;
use compactor::quality::PngCompression;
use compactor::quality::PngFilter;

fn png_bytes(width: u32, height: u32) -> Vec<u8> {
    let img = image::DynamicImage::ImageRgb8(image::RgbImage::new(width, height));
    let mut buf: Vec<u8> = Vec::new();
    let enc = image::codecs::png::PngEncoder::new(&mut buf);
    img.write_with_encoder(enc).unwrap();
    buf
}

fn jpeg_bytes(width: u32, height: u32) -> Vec<u8> {
    let img = image::DynamicImage::ImageRgb8(image::RgbImage::new(width, height));
    let mut buf: Vec<u8> = Vec::new();
    let enc = image::codecs::jpeg::JpegEncoder::new_with_quality(&mut buf, 80);
    img.write_with_encoder(enc).unwrap();
    buf
}

#[test]
fn processing_reports_before_and_after_dimensions() {
    let bytes = png_bytes(10, 8);
    let s = Strategy::LongestEdge(5);
    let o = process_image(&bytes, &s, "medium", Format::Png).unwrap();
    assert_eq!(o.before, Dimensions { width: 10, height: 8 });
    assert_eq!(o.after, Dimensions { width: 5, height: 4 });
    assert_eq!(
        o.params,
        EncoderParams::Png { compression: PngCompression::Balanced, filter: PngFilter::Adaptive }
    );
    assert!(!o.data.is_empty());
}

#[test]
fn output_bytes_really_have_the_planned_dimensions() {
    let bytes = png_bytes(100, 50);
    let s = Strategy::LongestEdge(10);
    let o = process_image(&bytes, &s, "high", Format::Png).unwrap();
    let reloaded = image::load_from_memory(&o.data).unwrap();
    assert_eq!(image::GenericImageView::dimensions(&reloaded), (10, 5));
}

#[test]
fn image_within_bound_is_reencoded_at_original_size() {
    let bytes = jpeg_bytes(12, 9);
    let s = Strategy::Bound(Bound(Some(100), Some(100)));
    let o = process_image(&bytes, &s, "low", Format::Jpeg).unwrap();
    assert_eq!(o.before, Dimensions { width: 12, height: 9 });
    assert_eq!(o.after, Dimensions { width: 12, height: 9 });
    assert_eq!(o.params, EncoderParams::Jpeg { quality: 50 });
    let reloaded = image::load_from_memory(&o.data).unwrap();
    assert_eq!(image::GenericImageView::dimensions(&reloaded), (12, 9));
}

#[test]
fn undecodable_bytes_fail_at_the_decode_stage() {
    let bytes = b"this is not an image".to_vec();
    let s = Strategy::LongestEdge(100);
    let r = process_image(&bytes, &s, "high", Format::Png);
    assert_eq!(r.err().unwrap(), ItemError::Decode);
}

#[test]
fn unknown_quality_tier_fails_after_decode() {
    let bytes = png_bytes(4, 4);
    let s = Strategy::LongestEdge(100);
    let r = process_image(&bytes, &s, "ultra", Format::Png);
    assert_eq!(r.err().unwrap(), ItemError::UnsupportedQuality);
}

#[test]
fn codec_refusal_fails_at_the_encode_stage() {
    // The JPEG encoder refuses images wider than 65535 pixels.
    let bytes = png_bytes(65_536, 1);
    let s = Strategy::Bound(Bound(None, None));
    let r = process_image(&bytes, &s, "high", Format::Jpeg);
    assert_eq!(r.err().unwrap(), ItemError::Encode);
}

#[test]
fn batch_isolates_a_corrupt_item() {
    let items = vec![
        WorkItem { name: "a.png".to_string(), format: Format::Png },
        WorkItem { name: "b.png".to_string(), format: Format::Png },
        WorkItem { name: "c.png".to_string(), format: Format::Png },
    ];
    let mut corrupt = png_bytes(6, 6);
    corrupt.truncate(10);
    let contents = vec![png_bytes(10, 8), corrupt, png_bytes(20, 10)];
    let s = Strategy::LongestEdge(5);
    let reports = run_batch(&items, &contents, &s, "medium");
    assert_eq!(reports.len(), 3);
    assert_eq!(reports[0].name, "a.png");
    assert_eq!(reports[1].name, "b.png");
    assert_eq!(reports[2].name, "c.png");
    let first = reports[0].result.as_ref().unwrap();
    assert_eq!(first.after, Dimensions { width: 5, height: 4 });
    assert!(!first.data.is_empty());
    assert_eq!(reports[1].result.as_ref().err().unwrap(), &ItemError::Decode);
    let third = reports[2].result.as_ref().unwrap();
    assert_eq!(third.after, Dimensions { width: 5, height: 2 });
    assert!(!third.data.is_empty());
}

#[test]
fn batch_of_nothing_reports_nothing() {
    let items: Vec<WorkItem> = vec![];
    let contents: Vec<Vec<u8>> = vec![];
    let s = Strategy::LongestEdge(5);
    let reports = run_batch(&items, &contents, &s, "medium");
    assert!(reports.is_empty());
}
