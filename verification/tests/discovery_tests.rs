use compactor::discovery::discover;
use compactor::discovery::format_of;
use compactor::discovery::WorkItem;
use compactor::quality::Format;

fn names(list: &[&str]) -> Vec<String> {
    list.iter().map(|s| s.to_string()).collect()
}

#[test]
fn work_set_excludes_non_image_extensions() {
    let items = discover(&names(&["a.jpg", "b.txt", "c.png"]));
    assert_eq!(items.len(), 2);
    assert_eq!(items[0].name, "a.jpg");
    assert_eq!(items[0].format, Format::Jpeg);
    assert_eq!(items[1].name, "c.png");
    assert_eq!(items[1].format, Format::Png);
}

#[test]
fn work_set_keeps_listing_order() {
    let items = discover(&names(&["z.png", "a.jpeg", "m.jpg"]));
    let got: Vec<&str> = items.iter().map(|w| w.name.as_str()).collect();
    assert_eq!(got, vec!["z.png", "a.jpeg", "m.jpg"]);
}

#[test]
fn extension_matching_is_case_sensitive() {
    assert_eq!(format_of("photo.JPG"), None);
    assert_eq!(format_of("photo.Png"), None);
    assert_eq!(format_of("photo.jpg"), Some(Format::Jpeg));
}

#[test]
fn jpeg_spelling_variants_both_match() {
    assert_eq!(format_of("x.jpg"), Some(Format::Jpeg));
    assert_eq!(format_of("x.jpeg"), Some(Format::Jpeg));
    assert_eq!(format_of("x.png"), Some(Format::Png));
}

#[test]
fn names_without_an_embedded_dot_have_no_format() {
    assert_eq!(format_of("noext"), None);
    assert_eq!(format_of(".jpg"), None);
    assert_eq!(format_of(""), None);
    assert_eq!(format_of("trailingdot."), None);
}

#[test]
fn last_dot_decides_the_extension() {
    assert_eq!(format_of("archive.tar.png"), Some(Format::Png));
    assert_eq!(format_of("a.png.txt"), None);
}

#[test]
fn output_path_is_the_same_name_under_the_root() {
    let item = WorkItem { name: "a.jpg".to_string(), format: Format::Jpeg };
    assert_eq!(item.output_path("compacted"), "compacted/a.jpg");
}

#[test]
fn empty_listing_gives_empty_work_set() {
    let items = discover(&names(&[]));
    assert!(items.is_empty());
}
