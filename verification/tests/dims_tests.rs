use compactor::dims::Bound;
use compactor::dims::Dimensions;
use compactor::dims::Strategy;

fn dims(width: u32, height: u32) -> Dimensions {
    Dimensions { width, height }
}

#[test]
fn wholly_absent_bound_is_identity() {
    let s = Strategy::Bound(Bound(None, None));
    assert_eq!(s.apply(dims(4000, 3000)), dims(4000, 3000));
    assert_eq!(s.apply(dims(1, 1)), dims(1, 1));
}

#[test]
fn source_within_bound_is_unchanged() {
    let s = Strategy::Bound(Bound(Some(1000), Some(1000)));
    assert_eq!(s.apply(dims(800, 600)), dims(800, 600));
    let l = Strategy::LongestEdge(1600);
    assert_eq!(l.apply(dims(800, 600)), dims(800, 600));
    assert_eq!(l.apply(dims(1600, 1600)), dims(1600, 1600));
}

#[test]
fn zero_bound_never_upscales_or_shrinks() {
    let s = Strategy::Bound(Bound(Some(0), Some(0)));
    assert_eq!(s.apply(dims(800, 600)), dims(800, 600));
    let l = Strategy::LongestEdge(0);
    assert_eq!(l.apply(dims(800, 600)), dims(800, 600));
}

#[test]
fn longest_edge_caps_width_and_scales_height() {
    let l = Strategy::LongestEdge(1600);
    assert_eq!(l.apply(dims(4000, 3000)), dims(1600, 1200));
}

#[test]
fn longest_edge_caps_height_and_scales_width() {
    let l = Strategy::LongestEdge(1600);
    assert_eq!(l.apply(dims(3000, 4000)), dims(1200, 1600));
}

#[test]
fn longest_edge_rounds_down_but_never_to_zero() {
    assert_eq!(Strategy::LongestEdge(10).apply(dims(100, 50)), dims(10, 5));
    assert_eq!(Strategy::LongestEdge(10).apply(dims(100, 55)), dims(10, 5));
    assert_eq!(Strategy::LongestEdge(100).apply(dims(4000000, 7)), dims(100, 1));
}

#[test]
fn independent_bound_clamps_each_axis() {
    let s = Strategy::Bound(Bound(Some(1600), Some(1600)));
    assert_eq!(s.apply(dims(4000, 3000)), dims(1600, 1600));
    let w_only = Strategy::Bound(Bound(Some(1600), None));
    assert_eq!(w_only.apply(dims(4000, 3000)), dims(1600, 3000));
}

#[test]
fn strategies_never_enlarge() {
    let cases = [
        Strategy::Bound(Bound(Some(5000), Some(5000))),
        Strategy::LongestEdge(5000),
    ];
    for s in cases {
        let r = s.apply(dims(400, 300));
        assert!(r.width <= 400 && r.height <= 300);
    }
}
