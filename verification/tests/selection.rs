use crunchy_cli_core::media::StreamVariant;
use crunchy_cli_core::selector::{select_stream, ResolutionTarget};

fn variant(width: u64, height: u64) -> StreamVariant {
    StreamVariant {
        width,
        height,
        fps_hundredths: 2397,
        source: format!("https://example.invalid/{}x{}", width, height),
    }
}

fn ladder() -> Vec<StreamVariant> {
    vec![variant(1920, 1080), variant(1280, 720), variant(640, 360)]
}

#[test]
fn best_picks_widest() {
    let r = select_stream(&ladder(), &ResolutionTarget::Best).unwrap();
    assert_eq!(r.width, 1920);
    assert_eq!(r.height, 1080);
}

#[test]
fn worst_picks_narrowest() {
    let r = select_stream(&ladder(), &ResolutionTarget::Worst).unwrap();
    assert_eq!(r.width, 640);
    assert_eq!(r.height, 360);
}

#[test]
fn exact_height_picks_matching_variant() {
    let r = select_stream(
        &ladder(),
        &ResolutionTarget::Exact { width: 1280, height: 720 },
    )
    .unwrap();
    assert_eq!(r.width, 1280);
    assert_eq!(r.height, 720);
}

#[test]
fn exact_absent_height_selects_nothing() {
    let r = select_stream(
        &ladder(),
        &ResolutionTarget::Exact { width: 854, height: 480 },
    );
    assert!(r.is_none());
}

#[test]
fn unsorted_manifest_still_selects_by_width() {
    let vs = vec![variant(640, 360), variant(1920, 1080), variant(1280, 720)];
    assert_eq!(select_stream(&vs, &ResolutionTarget::Best).unwrap().width, 1920);
    assert_eq!(select_stream(&vs, &ResolutionTarget::Worst).unwrap().width, 640);
}

#[test]
fn width_tie_for_best_keeps_manifest_order() {
    let mut a = variant(1280, 720);
    a.source = "first".to_string();
    let mut b = variant(1280, 720);
    b.source = "second".to_string();
    let r = select_stream(&vec![a, b], &ResolutionTarget::Best).unwrap();
    assert_eq!(r.source, "first");
}

#[test]
fn equal_height_tie_keeps_manifest_order() {
    let mut a = variant(1280, 720);
    a.source = "first".to_string();
    let mut b = variant(1280, 720);
    b.source = "second".to_string();
    let r = select_stream(
        &vec![a, b],
        &ResolutionTarget::Exact { width: 1280, height: 720 },
    )
    .unwrap();
    assert_eq!(r.source, "first");
}

#[test]
fn empty_manifest_selects_nothing() {
    let vs: Vec<StreamVariant> = vec![];
    assert!(select_stream(&vs, &ResolutionTarget::Best).is_none());
    assert!(select_stream(&vs, &ResolutionTarget::Worst).is_none());
}
