use gearbox::{PlaceError, ShelfPacker, UVec2};

#[test]
fn place_fits_within_initial_page_without_growing() {
    let mut packer = ShelfPacker::new(1024, 1024);
    let (offset, grew) = packer.place(64, 32, 8192).unwrap();
    assert_eq!(offset, UVec2::new(0, 0));
    assert!(grew.is_none());
}

#[test]
fn place_starts_a_new_shelf_when_the_current_row_is_full() {
    let mut packer = ShelfPacker::new(100, 100);
    let (first, _) = packer.place(80, 20, 1000).unwrap();
    let (second, _) = packer.place(80, 20, 1000).unwrap();
    assert_eq!(first, UVec2::new(0, 0));
    assert_eq!(second, UVec2::new(0, 20));
}

#[test]
fn place_grows_the_page_when_a_texture_does_not_fit() {
    let mut packer = ShelfPacker::new(64, 64);
    let (offset, grew) = packer.place(100, 100, 8192).unwrap();
    assert_eq!(offset, UVec2::new(0, 0));
    assert_eq!(grew, Some(UVec2::new(128, 128)));
}

#[test]
fn place_errors_when_a_texture_exceeds_the_max_page_dimension() {
    let mut packer = ShelfPacker::new(64, 64);
    assert!(packer.place(9000, 64, 8192).is_err());
}

#[test]
fn place_errors_once_the_page_is_full_at_the_max_dimension() {
    // max_dim == current size, so no headroom to grow into for a rect that doesn't fit
    let mut packer = ShelfPacker::new(64, 64);
    packer.place(64, 64, 64).unwrap();
    assert!(packer.place(1, 1, 64).is_err());
}

#[test]
fn placements_never_move_across_growth() {
    let mut packer = ShelfPacker::new(64, 64);
    let (first, _) = packer.place(32, 32, 8192).unwrap();
    // forces the page to grow past its current bounds
    let (_second, grew) = packer.place(64, 64, 8192).unwrap();
    assert!(grew.is_some());
    // the first placement's offset is still meaningful pixel-space coordinates in the
    // grown page -- growth never repacks/moves earlier placements
    assert_eq!(first, UVec2::new(0, 0));
}

#[test]
fn place_reports_which_error() {
    let mut packer = ShelfPacker::new(64, 64);
    assert_eq!(
        packer.place(9000, 64, 8192),
        Err(PlaceError::ExceedsMaxDimension { width: 9000, height: 64, max_dim: 8192 })
    );
    assert_eq!(packer.width(), 64);
    packer.place(64, 64, 64).unwrap();
    assert_eq!(
        packer.place(1, 1, 64),
        Err(PlaceError::PageFull { width: 1, height: 1, max_dim: 64 })
    );
}

#[test]
fn place_continues_the_shelf_to_the_right() {
    let mut packer = ShelfPacker::new(100, 100);
    assert_eq!(packer.place(30, 10, 1000).unwrap(), (UVec2::new(0, 0), None));
    assert_eq!(packer.place(30, 25, 1000).unwrap(), (UVec2::new(30, 0), None));
    // the next shelf starts below the tallest rect of the previous one
    assert_eq!(packer.place(50, 5, 1000).unwrap(), (UVec2::new(0, 25), None));
}

#[test]
fn place_grows_until_the_rect_fits_and_caps_at_max_dim() {
    let mut packer = ShelfPacker::new(16, 16);
    assert_eq!(packer.place(100, 10, 1000).unwrap(), (UVec2::new(0, 0), Some(UVec2::new(128, 128))));
    assert_eq!((packer.width(), packer.height()), (128, 128));
    let mut capped = ShelfPacker::new(16, 16);
    assert_eq!(capped.place(100, 10, 100).unwrap(), (UVec2::new(0, 0), Some(UVec2::new(100, 100))));
}

#[test]
fn place_clamps_a_page_larger_than_max_dim() {
    let mut packer = ShelfPacker::new(1024, 1024);
    assert_eq!(packer.place(10, 10, 512).unwrap(), (UVec2::new(0, 0), None));
    assert_eq!((packer.width(), packer.height()), (512, 512));
}

#[test]
fn a_full_page_stays_grown_after_an_error() {
    let mut packer = ShelfPacker::new(32, 32);
    packer.place(32, 32, 64).unwrap();
    // does not fit even in a 64x64 page: the page grows to the cap, then gives up
    assert!(packer.place(64, 64, 64).is_err());
    assert_eq!((packer.width(), packer.height()), (64, 64));
}

#[test]
fn placed_rects_never_overlap() {
    let mut packer = ShelfPacker::new(64, 64);
    let sizes = [(10u32, 7u32), (30, 20), (50, 3), (5, 40), (64, 64), (17, 9), (200, 11), (3, 3), (90, 90)];
    let mut placed: Vec<(u32, u32, u32, u32)> = Vec::new();
    for (w, h) in sizes {
        let (offset, _) = packer.place(w, h, 4096).unwrap();
        assert!(offset.x + w <= packer.width() && offset.y + h <= packer.height());
        for &(x, y, pw, ph) in &placed {
            let disjoint = x + pw <= offset.x || offset.x + w <= x || y + ph <= offset.y || offset.y + h <= y;
            assert!(disjoint);
        }
        placed.push((offset.x, offset.y, w, h));
    }
}

#[test]
fn page_grows_but_stays_within_max_dim_and_holds_every_rect() {
    let max_dim = 2048;
    let mut p = ShelfPacker::new(256, 256);
    let mut placed: Vec<(UVec2, UVec2)> = Vec::new();
    let (mut w0, mut h0) = (p.width(), p.height());
    for (w, h) in [(200, 30), (300, 40), (900, 500), (1200, 100), (2000, 1000), (100, 100), (3000, 5)] {
        if let Ok((offset, _)) = p.place(w, h, max_dim) {
            placed.push((offset, UVec2::new(w, h)));
        }
        assert!(p.width() >= w0 && p.height() >= h0);
        assert!(p.width() <= max_dim && p.height() <= max_dim);
        w0 = p.width();
        h0 = p.height();
        for (o, s) in &placed {
            assert!(o.x + s.x <= p.width() && o.y + s.y <= p.height());
        }
    }
    assert!(placed.len() >= 4);
}
