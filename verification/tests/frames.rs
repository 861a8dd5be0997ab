use periscope::frame::{Frame, Pixel};
use periscope::geometry::Rect;

fn px(v: u8) -> Pixel {
    Pixel { b: v, g: v.wrapping_add(1), r: v.wrapping_add(2) }
}

fn numbered(width: usize, height: usize) -> Frame {
    let rows: Vec<Vec<Pixel>> = (0..height)
        .map(|y| (0..width).map(|x| px((y * width + x) as u8)).collect())
        .collect();
    Frame::from_rows(rows).unwrap()
}

fn grid(f: &Frame) -> Vec<Vec<Pixel>> {
    (0..f.height())
        .map(|y| (0..f.width()).map(|x| f.pixel(x, y).unwrap()).collect())
        .collect()
}

#[test]
fn new_frame_is_filled() {
    let f = Frame::new(3, 2, px(7));
    assert_eq!(f.width(), 3);
    assert_eq!(f.height(), 2);
    assert_eq!(grid(&f), vec![vec![px(7); 3]; 2]);
    assert_eq!(f.pixel(3, 0), None);
    assert_eq!(f.pixel(0, 2), None);
}

#[test]
fn ragged_rows_are_refused() {
    assert!(Frame::from_rows(vec![vec![px(0), px(1)], vec![px(2)]]).is_none());
    assert!(Frame::from_rows(vec![vec![], vec![px(2)]]).is_none());
    let empty = Frame::from_rows(Vec::new()).unwrap();
    assert_eq!((empty.width(), empty.height()), (0, 0));
    let f = Frame::from_rows(vec![vec![px(0), px(1)], vec![px(2), px(3)]]).unwrap();
    assert_eq!(f.pixel(1, 0), Some(px(1)));
    assert_eq!(f.pixel(0, 1), Some(px(2)));
}

#[test]
fn mirror_swaps_left_and_right() {
    let mut f = numbered(3, 2);
    f.mirror();
    assert_eq!(grid(&f), vec![vec![px(2), px(1), px(0)], vec![px(5), px(4), px(3)]]);
}

#[test]
fn mirroring_twice_restores_the_frame() {
    for (w, h) in [(0, 0), (1, 1), (4, 3), (5, 2), (7, 7)] {
        let mut f = numbered(w, h);
        let before = grid(&f);
        f.mirror();
        f.mirror();
        assert_eq!(grid(&f), before);
    }
}

#[test]
fn contains_rect_checks_every_side() {
    let f = numbered(4, 3);
    assert!(f.contains_rect(&Rect::new(0, 0, 4, 3)));
    assert!(f.contains_rect(&Rect::new(4, 3, 0, 0)));
    assert!(f.contains_rect(&Rect::new(1, 1, 2, 2)));
    assert!(!f.contains_rect(&Rect::new(1, 1, 4, 1)));
    assert!(!f.contains_rect(&Rect::new(1, 1, 1, 3)));
    assert!(!f.contains_rect(&Rect::new(-1, 0, 2, 2)));
    assert!(!f.contains_rect(&Rect::new(0, -1, 2, 2)));
    assert!(!f.contains_rect(&Rect::new(2, 2, -1, 1)));
    assert!(!f.contains_rect(&Rect::new(2, 2, 1, -1)));
    assert!(!f.contains_rect(&Rect::new(i32::MAX, 0, i32::MAX, 1)));
}

#[test]
fn region_copies_the_covered_pixels() {
    let f = numbered(4, 3);
    let r = f.region(&Rect::new(1, 1, 2, 2)).unwrap();
    assert_eq!(grid(&r), vec![vec![px(5), px(6)], vec![px(9), px(10)]]);
    assert_eq!((r.width(), r.height()), (2, 2));
    assert!(f.region(&Rect::new(3, 1, 2, 2)).is_none());
    let thin = f.region(&Rect::new(2, 1, 2, 0)).unwrap();
    assert_eq!((thin.width(), thin.height()), (2, 0));
}

#[test]
fn replaced_region_leaves_the_outside_untouched() {
    let mut f = numbered(5, 4);
    let before = grid(&f);
    let rect = Rect::new(1, 1, 3, 2);
    let patch = Frame::new(3, 2, px(200));
    assert!(f.replace_region(&rect, &patch));
    let after = grid(&f);
    for y in 0..4usize {
        for x in 0..5usize {
            let inside = (1..4).contains(&x) && (1..3).contains(&y);
            if inside {
                assert_eq!(after[y][x], px(200));
            } else {
                assert_eq!(after[y][x], before[y][x]);
            }
        }
    }
    assert_eq!(grid(&f.region(&rect).unwrap()), grid(&patch));
}

#[test]
fn replaced_region_takes_each_pixel_from_its_place_in_the_patch() {
    let mut f = Frame::new(4, 4, px(0));
    let patch = Frame::from_rows(vec![vec![px(10), px(20)], vec![px(30), px(40)]]).unwrap();
    assert!(f.replace_region(&Rect::new(2, 1, 2, 2), &patch));
    assert_eq!(
        grid(&f),
        vec![
            vec![px(0), px(0), px(0), px(0)],
            vec![px(0), px(0), px(10), px(20)],
            vec![px(0), px(0), px(30), px(40)],
            vec![px(0), px(0), px(0), px(0)],
        ]
    );
}

#[test]
fn replace_region_refuses_what_does_not_fit() {
    let mut f = numbered(4, 3);
    let before = grid(&f);
    assert!(!f.replace_region(&Rect::new(3, 1, 2, 2), &Frame::new(2, 2, px(9))));
    assert!(!f.replace_region(&Rect::new(1, 1, 2, 2), &Frame::new(2, 1, px(9))));
    assert!(!f.replace_region(&Rect::new(1, 1, 2, 2), &Frame::new(1, 2, px(9))));
    assert!(!f.replace_region(&Rect::new(-1, 1, 2, 2), &Frame::new(2, 2, px(9))));
    assert_eq!(grid(&f), before);
    assert!(f.replace_region(&Rect::new(1, 1, 0, 0), &Frame::new(0, 0, px(9))));
    assert_eq!(grid(&f), before);
}
