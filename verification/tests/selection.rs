use periscope::geometry::{axis_gap, find_center_of_frame, AxisDistance, Point, Rect};
use periscope::selector::{pop_nearest_face, select};

fn centre() -> Point {
    Point::new(320, 240)
}

#[test]
fn nearest_of_two_is_the_one_by_the_centre() {
    let faces = vec![Rect::new(300, 200, 50, 50), Rect::new(10, 10, 40, 40)];
    assert_eq!(faces[0].center(), Point::new(325, 225));
    assert_eq!(faces[1].center(), Point::new(30, 30));
    assert_eq!(faces[0].distance(&centre()), AxisDistance { dx: 5, dy: 15 });
    assert_eq!(faces[1].distance(&centre()), AxisDistance { dx: 290, dy: 210 });
    let sel = select(&faces, &centre()).unwrap();
    assert_eq!(sel.nearest, Rect::new(300, 200, 50, 50));
    assert_eq!(sel.rest, vec![Rect::new(10, 10, 40, 40)]);
}

#[test]
fn rectangle_on_the_left_edge_is_dropped() {
    let faces = vec![Rect::new(0, 50, 40, 40), Rect::new(100, 100, 30, 30)];
    let sel = select(&faces, &centre()).unwrap();
    assert_eq!(sel.nearest, Rect::new(100, 100, 30, 30));
    assert_eq!(sel.rest, Vec::<Rect>::new());
}

#[test]
fn single_face_on_the_centre_is_nearest_with_empty_rest() {
    let face = Rect::new(300, 220, 40, 40);
    assert_eq!(face.center(), centre());
    assert!(face.distance(&centre()).is_zero());
    let sel = select(&vec![face], &centre()).unwrap();
    assert_eq!(sel.nearest, face);
    assert!(sel.rest.is_empty());
}

#[test]
fn no_detections_give_no_selection() {
    assert!(select(&Vec::new(), &centre()).is_none());
    let mut rest = vec![Rect::new(1, 1, 1, 1)];
    assert_eq!(pop_nearest_face(&Vec::new(), &mut rest, &centre()), None);
    assert_eq!(rest, vec![Rect::new(1, 1, 1, 1)]);
}

#[test]
fn only_invalid_detections_give_no_selection() {
    let faces = vec![Rect::new(0, 0, 10, 10), Rect::new(5, 0, 10, 10), Rect::new(-3, 7, 10, 10), Rect::new(7, -3, 10, 10)];
    assert!(select(&faces, &centre()).is_none());
}

#[test]
fn rest_counts_valid_detections_less_one() {
    let faces = vec![
        Rect::new(10, 10, 20, 20),
        Rect::new(0, 10, 20, 20),
        Rect::new(200, 200, 20, 20),
        Rect::new(10, 0, 20, 20),
        Rect::new(400, 400, 20, 20),
        Rect::new(310, 230, 20, 20),
    ];
    let valid = faces.iter().filter(|r| r.is_valid_detection()).count();
    assert_eq!(valid, 4);
    let sel = select(&faces, &centre()).unwrap();
    assert_eq!(sel.rest.len(), valid - 1);
    assert_eq!(sel.nearest, Rect::new(310, 230, 20, 20));
}

#[test]
fn edge_rectangles_never_appear() {
    let faces = vec![
        Rect::new(0, 230, 640, 20),
        Rect::new(50, 50, 20, 20),
        Rect::new(310, 0, 20, 480),
        Rect::new(-1, -1, 642, 482),
        Rect::new(60, 60, 20, 20),
    ];
    let sel = select(&faces, &centre()).unwrap();
    assert!(sel.nearest.x > 0 && sel.nearest.y > 0);
    for r in &sel.rest {
        assert!(r.x > 0 && r.y > 0);
    }
    assert_eq!(sel.nearest, Rect::new(60, 60, 20, 20));
    assert_eq!(sel.rest, vec![Rect::new(50, 50, 20, 20)]);
}

#[test]
fn equally_distant_faces_stay_in_detector_order() {
    // All four centres are 100 away horizontally and 50 vertically.
    let a = Rect::new(210, 180, 20, 20);
    let b = Rect::new(410, 180, 20, 20);
    let c = Rect::new(210, 280, 20, 20);
    let d = Rect::new(410, 280, 20, 20);
    for r in [a, b, c, d] {
        assert_eq!(r.distance(&centre()), AxisDistance { dx: 100, dy: 50 });
    }
    let sel = select(&vec![a, b, c, d], &centre()).unwrap();
    assert_eq!(sel.nearest, a);
    assert_eq!(sel.rest, vec![b, c, d]);
    let sel = select(&vec![c, a, d, b], &centre()).unwrap();
    assert_eq!(sel.nearest, c);
    assert_eq!(sel.rest, vec![a, d, b]);
}

#[test]
fn demoted_nearest_returns_to_its_detector_position() {
    let a = Rect::new(300, 230, 20, 20); // dx 10
    let b = Rect::new(290, 230, 20, 20); // dx 20
    let c = Rect::new(305, 230, 20, 20); // dx 5
    let sel = select(&vec![a, b, c], &centre()).unwrap();
    assert_eq!(sel.nearest, c);
    assert_eq!(sel.rest, vec![a, b]);
}

#[test]
fn rest_is_the_valid_faces_in_detector_order_without_the_nearest() {
    let faces = vec![Rect::new(310, 220, 40, 40), Rect::new(320, 220, 40, 40), Rect::new(305, 220, 40, 40)];
    let mut rest = Vec::new();
    let nearest = pop_nearest_face(&faces, &mut rest, &centre());
    assert_eq!(nearest, Some(Rect::new(305, 220, 40, 40)));
    assert_eq!(rest, vec![Rect::new(310, 220, 40, 40), Rect::new(320, 220, 40, 40)]);
}

#[test]
fn several_demotions_keep_detector_order() {
    let far = Rect::new(100, 230, 20, 20); // dx 210
    let edge = Rect::new(0, 230, 20, 20);
    let mid = Rect::new(200, 230, 20, 20); // dx 110
    let farther = Rect::new(50, 230, 20, 20); // dx 260
    let near = Rect::new(300, 230, 20, 20); // dx 10
    let same = Rect::new(320, 230, 20, 20); // dx 10
    let on = Rect::new(310, 230, 20, 20); // dx 0
    let sel = select(&vec![far, edge, mid, farther, near, same, on, far], &centre()).unwrap();
    assert_eq!(sel.nearest, on);
    assert_eq!(sel.rest, vec![far, mid, farther, near, same, far]);
    let sel = select(&vec![far, edge, mid, farther, near, same], &centre()).unwrap();
    assert_eq!(sel.nearest, near);
    assert_eq!(sel.rest, vec![far, mid, farther, same]);
}

#[test]
fn horizontal_distance_decides_before_vertical() {
    let far_down = Rect::new(309, 20, 20, 20); // (1, 210)
    let far_right = Rect::new(312, 230, 20, 20); // (2, 0)
    assert_eq!(far_down.distance(&centre()), AxisDistance { dx: 1, dy: 210 });
    assert_eq!(far_right.distance(&centre()), AxisDistance { dx: 2, dy: 0 });
    let sel = select(&vec![far_right, far_down], &centre()).unwrap();
    assert_eq!(sel.nearest, far_down);
    assert_eq!(sel.rest, vec![far_right]);
}

#[test]
fn vertical_distance_breaks_horizontal_ties() {
    let low = Rect::new(300, 260, 20, 20); // (10, 30)
    let high = Rect::new(300, 240, 20, 20); // (10, 10)
    let sel = select(&vec![low, high], &centre()).unwrap();
    assert_eq!(sel.nearest, high);
    assert_eq!(sel.rest, vec![low]);
}

#[test]
fn face_on_the_centre_is_not_displaced_by_a_later_one() {
    let on_centre = Rect::new(300, 220, 40, 40);
    let other = Rect::new(100, 100, 40, 40);
    let sel = select(&vec![on_centre, other], &centre()).unwrap();
    assert_eq!(sel.nearest, on_centre);
    assert_eq!(sel.rest, vec![other]);
    let sel = select(&vec![other, on_centre], &centre()).unwrap();
    assert_eq!(sel.nearest, on_centre);
    assert_eq!(sel.rest, vec![other]);
}

#[test]
fn pop_nearest_face_appends_to_what_rest_holds() {
    let kept = Rect::new(9, 9, 9, 9);
    let mut rest = vec![kept];
    let faces = vec![Rect::new(10, 10, 40, 40), Rect::new(0, 1, 2, 3), Rect::new(300, 200, 50, 50)];
    let nearest = pop_nearest_face(&faces, &mut rest, &centre());
    assert_eq!(nearest, Some(Rect::new(300, 200, 50, 50)));
    assert_eq!(rest, vec![kept, Rect::new(10, 10, 40, 40)]);
    let a = Rect::new(300, 230, 20, 20); // dx 10
    let b = Rect::new(290, 230, 20, 20); // dx 20
    let c = Rect::new(305, 230, 20, 20); // dx 5
    let mut rest = vec![kept, kept];
    assert_eq!(pop_nearest_face(&vec![a, b, c], &mut rest, &centre()), Some(c));
    assert_eq!(rest, vec![kept, kept, a, b]);
}

#[test]
fn centre_is_halved_toward_zero() {
    assert_eq!(Rect::new(1, 1, 0, 1).center(), Point::new(1, 1));
    assert_eq!(Rect::new(-3, -3, 0, 1).center(), Point::new(-3, -2));
    assert_eq!(Rect::new(-3, 2, 1, -9).center(), Point::new(-2, -2));
    assert_eq!(Rect::new(2, 2, -5, -4).center(), Point::new(0, 0));
}

#[test]
fn centre_of_extreme_rectangles_does_not_wrap() {
    let r = Rect::new(i32::MAX, i32::MAX, i32::MAX, i32::MAX);
    assert_eq!(r.center(), Point::new(3221225470, 3221225470));
    assert_eq!(r.tl(), Point::new(2147483647, 2147483647));
    assert_eq!(r.br(), Point::new(4294967294, 4294967294));
    let r = Rect::new(i32::MIN, i32::MIN, i32::MIN, i32::MIN);
    assert_eq!(r.center(), Point::new(-3221225472, -3221225472));
}

#[test]
fn axis_gap_is_the_absolute_difference() {
    assert_eq!(axis_gap(3, 10), 7);
    assert_eq!(axis_gap(10, 3), 7);
    assert_eq!(axis_gap(-4, 4), 8);
    assert_eq!(axis_gap(i64::MIN, i64::MAX), u64::MAX);
    assert_eq!(axis_gap(i64::MAX, i64::MIN), u64::MAX);
    assert_eq!(axis_gap(5, 5), 0);
}

#[test]
fn distances_order_lexicographically() {
    let d = |dx, dy| AxisDistance { dx, dy };
    assert!(d(1, 9).is_less_than(&d(2, 0)));
    assert!(d(2, 0).is_less_than(&d(2, 1)));
    assert!(!d(2, 1).is_less_than(&d(2, 1)));
    assert!(!d(3, 0).is_less_than(&d(2, 9)));
    assert!(d(0, 0).is_zero());
    assert!(!d(0, 1).is_zero());
    assert!(!d(1, 0).is_zero());
}

#[test]
fn frame_centre_is_half_of_each_side() {
    assert_eq!(find_center_of_frame(640, 480), Point::new(320, 240));
    assert_eq!(find_center_of_frame(641, 481), Point::new(320, 240));
    assert_eq!(find_center_of_frame(0, 1), Point::new(0, 0));
    assert_eq!(find_center_of_frame(-3, -4), Point::new(-1, -2));
}

#[test]
fn faces_that_only_come_nearer_leave_rest_in_detector_order() {
    let a = Rect::new(290, 230, 20, 20); // dx 20
    let b = Rect::new(300, 230, 20, 20); // dx 10
    let c = Rect::new(305, 230, 20, 20); // dx 5
    let d = Rect::new(280, 230, 20, 20); // dx 30
    let sel = select(&vec![a, b, c, d], &centre()).unwrap();
    assert_eq!(sel.nearest, c);
    assert_eq!(sel.rest, vec![a, b, d]);
}
