use marker_overlay::marker::{highlight, Detection, Point, Quad, Rect, OUTLINE_WIDTH};

#[test]
fn highlight_is_the_first_channel_alone() {
    assert_eq!([highlight(0), highlight(1), highlight(2)], [255, 0, 0]);
    assert_eq!(OUTLINE_WIDTH, 2);
}

#[test]
fn rectangle_spans_two_points() {
    let a = Point { x: 9, y: 1 };
    let b = Point { x: 2, y: 8 };
    let expected = Rect { left: 2, top: 1, right: 9, bottom: 8 };
    assert_eq!(Rect::spanning(a, b), expected);
    assert_eq!(Rect::spanning(b, a), expected);
    let far = Rect::spanning(
        Point { x: i32::MAX, y: i32::MIN },
        Point { x: i32::MIN, y: i32::MAX },
    );
    assert_eq!(far, Rect { left: i32::MIN, top: i32::MIN, right: i32::MAX, bottom: i32::MAX });
    let point = Rect::spanning(a, a);
    assert_eq!(point, Rect { left: 9, top: 1, right: 9, bottom: 1 });
}

#[test]
fn quad_is_bounded_by_first_and_third_corner() {
    let quad = Quad {
        corners: [
            Point { x: 9, y: 8 },
            Point { x: 100, y: 100 },
            Point { x: 2, y: 1 },
            Point { x: -100, y: -100 },
        ],
    };
    assert_eq!(quad.bounds(), Rect { left: 2, top: 1, right: 9, bottom: 8 });
    let detection = Detection { quad: Some(quad), payload: None };
    assert_eq!(detection.outline(), Some(Rect { left: 2, top: 1, right: 9, bottom: 8 }));
    let nothing = Detection { quad: None, payload: Some(String::from("text")) };
    assert_eq!(nothing.outline(), None);
}

#[test]
fn outline_is_two_pixels_wide() {
    let rect = Rect { left: 2, top: 1, right: 9, bottom: 8 };
    // Corners.
    assert!(rect.outlines(2, 1));
    assert!(rect.outlines(9, 8));
    // Second ring.
    assert!(rect.outlines(3, 2));
    assert!(rect.outlines(8, 7));
    assert!(rect.outlines(3, 5));
    assert!(rect.outlines(5, 7));
    // Third ring and centre.
    assert!(!rect.outlines(4, 3));
    assert!(!rect.outlines(7, 6));
    assert!(!rect.outlines(5, 5));
    // Outside.
    assert!(!rect.outlines(1, 1));
    assert!(!rect.outlines(2, 0));
    assert!(!rect.outlines(10, 8));
    assert!(!rect.outlines(9, 9));
    assert!(!rect.outlines(usize::MAX, 1));
    assert!(!rect.outlines(2, usize::MAX));
}

#[test]
fn outline_of_a_rectangle_beyond_the_origin() {
    let rect = Rect { left: -3, top: -2, right: 5, bottom: 20 };
    assert!(rect.outlines(5, 0));
    assert!(rect.outlines(4, 10));
    assert!(!rect.outlines(3, 10));
    assert!(!rect.outlines(0, 0));
    assert!(rect.outlines(0, 19));
    assert!(rect.outlines(0, 20));
    assert!(!rect.outlines(0, 21));
    let whole = Rect { left: i32::MIN, top: i32::MIN, right: i32::MAX, bottom: i32::MAX };
    assert!(!whole.outlines(0, 0));
    assert!(whole.outlines(i32::MAX as usize, 0));
    assert!(whole.outlines(0, i32::MAX as usize - 1));
    assert!(!whole.outlines(i32::MAX as usize - 2, 5));
    let inside_out = Rect { left: 5, top: 5, right: 4, bottom: 4 };
    assert!(!inside_out.outlines(4, 4));
    assert!(!inside_out.outlines(5, 5));
}
