use softraster::geometry::{Point, Triangle};
use softraster::render::{
    bilinear_untranslate, classify, split_if_necessary, try_split_if_necessary,
    SegmentTranslatability, Viewport,
};
use std::cell::RefCell;

fn pt(x: i32, y: i32) -> Point {
    Point { x, y }
}

fn same(left: &SegmentTranslatability<char>, right: &SegmentTranslatability<char>) -> bool {
    match (left, right) {
        (SegmentTranslatability::Translatable, SegmentTranslatability::Translatable) => true,
        (SegmentTranslatability::NonTranslatable, SegmentTranslatability::NonTranslatable) => true,
        (SegmentTranslatability::SemiTranslatable(p), SegmentTranslatability::SemiTranslatable(q)) => {
            p == q
        }
        _ => false,
    }
}

/// The clipper's answer for vertices 'a', 'b', 'c' of which the given ones
/// are translatable; the crossings of the edges are 'x' (ab), 'y' (bc), 'z' (ac).
fn clip(can_a: bool, can_b: bool, can_c: bool) -> Option<[Option<(char, char, char)>; 2]> {
    try_split_if_necessary(
        'a',
        'b',
        'c',
        classify(can_a, can_b, 'x'),
        classify(can_b, can_c, 'y'),
        classify(can_a, can_c, 'z'),
    )
}

#[test]
fn segment_is_classified_by_its_ends() {
    assert!(same(&classify(true, true, 'x'), &SegmentTranslatability::Translatable));
    assert!(same(&classify(false, false, 'x'), &SegmentTranslatability::NonTranslatable));
    assert!(same(&classify(true, false, 'x'), &SegmentTranslatability::SemiTranslatable('x')));
    assert!(same(&classify(false, true, 'x'), &SegmentTranslatability::SemiTranslatable('x')));
}

#[test]
fn triangle_in_front_is_left_as_it_is() {
    assert_eq!(clip(true, true, true), Some([Some(('a', 'b', 'c')), None]));
}

#[test]
fn triangle_behind_leaves_nothing() {
    assert_eq!(clip(false, false, false), Some([None, None]));
}

#[test]
fn triangle_across_the_boundary_is_cut() {
    assert_eq!(
        clip(false, false, true),
        Some([Some(('a', 'z', 'y')), Some(('a', 'b', 'y'))])
    );
    assert_eq!(
        clip(true, true, false),
        Some([Some(('a', 'z', 'y')), Some(('a', 'b', 'y'))])
    );
    assert_eq!(clip(true, false, false), Some([Some(('a', 'x', 'z')), None]));
    assert_eq!(
        split_if_necessary(
            'a',
            'b',
            'c',
            classify(true, false, 'x'),
            classify(false, false, 'y'),
            classify(true, false, 'z'),
        ),
        [Some(('a', 'x', 'z')), None]
    );
}

#[test]
fn long_edge_in_front_decides_for_the_whole_triangle() {
    assert_eq!(clip(true, false, true), Some([Some(('a', 'b', 'c')), None]));
}

#[test]
fn other_combinations_are_not_defined() {
    assert_eq!(clip(false, true, true), None);
    assert_eq!(clip(false, true, false), None);
}

#[test]
fn viewport_keeps_its_size() {
    let viewport = Viewport::new(800, 600);
    assert_eq!((viewport.width, viewport.height), (800, 600));
    assert_eq!(viewport, Viewport { width: 800, height: 600 });
}

#[test]
fn pixel_of_a_projected_vertex_recovers_the_vertex_itself() {
    let on_screen = Triangle::new(pt(0, 0), pt(10, 0), pt(5, 10));
    let in_space = ((1.5, 2.5, 3.5), (4.25, 5.25, 6.25), (-7.125, 8.0, 9.0));
    let never = |_p: Point, _a: (Point, (f64, f64, f64)), _b: (Point, (f64, f64, f64))| -> (f64, f64, f64) {
        panic!("a vertex needs no interpolation")
    };
    assert_eq!(bilinear_untranslate(on_screen, in_space, pt(0, 0), &never), in_space.0);
    assert_eq!(bilinear_untranslate(on_screen, in_space, pt(10, 0), &never), in_space.1);
    assert_eq!(bilinear_untranslate(on_screen, in_space, pt(5, 10), &never), in_space.2);
}

#[test]
fn pixel_inside_is_recovered_by_way_of_the_pivot() {
    let on_screen = Triangle::new(pt(0, 0), pt(10, 0), pt(10, 10));
    let calls = RefCell::new(Vec::new());
    let linear = |p: Point, a: (Point, i32), b: (Point, i32)| -> i32 {
        calls.borrow_mut().push((p, a, b));
        a.1 + b.1
    };
    // the line from (0, 0) through (4, 2) meets the edge x = 10 in (10, 5)
    let recovered = bilinear_untranslate(on_screen, (1, 20, 300), pt(4, 2), &linear);
    assert_eq!(recovered, 321);
    assert_eq!(
        *calls.borrow(),
        vec![
            (pt(10, 5), (pt(10, 0), 20), (pt(10, 10), 300)),
            (pt(4, 2), (pt(0, 0), 1), (pt(10, 5), 320)),
        ]
    );
}

#[test]
fn pixel_on_the_opposite_edge_is_its_own_pivot() {
    let on_screen = Triangle::new(pt(0, 0), pt(10, 0), pt(10, 10));
    let calls = RefCell::new(Vec::new());
    let linear = |p: Point, a: (Point, i32), b: (Point, i32)| -> i32 {
        calls.borrow_mut().push((p, a, b));
        a.1 + b.1
    };
    let recovered = bilinear_untranslate(on_screen, (1, 20, 300), pt(10, 5), &linear);
    assert_eq!(recovered, 320);
    assert_eq!(*calls.borrow(), vec![(pt(10, 5), (pt(10, 0), 20), (pt(10, 10), 300))]);
}
