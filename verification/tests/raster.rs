use softraster::geometry::{GluedTriangle, HorizontalSegment, Point, Triangle};
use softraster::render::{ColorFunc, FnFiller, Rasterizer, RGB};

fn pt(x: i32, y: i32) -> Point {
    Point { x, y }
}

/// Gives every pixel one colour and keeps the pixels in the order asked.
struct Recorder {
    asked: Vec<Point>,
    color: RGB,
}

impl Recorder {
    fn new(color: RGB) -> Recorder {
        Recorder { asked: Vec::new(), color }
    }
}

impl ColorFunc for Recorder {
    type State = ();

    fn should_draw(&self, _point: Point) -> bool {
        true
    }

    fn color_at(&mut self, point: Point) -> Option<RGB> {
        self.asked.push(point);
        Some(self.color)
    }
}

/// Colours the pixels of even x and skips the others.
struct EvenColumns;

impl ColorFunc for EvenColumns {
    type State = ();

    fn should_draw(&self, point: Point) -> bool {
        point.x % 2 == 0
    }

    fn color_at(&mut self, point: Point) -> Option<RGB> {
        if point.x % 2 == 0 {
            Some(RGB::new(point.x as u8, point.y as u8, 9))
        } else {
            None
        }
    }
}

fn row_of(y: i32, from: i32, to: i32) -> Vec<Point> {
    (from..=to).map(|x| pt(x, y)).collect()
}

fn painted(data: &[u8], width: usize, height: usize) -> Vec<Point> {
    let mut pixels = Vec::new();
    for y in 0..height {
        for x in 0..width {
            let at = (width * y + x) * 4;
            if data[at] != 0 || data[at + 1] != 0 || data[at + 2] != 0 {
                pixels.push(pt(x as i32, y as i32));
            }
        }
    }
    pixels
}

#[test]
fn color_keeps_its_parts() {
    let color = RGB::new(1, 2, 3);
    assert_eq!((color.r, color.g, color.b), (1, 2, 3));
    assert_eq!(color, RGB { b: 3, g: 2, r: 1 });
}

#[test]
fn set_writes_blue_green_red_into_the_pixel() {
    let mut data = vec![0u8; 4 * 3 * 2];
    let mut rasterizer = Rasterizer::new(&mut data, 3, 2);
    rasterizer.set(1, 1, RGB::new(10, 20, 30));
    rasterizer.set(0, 0, RGB::new(1, 2, 3));
    let mut expected = vec![0u8; 4 * 3 * 2];
    expected[0] = 3;
    expected[1] = 2;
    expected[2] = 1;
    expected[16] = 30;
    expected[17] = 20;
    expected[18] = 10;
    assert_eq!(data, expected);
}

#[test]
fn set_out_of_bounds_changes_nothing() {
    let mut data = vec![7u8; 4 * 3 * 2];
    let mut rasterizer = Rasterizer::new(&mut data, 3, 2);
    rasterizer.set(3, 0, RGB::new(10, 20, 30));
    rasterizer.set(0, 2, RGB::new(10, 20, 30));
    rasterizer.set(u32::MAX, u32::MAX, RGB::new(10, 20, 30));
    assert_eq!(data, vec![7u8; 4 * 3 * 2]);
}

#[test]
fn index_counts_four_bytes_for_each_pixel_row_after_row() {
    let mut data = vec![0u8; 4 * 5 * 4];
    let rasterizer = Rasterizer::new(&mut data, 5, 4);
    assert_eq!(rasterizer.index_at(0, 0, 0), 0);
    assert_eq!(rasterizer.index_at(1, 0, 2), 6);
    assert_eq!(rasterizer.index_at(0, 1, 0), 20);
    assert_eq!(rasterizer.index_at(4, 3, 3), 79);
}

#[test]
fn glued_triangle_is_filled_row_by_row_between_its_edges() {
    let mut data = vec![0u8; 4 * 8 * 8];
    let mut rasterizer = Rasterizer::new(&mut data, 8, 8);
    let segment = HorizontalSegment::from_points(pt(0, 0), pt(4, 0));
    let glued = GluedTriangle::new(segment, pt(2, 4));
    let mut recorder = Recorder::new(RGB::new(1, 2, 3));
    rasterizer.fill_glued_triangle(glued, &mut recorder);
    // left edge: x = y / 2; right edge: x = (16 - 2 y) / 4; both rounded toward zero
    let mut expected = Vec::new();
    expected.extend(row_of(0, 0, 4));
    expected.extend(row_of(1, 0, 3));
    expected.extend(row_of(2, 1, 3));
    expected.extend(row_of(3, 1, 2));
    expected.extend(row_of(4, 2, 2));
    assert_eq!(recorder.asked, expected);
    assert_eq!(painted(&data, 8, 8), expected);
    assert_eq!(&data[0..4], &[3, 2, 1, 0]);
}

#[test]
fn glued_triangle_with_its_apex_above_is_filled_from_the_apex_down() {
    let mut data = vec![0u8; 4 * 8 * 8];
    let mut rasterizer = Rasterizer::new(&mut data, 8, 8);
    let segment = HorizontalSegment::from_points(pt(6, 3), pt(2, 3));
    let glued = GluedTriangle::new(segment, pt(4, 1));
    let mut recorder = Recorder::new(RGB::new(1, 2, 3));
    rasterizer.fill_glued_triangle(glued, &mut recorder);
    let mut expected = Vec::new();
    expected.extend(row_of(1, 4, 4));
    expected.extend(row_of(2, 3, 5));
    expected.extend(row_of(3, 2, 6));
    assert_eq!(recorder.asked, expected);
}

#[test]
fn glued_triangle_is_cut_at_the_borders_of_the_raster() {
    let mut data = vec![0u8; 4 * 4 * 3];
    let mut rasterizer = Rasterizer::new(&mut data, 4, 3);
    let segment = HorizontalSegment::from_points(pt(-2, -1), pt(6, -1));
    let glued = GluedTriangle::new(segment, pt(2, 7));
    let mut recorder = Recorder::new(RGB::new(255, 255, 255));
    rasterizer.fill_glued_triangle(glued, &mut recorder);
    // left edge: x = (4 y - 12) / 8, right edge: x = (44 - 4 y) / 8
    let mut expected = Vec::new();
    expected.extend(row_of(0, 0, 3));
    expected.extend(row_of(1, 0, 3));
    expected.extend(row_of(2, 0, 3));
    assert_eq!(recorder.asked, expected);
    assert_eq!(data, vec![255, 255, 255, 0].repeat(12));
}

#[test]
fn glued_triangle_outside_the_raster_fills_nothing() {
    let mut data = vec![0u8; 4 * 4 * 3];
    let mut rasterizer = Rasterizer::new(&mut data, 4, 3);
    let mut recorder = Recorder::new(RGB::new(255, 255, 255));
    let below = GluedTriangle::new(HorizontalSegment::from_points(pt(0, 5), pt(3, 5)), pt(1, 9));
    rasterizer.fill_glued_triangle(below, &mut recorder);
    let above = GluedTriangle::new(HorizontalSegment::from_points(pt(0, -5), pt(3, -5)), pt(1, -9));
    rasterizer.fill_glued_triangle(above, &mut recorder);
    let right = GluedTriangle::new(HorizontalSegment::from_points(pt(4, 0), pt(9, 0)), pt(5, 2));
    rasterizer.fill_glued_triangle(right, &mut recorder);
    let left = GluedTriangle::new(HorizontalSegment::from_points(pt(-9, 0), pt(-1, 0)), pt(-5, 2));
    rasterizer.fill_glued_triangle(left, &mut recorder);
    assert_eq!(recorder.asked, Vec::new());
    assert_eq!(data, vec![0u8; 4 * 4 * 3]);
}

#[test]
fn empty_raster_is_never_filled() {
    let mut data: Vec<u8> = Vec::new();
    let mut rasterizer = Rasterizer::new(&mut data, 0, 0);
    let mut recorder = Recorder::new(RGB::new(255, 255, 255));
    rasterizer.fill_triangle(Triangle::new(pt(0, 0), pt(10, 0), pt(5, 10)), &mut recorder);
    rasterizer.set(0, 0, RGB::new(1, 1, 1));
    assert_eq!(recorder.asked, Vec::new());
}

#[test]
fn skipped_pixels_keep_their_bytes() {
    let mut data = vec![0u8; 4 * 8 * 8];
    let mut rasterizer = Rasterizer::new(&mut data, 8, 8);
    let segment = HorizontalSegment::from_points(pt(0, 0), pt(4, 0));
    let glued = GluedTriangle::new(segment, pt(2, 4));
    rasterizer.fill_glued_triangle(glued, &mut EvenColumns);
    let expected = vec![pt(0, 0), pt(2, 0), pt(4, 0), pt(0, 1), pt(2, 1), pt(2, 2), pt(2, 3), pt(2, 4)];
    assert_eq!(painted(&data, 8, 8), expected);
    let at = (8 * 3 + 2) * 4;
    assert_eq!(&data[at..at + 4], &[9, 3, 2, 0]);
}

#[test]
fn triangle_is_filled_in_two_halves_that_share_the_cut() {
    let mut data = vec![0u8; 4 * 8 * 8];
    let mut rasterizer = Rasterizer::new(&mut data, 8, 8);
    let triangle = Triangle::new(pt(0, 0), pt(6, 3), pt(0, 6));
    let mut recorder = Recorder::new(RGB::new(1, 2, 3));
    rasterizer.fill_triangle(triangle, &mut recorder);
    // the cut at height 3 runs from (0, 3) to (6, 3); the upper edge is x = 2 y,
    // the lower one x = 12 - 2 y
    let mut expected = Vec::new();
    expected.extend(row_of(0, 0, 0));
    expected.extend(row_of(1, 0, 2));
    expected.extend(row_of(2, 0, 4));
    expected.extend(row_of(3, 0, 6));
    expected.extend(row_of(3, 0, 6));
    expected.extend(row_of(4, 0, 4));
    expected.extend(row_of(5, 0, 2));
    expected.extend(row_of(6, 0, 0));
    assert_eq!(recorder.asked, expected);
}

#[test]
fn scanline_symmetry() {
    let mut first_data = vec![0u8; 4 * 16 * 16];
    let mut first = Recorder::new(RGB::new(1, 2, 3));
    Rasterizer::new(&mut first_data, 16, 16)
        .fill_triangle(Triangle::new(pt(0, 0), pt(10, 0), pt(5, 10)), &mut first);
    let mut second_data = vec![0u8; 4 * 16 * 16];
    let mut second = Recorder::new(RGB::new(1, 2, 3));
    Rasterizer::new(&mut second_data, 16, 16)
        .fill_triangle(Triangle::new(pt(5, 10), pt(0, 0), pt(10, 0)), &mut second);
    assert_eq!(first.asked, second.asked);
    assert_eq!(first_data, second_data);
    // row y runs from y / 2 to (100 - 5 y) / 10
    let mut expected = Vec::new();
    for y in 0..=10 {
        expected.extend(row_of(y, y / 2, (100 - 5 * y) / 10));
    }
    assert_eq!(expected.len(), 66);
    assert_eq!(first.asked, expected);
    assert_eq!(painted(&first_data, 16, 16), expected);
}

#[test]
fn every_order_of_the_vertices_fills_the_same_pixels() {
    let corners = [pt(2, 1), pt(13, 4), pt(6, 12)];
    let orders = [[0, 1, 2], [0, 2, 1], [1, 0, 2], [1, 2, 0], [2, 0, 1], [2, 1, 0]];
    let mut fills = Vec::new();
    for order in orders {
        let mut data = vec![0u8; 4 * 16 * 16];
        let mut recorder = Recorder::new(RGB::new(1, 2, 3));
        let triangle = Triangle::new(corners[order[0]], corners[order[1]], corners[order[2]]);
        Rasterizer::new(&mut data, 16, 16).fill_triangle(triangle, &mut recorder);
        fills.push(recorder.asked);
    }
    assert!(!fills[0].is_empty());
    for fill in &fills {
        assert_eq!(fill, &fills[0]);
    }
}

#[test]
fn function_of_the_pixel_serves_as_a_filler() {
    let mut data = vec![0u8; 4 * 4 * 2];
    let mut rasterizer = Rasterizer::new(&mut data, 4, 2);
    let mut filler = FnFiller::new(|point: Point| {
        if point.x == 1 {
            None
        } else {
            Some(RGB::new(10 + point.x as u8, 20 + point.y as u8, 30))
        }
    });
    assert!(filler.should_draw(pt(0, 0)));
    assert!(!filler.should_draw(pt(1, 0)));
    assert_eq!(filler.color_at(pt(2, 1)), Some(RGB::new(12, 21, 30)));
    let segment = HorizontalSegment::from_points(pt(0, 0), pt(3, 0));
    rasterizer.fill_glued_triangle(GluedTriangle::new(segment, pt(0, 1)), &mut filler);
    // row 0 runs from 0 to 3, row 1 holds the apex only
    let mut expected = vec![0u8; 4 * 4 * 2];
    expected[0..3].copy_from_slice(&[30, 20, 10]);
    expected[8..11].copy_from_slice(&[30, 20, 12]);
    expected[12..15].copy_from_slice(&[30, 20, 13]);
    expected[16..19].copy_from_slice(&[30, 21, 10]);
    assert_eq!(data, expected);
}

#[test]
fn triangle_as_large_as_the_plane_is_filled_where_the_raster_is() {
    let mut data = vec![0u8; 4 * 4 * 4];
    let mut rasterizer = Rasterizer::new(&mut data, 4, 4);
    let triangle = Triangle::new(pt(i32::MIN, i32::MIN), pt(i32::MAX, i32::MIN), pt(0, i32::MAX));
    let mut recorder = Recorder::new(RGB::new(9, 9, 9));
    rasterizer.fill_triangle(triangle, &mut recorder);
    let mut expected = Vec::new();
    for y in 0..4 {
        expected.extend(row_of(y, 0, 3));
    }
    assert_eq!(recorder.asked, expected);
    let sliver = Triangle::new(pt(i32::MIN, i32::MAX), pt(i32::MAX, i32::MIN), pt(i32::MAX, i32::MAX));
    let mut recorder = Recorder::new(RGB::new(9, 9, 9));
    rasterizer.fill_triangle(sliver, &mut recorder);
    // the long edge falls through the origin from the upper right to the lower left
    assert_eq!(recorder.asked, expected);
}
