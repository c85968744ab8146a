use mirage::object::text::Text;
use mirage::object::{Line, Point, Rect};
use mirage::raster::object::object;
use mirage::raster::{Error, Image, Pixel, PixelType, WHITE};
use mirage::surface::{Object, Primitive, Surface};
use mirage::svg::object::svg;
use mirage::svg::shape;
use mirage::svg::shape::Shape;
use mirage::svg::Svg;

fn rect_coverage(x: usize, y: usize, w: usize, h: usize) -> Vec<(usize, usize)> {
    let mut v = Vec::new();
    v.extend((x..=x + w).map(|i| (i, y)));
    v.extend((x..=x + w).map(|i| (i, y + h)));
    v.extend((y..=y + h).map(|j| (x, j)));
    v.extend((y..=y + h).map(|j| (x + w, j)));
    v
}

#[test]
fn channels_of_each_type() {
    assert_eq!(PixelType::Rgb.channels(), 3);
    assert_eq!(PixelType::Rgba.channels(), 4);
    assert!(PixelType::Rgb.matches(&Pixel::Rgb(1, 2, 3)));
    assert!(!PixelType::Rgb.matches(&Pixel::Rgba(1, 2, 3, 4)));
    assert!(PixelType::Rgba.matches(&Pixel::Rgba(1, 2, 3, 4)));
}

#[test]
fn new_image_is_white() {
    let img = Image::new("pic.png", 3, 2, PixelType::Rgba);
    assert_eq!(img.name, "pic.png");
    assert_eq!((img.width(), img.height()), (3, 2));
    assert_eq!(img.pixel_type(), PixelType::Rgba);
    assert_eq!(img.buffer(), &vec![WHITE; 4 * 3 * 2]);
}

#[test]
fn point_covers_itself() {
    let cs = object(&Primitive::Point(Point::new(4, 6))).unwrap();
    assert_eq!(cs, vec![(4, 6)]);
}

#[test]
fn vertical_line_covers_each_y() {
    let l = Line::from_points(&[Point::new(4, 4), Point::new(4, 8)]);
    let cs = object(&Primitive::Line(l)).unwrap();
    assert_eq!(cs, vec![(4, 4), (4, 5), (4, 6), (4, 7), (4, 8)]);
    let up = Line::from_points(&[Point::new(4, 8), Point::new(4, 4)]);
    assert_eq!(object(&Primitive::Line(up)).unwrap(), vec![(4, 4), (4, 5), (4, 6), (4, 7), (4, 8)]);
}

#[test]
fn horizontal_line_covers_each_x() {
    let l = Line::from_points(&[Point::new(10, 70), Point::new(7, 70)]);
    assert_eq!(object(&Primitive::Line(l)).unwrap(), vec![(7, 70), (8, 70), (9, 70), (10, 70)]);
}

#[test]
fn slanted_line_samples_one_y_per_x() {
    let l = Line::from_points(&[Point::new(15, 20), Point::new(60, 75)]);
    let cs = object(&Primitive::Line(l)).unwrap();
    assert_eq!(cs.len(), 46);
    assert_eq!(cs[0], (15, 20));
    assert_eq!(cs[1], (16, 21));
    assert_eq!(cs[2], (17, 22));
    assert_eq!(cs[45], (60, 75));
    // A steep line leaves gaps: three rows in two columns.
    let steep = Line::from_points(&[Point::new(0, 0), Point::new(1, 3)]);
    assert_eq!(object(&Primitive::Line(steep)).unwrap(), vec![(0, 0), (1, 3)]);
    // Falling to the right: x still runs from low to high.
    let falling = Line::from_points(&[Point::new(0, 4), Point::new(4, 0)]);
    assert_eq!(object(&Primitive::Line(falling)).unwrap(), vec![(0, 4), (1, 3), (2, 2), (3, 1), (4, 0)]);
}

#[test]
fn polyline_joins_its_segments() {
    let l = Line::from_points(&[Point::new(0, 0), Point::new(0, 2), Point::new(2, 2)]);
    assert_eq!(
        object(&Primitive::Line(l)).unwrap(),
        vec![(0, 0), (0, 1), (0, 2), (0, 2), (1, 2), (2, 2)]
    );
}

#[test]
fn rect_covers_its_four_edges_only() {
    let r = Rect::new(Point::new(60, 30), 30, 20);
    let cs = object(&Primitive::Rect(r)).unwrap();
    assert_eq!(cs, rect_coverage(60, 30, 30, 20));
    assert_eq!(cs.len(), 31 + 31 + 21 + 21);
    assert!(!cs.contains(&(75, 40)));
}

#[test]
fn text_has_no_raster_form() {
    let t = Primitive::Text(Text::new(Point::new(0, 0), "a"));
    assert_eq!(object(&t), Err(Error::Unsupported));
}

#[test]
fn pixel_of_wrong_format_changes_nothing() {
    let mut img = Image::new("pic.png", 4, 4, PixelType::Rgb);
    assert_eq!(img.pixel(Pixel::Rgba(1, 2, 3, 4), (0, 0)), Err(Error::Pixel));
    assert_eq!(img.buffer(), &vec![WHITE; 3 * 4 * 4]);
    assert_eq!(
        img.pixels(&[Pixel::Rgb(1, 1, 1), Pixel::Rgba(1, 2, 3, 4)], (0, 0)),
        Err(Error::Pixel)
    );
    assert_eq!(img.buffer(), &vec![WHITE; 3 * 4 * 4]);
}

#[test]
fn pixel_out_of_bounds_changes_nothing() {
    let mut img = Image::new("pic.png", 4, 3, PixelType::Rgb);
    assert_eq!(img.pixel(Pixel::Rgb(0, 0, 0), (4, 0)), Err(Error::Bound));
    assert_eq!(img.pixel(Pixel::Rgb(0, 0, 0), (0, 3)), Err(Error::Bound));
    assert_eq!(img.buffer(), &vec![WHITE; 3 * 4 * 3]);
    // A run that would pass the end of the buffer is refused whole.
    let run = [Pixel::Rgb(0, 0, 0), Pixel::Rgb(0, 0, 0)];
    assert_eq!(img.pixels(&run, (3, 2)), Err(Error::Bound));
    assert_eq!(img.buffer(), &vec![WHITE; 3 * 4 * 3]);
}

#[test]
fn pixel_writes_row_major() {
    let mut img = Image::new("pic.png", 3, 2, PixelType::Rgb);
    assert_eq!(img.pixel(Pixel::Rgb(1, 2, 3), (2, 1)), Ok(()));
    let mut expected = vec![WHITE; 18];
    expected[15..18].copy_from_slice(&[1, 2, 3]);
    assert_eq!(img.buffer(), &expected);
    assert_eq!(img.pixels(&[Pixel::Rgb(7, 7, 7), Pixel::Rgb(8, 8, 8)], (2, 0)), Ok(()));
    expected[6..12].copy_from_slice(&[7, 7, 7, 8, 8, 8]);
    assert_eq!(img.buffer(), &expected);
}

#[test]
fn write_paints_stroke_inside_image() {
    let mut img = Image::new("pic.png", 3, 3, PixelType::Rgba);
    let s = Surface::new(vec![
        Object::Primitive(Primitive::Point(Point::new(1, 1))),
        Object::Primitive(Primitive::Point(Point::new(9, 9))),
    ]);
    // (9, 9) lies outside the image: it is passed over and counted.
    assert_eq!(img.write(&s), Ok(1));
    let mut expected = vec![WHITE; 36];
    expected[16..20].copy_from_slice(&[0, 0, 0, 0]);
    assert_eq!(img.buffer(), &expected);
}

#[test]
fn write_refuses_text_and_negative_geometry() {
    let mut img = Image::new("pic.png", 3, 3, PixelType::Rgb);
    let s = Surface::new(vec![
        Object::Primitive(Primitive::Point(Point::new(1, 1))),
        Object::Primitive(Primitive::Text(Text::new(Point::new(0, 0), "x"))),
    ]);
    assert_eq!(img.write(&s), Err(Error::Unsupported));
    let s = Surface::new(vec![
        Object::Primitive(Primitive::Point(Point::new(1, 1))),
        Object::Primitive(Primitive::Point(Point::new(-1, 1))),
    ]);
    assert_eq!(img.write(&s), Err(Error::Bound));
    assert_eq!(img.buffer(), &vec![WHITE; 27]);
}

#[test]
fn write_counts_coordinates_outside_image() {
    let mut img = Image::new("pic.png", 3, 3, PixelType::Rgb);
    let s = Surface::new(vec![Object::Primitive(Primitive::Line(Line::from_points(&[
        Point::new(1, 0),
        Point::new(1, 5),
    ])))]);
    assert_eq!(img.write(&s), Ok(3));
    let mut expected = vec![WHITE; 27];
    for y in 0..3 {
        let i = 3 * (1 + 3 * y);
        expected[i..i + 3].copy_from_slice(&[0, 0, 0]);
    }
    assert_eq!(img.buffer(), &expected);
}

#[test]
fn image_test() {
    let doc = Svg::new(
        0,
        0,
        vec![
            Shape::Line(shape::Line::new(4, 4, 5, 5)),
            Shape::Line(shape::Line::new(8, 20, 9, 21)),
            Shape::Line(shape::Line::new(20, 20, 20, 80)),
            Shape::Line(shape::Line::new(8, 70, 60, 70)),
            Shape::Line(shape::Line::new(15, 20, 60, 75)),
            Shape::Rect(shape::Rect::new(Some(60), Some(30), None, None, 30, 20)),
        ],
    );
    let surface = svg(&doc);
    let mut image = Image::new("pic.png", 100, 100, PixelType::Rgb);
    assert_eq!(image.write(&surface), Ok(0));
    let at = |x: usize, y: usize| {
        let i = 3 * (x + y * 100);
        image.buffer()[i..i + 3].to_vec()
    };
    assert_eq!(at(4, 4), vec![0, 0, 0]);
    assert_eq!(at(8, 20), vec![0, 0, 0]);
    assert_eq!(at(20, 50), vec![0, 0, 0]);
    assert_eq!(at(30, 70), vec![0, 0, 0]);
    assert_eq!(at(60, 75), vec![0, 0, 0]);
    assert_eq!(at(90, 50), vec![0, 0, 0]);
    assert_eq!(at(75, 40), vec![WHITE, WHITE, WHITE]);
    assert_eq!(at(5, 5), vec![WHITE, WHITE, WHITE]);
}
