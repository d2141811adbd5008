use embedded_graphics::prelude::Point;
use embedded_graphics::primitives::{Line, PointsIter};
use epd2in7b::{Display2in7b, DisplayRotation, Pixel, TriColor, DEFAULT_BACKGROUND_COLOR, HEIGHT, WIDTH};

fn draw_line(display: &mut Display2in7b, from: Point, to: Point, color: TriColor) {
    let pixels: Vec<Pixel> = Line::new(from, to)
        .points()
        .map(|p| Pixel { x: p.x, y: p.y, color })
        .collect();
    display.draw_iter(&pixels);
}

// test buffer length
#[test]
fn graphics_size() {
    let display = Display2in7b::default();
    assert_eq!(display.buffer().len(), 11616);
}

// test default background color on all bytes
#[test]
fn graphics_default() {
    let display = Display2in7b::default();
    for &byte in display.buffer() {
        assert_eq!(byte, DEFAULT_BACKGROUND_COLOR.get_byte_value());
    }
}

#[test]
fn graphics_rotation_0() {
    let mut display = Display2in7b::default();
    draw_line(&mut display, Point::new(0, 0), Point::new(7, 0), TriColor::Black);

    let buffer = display.buffer();

    assert_eq!(buffer[0], TriColor::Black.get_byte_value());

    for &byte in buffer.iter().skip(1) {
        assert_eq!(byte, DEFAULT_BACKGROUND_COLOR.get_byte_value());
    }
}

#[test]
fn graphics_rotation_90() {
    let mut display = Display2in7b::default();
    display.set_rotation(DisplayRotation::Rotate90);
    draw_line(
        &mut display,
        Point::new(0, WIDTH as i32 - 8),
        Point::new(0, WIDTH as i32 - 1),
        TriColor::Black,
    );

    let buffer = display.buffer();

    assert_eq!(buffer[0], TriColor::Black.get_byte_value());

    for &byte in buffer.iter().skip(1) {
        assert_eq!(byte, DEFAULT_BACKGROUND_COLOR.get_byte_value());
    }
}

#[test]
fn graphics_rotation_180() {
    let mut display = Display2in7b::default();
    display.set_rotation(DisplayRotation::Rotate180);
    draw_line(
        &mut display,
        Point::new(WIDTH as i32 - 8, HEIGHT as i32 - 1),
        Point::new(WIDTH as i32 - 1, HEIGHT as i32 - 1),
        TriColor::Black,
    );

    let buffer = display.buffer();

    println!("{:?}", buffer);

    assert_eq!(buffer[0], TriColor::Black.get_byte_value());

    for &byte in buffer.iter().skip(1) {
        assert_eq!(byte, DEFAULT_BACKGROUND_COLOR.get_byte_value());
    }
}

#[test]
fn graphics_rotation_270() {
    let mut display = Display2in7b::default();
    display.set_rotation(DisplayRotation::Rotate270);
    draw_line(
        &mut display,
        Point::new(HEIGHT as i32 - 1, 0),
        Point::new(HEIGHT as i32 - 1, 7),
        TriColor::Black,
    );

    let buffer = display.buffer();

    println!("{:?}", buffer);

    assert_eq!(buffer[0], TriColor::Black.get_byte_value());

    for &byte in buffer.iter().skip(1) {
        assert_eq!(byte, DEFAULT_BACKGROUND_COLOR.get_byte_value());
    }
}
