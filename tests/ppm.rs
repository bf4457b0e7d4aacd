use raytracer::canvas::Canvas;
use raytracer::ppm::{add_to_line_or_body, pop_trailing_space, PpmWrapper, Rgb};

const BLACK: Rgb = Rgb { red: 0, green: 0, blue: 0 };

fn fill_canvas_with_colour(canvas: &mut Canvas<Rgb>, colour: Rgb) {
    for y in 0..canvas.height() {
        for x in 0..canvas.width() {
            canvas.write_pixel(x, y, colour).unwrap();
        }
    }
}

#[test]
fn constructing_the_ppm_header() {
    let canvas = Canvas::new(5, 3, BLACK);
    let ppm_wrapper = PpmWrapper::new(canvas, 255);
    assert_eq!(ppm_wrapper.generate_header(), "P3\n5 3\n255\n");
}

#[test]
fn constructing_the_ppm_pixel_data() {
    let mut canvas = Canvas::new(5, 3, BLACK);
    let c1 = Rgb { red: 255, green: 0, blue: 0 };
    let c2 = Rgb { red: 0, green: 128, blue: 0 };
    let c3 = Rgb { red: 0, green: 0, blue: 255 };
    canvas.write_pixel(0, 0, c1).unwrap();
    canvas.write_pixel(2, 1, c2).unwrap();
    canvas.write_pixel(4, 2, c3).unwrap();
    assert_eq!(
        PpmWrapper::new(canvas, 255).generate_body(),
        "255 0 0 0 0 0 0 0 0 0 0 0 0 0 0\n\
         0 0 0 0 0 0 0 128 0 0 0 0 0 0 0\n\
         0 0 0 0 0 0 0 0 0 0 0 0 0 0 255\n"
    );
}

#[test]
fn splitting_long_lines_in_ppm_pixel_data() {
    let mut canvas = Canvas::new(10, 2, BLACK);
    fill_canvas_with_colour(&mut canvas, Rgb { red: 255, green: 204, blue: 153 });
    assert_eq!(
        PpmWrapper::new(canvas, 255).generate_body(),
        "255 204 153 255 204 153 255 204 153 255 204 153 255 204 153 255 204\n\
         153 255 204 153 255 204 153 255 204 153 255 204 153\n\
         255 204 153 255 204 153 255 204 153 255 204 153 255 204 153 255 204\n\
         153 255 204 153 255 204 153 255 204 153 255 204 153\n"
    );
}

#[test]
fn ppm_files_are_terminated_by_a_newline_character() {
    let canvas = Canvas::new(5, 3, BLACK);
    assert_eq!(
        PpmWrapper::new(canvas, 255)
            .generate_body()
            .chars()
            .last()
            .unwrap(),
        '\n'
    );
}

#[test]
fn ppm_header_and_body() {
    let mut canvas = Canvas::new(10, 2, BLACK);
    fill_canvas_with_colour(&mut canvas, Rgb { red: 255, green: 204, blue: 153 });
    assert_eq!(
        PpmWrapper::new(canvas, 255).to_ppm(),
        "P3\n10 2\n255\n\
         255 204 153 255 204 153 255 204 153 255 204 153 255 204 153 255 204\n\
         153 255 204 153 255 204 153 255 204 153 255 204 153\n\
         255 204 153 255 204 153 255 204 153 255 204 153 255 204 153 255 204\n\
         153 255 204 153 255 204 153 255 204 153 255 204 153\n"
    )
}

#[test]
fn wrapper_reports_canvas_size() {
    let wrapper = PpmWrapper::new(Canvas::new(7, 4, BLACK), 100);
    assert_eq!(wrapper.width(), 7);
    assert_eq!(wrapper.height(), 4);
    assert_eq!(wrapper.generate_header(), "P3\n7 4\n100\n");
}

#[test]
fn empty_canvas_has_header_only() {
    let wrapper = PpmWrapper::new(Canvas::new(0, 0, BLACK), 255);
    assert_eq!(wrapper.generate_body(), "");
    assert_eq!(wrapper.to_ppm(), "P3\n0 0\n255\n");
}

#[test]
fn rows_of_zero_width_are_empty_lines() {
    let wrapper = PpmWrapper::new(Canvas::new(0, 2, BLACK), 255);
    assert_eq!(wrapper.generate_body(), "\n\n");
}

#[test]
fn pop_trailing_space_removes_one_space() {
    let mut line = String::from("1 2  ");
    pop_trailing_space(&mut line);
    assert_eq!(line, "1 2 ");
    pop_trailing_space(&mut line);
    assert_eq!(line, "1 2");
    pop_trailing_space(&mut line);
    assert_eq!(line, "1 2");
}

#[test]
fn pop_trailing_space_on_empty_line() {
    let mut line = String::new();
    pop_trailing_space(&mut line);
    assert_eq!(line, "");
}

#[test]
fn value_that_fits_stays_on_the_line() {
    let mut body = String::from("x\n");
    let mut line = "a".repeat(67);
    add_to_line_or_body(&mut body, &mut line, 255);
    assert_eq!(body, "x\n");
    assert_eq!(line, format!("{}255 ", "a".repeat(67)));
}

#[test]
fn value_past_the_limit_starts_a_new_line() {
    let mut body = String::from("x\n");
    let mut line = format!("{} ", "a".repeat(67));
    add_to_line_or_body(&mut body, &mut line, 255);
    assert_eq!(body, format!("x\n{}\n", "a".repeat(67)));
    assert_eq!(line, "255 ");
}

#[test]
fn value_on_empty_line() {
    let mut body = String::new();
    let mut line = String::new();
    add_to_line_or_body(&mut body, &mut line, 0);
    assert_eq!(body, "");
    assert_eq!(line, "0 ");
}

#[test]
fn line_length_is_counted_in_bytes() {
    // 34 two-byte characters: 68 bytes, so a three-digit value passes the limit.
    let wide = "\u{e9}".repeat(34);
    let mut body = String::new();
    let mut line = wide.clone();
    add_to_line_or_body(&mut body, &mut line, 255);
    assert_eq!(body, format!("{}\n", wide));
    assert_eq!(line, "255 ");
}

#[test]
fn no_body_line_exceeds_the_limit() {
    let mut canvas = Canvas::new(40, 3, BLACK);
    fill_canvas_with_colour(
        &mut canvas,
        Rgb { red: usize::MAX, green: 7, blue: 1234567 },
    );
    canvas.write_pixel(5, 1, Rgb { red: 0, green: 0, blue: 0 }).unwrap();
    let body = PpmWrapper::new(canvas, usize::MAX).generate_body();
    assert!(body.ends_with('\n'));
    for line in body.lines() {
        assert!(line.len() <= 70, "line of {} bytes", line.len());
        assert!(!line.ends_with(' '));
    }
}
