use raytracer::canvas::Canvas;
use raytracer::output::{filename_with_stamp, generate_default_filename, save_ppm_to_file, Writable};
use raytracer::ppm::{PpmWrapper, Rgb};
use std::io;

const BLACK: Rgb = Rgb { red: 0, green: 0, blue: 0 };

struct MockWritable {
    buffer: Vec<u8>,
}

impl Writable for MockWritable {
    fn open(_filename: String) -> io::Result<Self> {
        Ok(MockWritable { buffer: vec![] })
    }
    fn write_all(&mut self, buf: &[u8]) -> io::Result<()> {
        self.buffer.extend_from_slice(buf);
        Ok(())
    }
}

struct RefusingWritable;

impl Writable for RefusingWritable {
    fn open(_filename: String) -> io::Result<Self> {
        Err(io::Error::new(io::ErrorKind::PermissionDenied, "refused"))
    }
    fn write_all(&mut self, _buf: &[u8]) -> io::Result<()> {
        Ok(())
    }
}

#[test]
fn test_generate_default_filename() {
    let ppm_wrapper = PpmWrapper::new(Canvas::new(10, 10, BLACK), 255);
    let filename = generate_default_filename(&ppm_wrapper);
    assert!(filename.starts_with("10_10_"));
    assert!(filename.ends_with(".ppm"));
}

#[test]
fn default_filename_carries_a_timestamp() {
    let ppm_wrapper = PpmWrapper::new(Canvas::new(3, 4, BLACK), 255);
    let filename = generate_default_filename(&ppm_wrapper);
    let stamp = &filename["3_4_".len()..filename.len() - ".ppm".len()];
    assert_eq!(stamp.len(), 14);
    assert!(stamp.chars().all(|c| c.is_ascii_digit()));
}

#[test]
fn test_save_ppm_to_file() {
    let ppm_wrapper = PpmWrapper::new(Canvas::new(10, 10, BLACK), 255);
    let filename = Some("test.ppm".to_string());
    assert!(save_ppm_to_file::<MockWritable>(&ppm_wrapper, filename).is_ok());
}

#[test]
fn save_without_a_name_uses_the_default() {
    let ppm_wrapper = PpmWrapper::new(Canvas::new(2, 1, BLACK), 255);
    assert!(save_ppm_to_file::<MockWritable>(&ppm_wrapper, None).is_ok());
}

#[test]
fn save_reports_an_open_failure() {
    let ppm_wrapper = PpmWrapper::new(Canvas::new(2, 1, BLACK), 255);
    let err = save_ppm_to_file::<RefusingWritable>(&ppm_wrapper, None).unwrap_err();
    assert_eq!(err.kind(), io::ErrorKind::PermissionDenied);
}

#[test]
fn filename_from_stamp() {
    assert_eq!(filename_with_stamp(640, 480, "1700000000"), "640_480_1700000000.ppm");
    assert_eq!(filename_with_stamp(0, 7, ""), "0_7_.ppm");
}
