use raytrace::color::Color;
use raytrace::image::{Image, RGBPixel};
use raytrace::ppm::encode_ppm;

fn numbered(w: usize, h: usize) -> Image {
    let mut img = Image::new(w, h);
    for y in 0..h {
        for x in 0..w {
            *img.at_mut(x, y) = RGBPixel::new(x as u8, y as u8, (10 * y + x) as u8);
        }
    }
    img
}

#[test]
fn new_image_is_black() {
    let img = Image::new(3, 2);
    assert_eq!(img.width(), 3);
    assert_eq!(img.height(), 2);
    for y in 0..2 {
        for x in 0..3 {
            assert_eq!(*img.at(x, y), RGBPixel::new(0, 0, 0));
        }
    }
}

#[test]
fn empty_image() {
    let img = Image::new(0, 0);
    assert_eq!(img.width(), 0);
    assert_eq!(img.height(), 0);
    assert_eq!(encode_ppm(&img), b"P6\n0 0\n255\n".to_vec());
}

#[test]
fn at_mut_changes_one_pixel() {
    let mut img = Image::new(2, 2);
    *img.at_mut(1, 0) = RGBPixel::new(9, 8, 7);
    assert_eq!(*img.at(1, 0), RGBPixel::new(9, 8, 7));
    assert_eq!(*img.at(0, 0), RGBPixel::new(0, 0, 0));
    assert_eq!(*img.at(0, 1), RGBPixel::new(0, 0, 0));
    assert_eq!(*img.at(1, 1), RGBPixel::new(0, 0, 0));
}

#[test]
fn lines_from_bottom_row() {
    let img = numbered(3, 2);
    let lines = img.lines();
    assert_eq!(lines.len(), 2);
    assert_eq!(lines[0], &[RGBPixel::new(0, 0, 0), RGBPixel::new(1, 0, 1), RGBPixel::new(2, 0, 2)][..]);
    assert_eq!(lines[1], &[RGBPixel::new(0, 1, 10), RGBPixel::new(1, 1, 11), RGBPixel::new(2, 1, 12)][..]);
}

#[test]
fn rlines_from_top_row() {
    let img = numbered(2, 3);
    let lines = img.rlines();
    assert_eq!(lines.len(), 3);
    assert_eq!(lines[0], &[RGBPixel::new(0, 2, 20), RGBPixel::new(1, 2, 21)][..]);
    assert_eq!(lines[1], &[RGBPixel::new(0, 1, 10), RGBPixel::new(1, 1, 11)][..]);
    assert_eq!(lines[2], &[RGBPixel::new(0, 0, 0), RGBPixel::new(1, 0, 1)][..]);
}

#[test]
fn lines_mut_writes_rows() {
    let mut img = Image::new(2, 2);
    {
        let mut lines = img.lines_mut();
        assert_eq!(lines.len(), 2);
        lines[1][0] = RGBPixel::new(5, 5, 5);
        lines[0][1] = RGBPixel::new(6, 6, 6);
    }
    assert_eq!(*img.at(0, 1), RGBPixel::new(5, 5, 5));
    assert_eq!(*img.at(1, 0), RGBPixel::new(6, 6, 6));
    assert_eq!(*img.at(0, 0), RGBPixel::new(0, 0, 0));
    assert_eq!(*img.at(1, 1), RGBPixel::new(0, 0, 0));
}

#[test]
fn rlines_mut_writes_rows_top_down() {
    let mut img = Image::new(2, 3);
    {
        let mut lines = img.rlines_mut();
        assert_eq!(lines.len(), 3);
        lines[0][1] = RGBPixel::new(1, 2, 3);
        lines[2][0] = RGBPixel::new(4, 5, 6);
    }
    assert_eq!(*img.at(1, 2), RGBPixel::new(1, 2, 3));
    assert_eq!(*img.at(0, 0), RGBPixel::new(4, 5, 6));
    assert_eq!(*img.at(0, 2), RGBPixel::new(0, 0, 0));
}

#[test]
fn ppm_flips_rows() {
    let img = numbered(2, 2);
    let mut expected = b"P6\n2 2\n255\n".to_vec();
    expected.extend_from_slice(&[0, 1, 10, 1, 1, 11, 0, 0, 0, 1, 0, 1]);
    assert_eq!(encode_ppm(&img), expected);
}

#[test]
fn ppm_multi_digit_header() {
    let img = Image::new(12, 305);
    let bytes = encode_ppm(&img);
    let header = b"P6\n12 305\n255\n";
    assert_eq!(&bytes[..header.len()], &header[..]);
    assert_eq!(bytes.len(), header.len() + 3 * 12 * 305);
    assert!(bytes[header.len()..].iter().all(|b| *b == 0));
}

#[test]
fn pixel_channels() {
    let mut p = RGBPixel::new(1, 2, 3);
    assert_eq!((p.r(), p.g(), p.b(), p.a()), (1, 2, 3, 255));
    p.set_r(10);
    p.set_g(20);
    p.set_b(30);
    p.set_a(0);
    assert_eq!(p, RGBPixel::new(10, 20, 30));
    assert_eq!(p.a(), 255);
}
