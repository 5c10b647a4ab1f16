use raytrace::ppm::{header, pixel_line, push_decimal};

#[test]
fn header_for_two_by_one() {
    let h = header(2, 1);
    assert_eq!(h, b"P3\n2 1\n255\n\n".to_vec());
}

#[test]
fn header_for_reference_image() {
    assert_eq!(header(384, 216), b"P3\n384 216\n255\n\n".to_vec());
}

#[test]
fn two_pixel_image_text() {
    let mut text = header(2, 1);
    text.extend(pixel_line(255, 0, 7));
    text.extend(pixel_line(10, 128, 99));
    let s = String::from_utf8(text).unwrap();
    assert!(s.starts_with("P3\n2 1\n255\n\n"));
    let lines: Vec<&str> = s["P3\n2 1\n255\n\n".len()..].lines().collect();
    assert_eq!(lines, vec!["255 0 7", "10 128 99"]);
    for line in lines {
        for v in line.split(' ') {
            let n: u32 = v.parse().unwrap();
            assert!(n <= 255);
        }
    }
}

#[test]
fn decimal_digits() {
    let mut out = b"x".to_vec();
    push_decimal(&mut out, 0);
    assert_eq!(out, b"x0".to_vec());
    let mut out = Vec::new();
    push_decimal(&mut out, 4294967295);
    assert_eq!(out, b"4294967295".to_vec());
    let mut out = Vec::new();
    push_decimal(&mut out, 10);
    assert_eq!(out, b"10".to_vec());
}
