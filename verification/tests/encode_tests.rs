use fractal_core::data_url_from_png;
use fractal_core::into_data_url;
use fractal_core::PixelBuffer;
use fractal_core::Rgb;

#[test]
fn packages_bytes_as_padded_base64() {
    assert_eq!(data_url_from_png(&vec![77, 97, 110]), "data:image/png;base64,TWFu");
    assert_eq!(data_url_from_png(&vec![77, 97]), "data:image/png;base64,TWE=");
    assert_eq!(data_url_from_png(&vec![77]), "data:image/png;base64,TQ==");
    assert_eq!(data_url_from_png(&vec![]), "data:image/png;base64,");
    assert_eq!(data_url_from_png(&vec![251, 239, 190]), "data:image/png;base64,++++");
    assert_eq!(data_url_from_png(&vec![255, 255, 255]), "data:image/png;base64,////");
}

#[test]
fn data_url_carries_a_png_image() {
    let mut image = PixelBuffer::new(2, 2);
    image.set_pixel(0, 1, Rgb { r: 255, g: 0, b: 0 });
    let url = into_data_url(image).unwrap();
    let encoded = url.strip_prefix("data:image/png;base64,").unwrap();
    let png = base64::Engine::decode(&base64::engine::general_purpose::STANDARD, encoded).unwrap();
    assert_eq!(&png[..8], &[137, 80, 78, 71, 13, 10, 26, 10]);
}

#[test]
fn data_url_reflects_the_flipped_pixels() {
    let mut bottom_row_red = PixelBuffer::new(1, 2);
    bottom_row_red.set_pixel(0, 1, Rgb { r: 255, g: 0, b: 0 });
    let mut top_row_red = PixelBuffer::new(1, 2);
    top_row_red.set_pixel(0, 0, Rgb { r: 255, g: 0, b: 0 });
    let url_a = into_data_url(bottom_row_red).unwrap();
    let url_b = into_data_url(top_row_red).unwrap();
    assert_ne!(url_a, url_b);
}

#[test]
fn identical_images_give_identical_urls() {
    let mut first = PixelBuffer::new(3, 2);
    let mut second = PixelBuffer::new(3, 2);
    for x in 0..3 {
        first.set_pixel(x, 0, Rgb { r: 9 * x as u8, g: 0, b: 100 });
        second.set_pixel(x, 0, Rgb { r: 9 * x as u8, g: 0, b: 100 });
    }
    assert_eq!(into_data_url(first), into_data_url(second));
}

#[test]
fn repeated_runs_are_byte_identical() {
    let run = || {
        let mut image = PixelBuffer::new(5, 4);
        for y in 0..4 {
            for x in 0..5 {
                image.set_pixel(x, y, Rgb { r: (x * y) as u8, g: x as u8, b: y as u8 });
            }
        }
        into_data_url(image).unwrap()
    };
    assert_eq!(run(), run());
}
