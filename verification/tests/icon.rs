use castaway_pipeline::icon::{rgba, Pixel, WINDOW_ICON_SIDE};

fn pixel(red: u8, green: u8, blue: u8, alpha: u8) -> Pixel {
    Pixel {
        red,
        green,
        blue,
        alpha,
    }
}

#[test]
fn opaque_pixels_are_bytes_as_they_are() {
    let pixels = vec![pixel(1, 2, 3, 255), pixel(250, 251, 252, 255)];
    assert_eq!(
        rgba(&pixels),
        Some(vec![1, 2, 3, 255, 250, 251, 252, 255])
    );
    assert_eq!(rgba(&vec![]), Some(vec![]));
}

#[test]
fn alpha_is_taken_out_of_the_colours_again() {
    assert_eq!(
        rgba(&vec![pixel(2, 3, 5, 40), pixel(0, 0, 0, 0)]),
        Some(vec![13, 19, 32, 40, 0, 0, 0, 0])
    );
}

#[test]
fn a_pixel_brighter_than_its_alpha_was_never_drawn() {
    assert_eq!(rgba(&vec![pixel(1, 1, 1, 255), pixel(41, 3, 5, 40)]), None);
    assert_eq!(WINDOW_ICON_SIDE, 64);
}
