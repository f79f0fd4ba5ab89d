use imgp::AllocationError;
use imgp::PixelBuffer;
use imgp::Rgb;

#[test]
fn create_rejects_zero_width() {
    assert_eq!(PixelBuffer::create(0, 5).unwrap_err(), AllocationError::ZeroDimension);
}

#[test]
fn create_rejects_zero_height() {
    assert_eq!(PixelBuffer::create(5, 0).unwrap_err(), AllocationError::ZeroDimension);
}

#[test]
fn created_buffer_is_zeroed() {
    let buf = PixelBuffer::create(4, 3).unwrap();
    assert_eq!(buf.width(), 4);
    assert_eq!(buf.height(), 3);
    for y in 0..3 {
        for x in 0..4 {
            assert_eq!(buf.get(x, y), Rgb { red: 0, green: 0, blue: 0 });
        }
    }
}

#[test]
fn set_writes_one_pixel_and_leaves_the_rest() {
    let mut buf = PixelBuffer::create(3, 2).unwrap();
    buf.set(2, 1, Rgb { red: 1, green: 2, blue: 3 });
    for y in 0..2 {
        for x in 0..3 {
            let expected = if x == 2 && y == 1 {
                Rgb { red: 1, green: 2, blue: 3 }
            } else {
                Rgb { red: 0, green: 0, blue: 0 }
            };
            assert_eq!(buf.get(x, y), expected);
        }
    }
}

#[test]
fn set_overwrites_previous_value() {
    let mut buf = PixelBuffer::create(2, 2).unwrap();
    buf.set(0, 0, Rgb { red: 10, green: 20, blue: 30 });
    buf.set(0, 0, Rgb { red: 40, green: 50, blue: 60 });
    assert_eq!(buf.get(0, 0), Rgb { red: 40, green: 50, blue: 60 });
}

#[test]
fn into_bytes_lays_pixels_out_row_major() {
    let mut buf = PixelBuffer::create(2, 2).unwrap();
    buf.set(0, 0, Rgb { red: 1, green: 2, blue: 3 });
    buf.set(1, 0, Rgb { red: 4, green: 5, blue: 6 });
    buf.set(0, 1, Rgb { red: 7, green: 8, blue: 9 });
    buf.set(1, 1, Rgb { red: 10, green: 11, blue: 12 });
    let bytes = buf.into_bytes();
    assert_eq!(bytes, vec![1, 2, 3, 4, 5, 6, 7, 8, 9, 10, 11, 12]);
}
