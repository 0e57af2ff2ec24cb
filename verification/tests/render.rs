use vector_canvas::error::InputError;
use vector_canvas::render::{image_layout, zeroed_pixels, ImageLayout};

#[test]
fn layouts() {
    assert_eq!(image_layout(3, 2), Ok(ImageLayout { width: 3, height: 2, row_bytes: 12, byte_len: 24 }));
    assert_eq!(image_layout(0, 2), Err(InputError::InvalidInput("image size must be positive".to_string())));
    assert_eq!(image_layout(5, -1), Err(InputError::InvalidInput("image size must be positive".to_string())));
    let big = image_layout(i32::MAX, i32::MAX).unwrap();
    assert_eq!(big.byte_len, (i32::MAX as usize) * (i32::MAX as usize) * 4);
    assert_eq!(zeroed_pixels(24), vec![0u8; 24]);
}
