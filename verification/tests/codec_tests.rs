use chroma_stream::codec::{to_buffer, to_colors};
use chroma_stream::pixel::Color;

#[test]
fn test_process_frame_buffer_len() {
    let buffer: Vec<u8> = vec![1, 2, 3, 4, 5, 6, 7, 8];
    let result = to_colors(&buffer);

    assert_eq!(result.len(), 2);
}

#[test]
fn test_fix_buffer_order() {
    let buffer1: Vec<u8> = vec![1, 2, 3, 4];
    let buffer2 = to_buffer(&to_colors(&buffer1));

    let ordered: Vec<u8> = vec![3, 2, 1, 4];
    assert_eq!(buffer2, ordered)
}

#[test]
fn test_decode_channel_mapping() {
    let buffer: Vec<u8> = vec![1, 2, 3, 4];
    let pixels = to_colors(&buffer);

    assert_eq!(pixels.len(), 1);
    assert_eq!(pixels[0], Color { r: 3, g: 2, b: 1, a: 4 });
}

#[test]
fn test_decode_empty_buffer() {
    let buffer: Vec<u8> = Vec::new();
    assert_eq!(to_colors(&buffer).len(), 0);
}

#[test]
fn test_decode_drops_remainder() {
    let buffer: Vec<u8> = vec![1, 2, 3, 4, 9, 9, 9];
    let pixels = to_colors(&buffer);

    assert_eq!(pixels.len(), 1);
    assert_eq!(pixels[0], Color { r: 3, g: 2, b: 1, a: 4 });
}

#[test]
fn test_encode_canonical_order() {
    let pixels = vec![
        Color { r: 10, g: 20, b: 30, a: 40 },
        Color { r: 50, g: 60, b: 70, a: 80 },
    ];
    let buffer = to_buffer(&pixels);

    assert_eq!(buffer, vec![10, 20, 30, 40, 50, 60, 70, 80]);
}
