use chroma_stream::filter::FilterType;
use chroma_stream::payload::build_tcp_payload;
use chroma_stream::pipeline::process_frame;
use chroma_stream::pixel::Color;

#[test]
fn test_payload_exact_text() {
    let payload = build_tcp_payload(640, 480, vec![0, 1, 10, 255]);
    assert_eq!(
        payload,
        "{\"width\": 640,\"height\": 480,\"encoding-order\": \"RGBA\",\"image\": [0, 1, 10, 255]}"
    );
}

#[test]
fn test_payload_empty_image() {
    let payload = build_tcp_payload(0, 0, Vec::new());
    assert_eq!(
        payload,
        "{\"width\": 0,\"height\": 0,\"encoding-order\": \"RGBA\",\"image\": []}"
    );
}

#[test]
fn test_process_frame_end_to_end() {
    // Wire bytes are (B, G, R, A): the first window decodes to a key-red
    // pixel and is replaced by the black background; the second stays and
    // comes back out with R and B swapped relative to the wire.
    let background = vec![
        Color { r: 0, g: 0, b: 0, a: 255 },
        Color { r: 0, g: 0, b: 0, a: 255 },
    ];
    let raw: Vec<u8> = vec![
        25, 15, 200, 255, // decodes to (R=200, G=15, B=25, A=255): substituted
        25, 15, 10, 255, // decodes to (R=10, G=15, B=25, A=255): kept
    ];
    let payload = process_frame(&FilterType::Red, &background, 2, 1, &raw);
    assert_eq!(
        payload,
        "{\"width\": 2,\"height\": 1,\"encoding-order\": \"RGBA\",\"image\": [0, 0, 0, 255, 10, 15, 25, 255]}"
    );
}
