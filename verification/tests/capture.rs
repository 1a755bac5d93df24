use blitz_host::capture::{
    capture_refused, capture_report, capture_size, crop_region, crop_rgba, encode_capture,
    encode_png, png_outcome, CaptureAttempt, PngFailure, StoreStep,
};

const PNG_SIGNATURE: [u8; 8] = [137, 80, 78, 71, 13, 10, 26, 10];

fn decode_rgba(bytes: &[u8]) -> (u32, u32, Vec<u8>) {
    let decoder = png::Decoder::new(std::io::Cursor::new(bytes.to_vec()));
    let mut reader = decoder.read_info().expect("a PNG header");
    let mut pixels = vec![0; reader.output_buffer_size().expect("a buffer size")];
    let info = reader.next_frame(&mut pixels).expect("one frame");
    pixels.truncate(info.buffer_size());
    (info.width, info.height, pixels)
}

#[test]
fn png_encoding_round_trips_pixels() {
    let pixels: Vec<u8> = vec![255, 0, 0, 255, 0, 255, 0, 128];
    let bytes = encode_png(2, 1, &pixels).expect("a 2x1 image encodes");
    assert_eq!(&bytes[0..8], &PNG_SIGNATURE);
    assert_eq!(&bytes[8..16], &[0, 0, 0, 13, b'I', b'H', b'D', b'R']);
    assert!(bytes.len() >= 45);
    assert_ne!(bytes, pixels);
    assert_eq!(decode_rgba(&bytes), (2, 1, pixels));
}

#[test]
fn png_encoding_refuses_empty_and_short_images() {
    let header = encode_png(0, 1, &[]).unwrap_err();
    assert!(header.starts_with("Failed to initialize PNG header: "), "{header}");
    let data = encode_png(1, 1, &[1, 2, 3]).unwrap_err();
    assert!(data.starts_with("Failed to encode PNG image data: "), "{data}");
}

#[test]
fn png_outcomes_are_prefixed_by_stage() {
    assert_eq!(png_outcome(Ok(vec![1, 2])), Ok(vec![1, 2]));
    let header = PngFailure { at_header: true, message: "bad".to_string() };
    assert_eq!(png_outcome(Err(header)), Err("Failed to initialize PNG header: bad".to_string()));
    let data = PngFailure { at_header: false, message: "short".to_string() };
    assert_eq!(png_outcome(Err(data)), Err("Failed to encode PNG image data: short".to_string()));
}

#[test]
fn capture_encoding_keeps_the_region() {
    // A 3x2 frame whose byte value is its index.
    let frame: Vec<u8> = (0..24).map(|i| i as u8).collect();
    let (w, h, bytes) = encode_capture(frame.clone(), 3, 2, None).expect("whole frame");
    assert_eq!((w, h), (3, 2));
    assert_eq!(decode_rgba(&bytes), (3, 2, frame.clone()));
    let (w, h, bytes) = encode_capture(frame.clone(), 3, 2, Some((1, 1, 2, 1))).expect("region");
    assert_eq!((w, h), (2, 1));
    assert_eq!(decode_rgba(&bytes), (2, 1, frame[16..24].to_vec()));
}

#[test]
fn capture_size_defaults() {
    assert_eq!(capture_size(0, 0), (800, 600));
    assert_eq!(capture_size(1024, 0), (1024, 600));
    assert_eq!(capture_size(0, 768), (800, 768));
}

#[test]
fn crop_regions_are_clipped_to_the_viewport() {
    assert_eq!(crop_region(10, 20, 100, 40, 800, 600), Some((10, 20, 100, 40)));
    assert_eq!(crop_region(-5, -5, 20, 10, 800, 600), Some((0, 0, 15, 5)));
    assert_eq!(crop_region(790, 590, 50, 50, 800, 600), Some((790, 590, 10, 10)));
    assert_eq!(crop_region(900, 10, 50, 50, 800, 600), None);
    assert_eq!(crop_region(-50, 10, 20, 50, 800, 600), None);
    assert_eq!(crop_region(10, 10, 0, 50, 800, 600), None);
}

#[test]
fn rgba_crop_keeps_the_region_rows() {
    // A 4x3 image whose byte value is its index.
    let buffer: Vec<u8> = (0..48).map(|i| i as u8).collect();
    let cropped = crop_rgba(&buffer, 4, 1, 1, 2, 2);
    let mut expected = Vec::new();
    for y in 1..3u32 {
        let start = ((y * 4 + 1) * 4) as usize;
        expected.extend_from_slice(&buffer[start..start + 8]);
    }
    assert_eq!(cropped, expected);
    assert_eq!(cropped.len(), 16);
    assert_eq!(&cropped[0..4], &[20, 21, 22, 23]);
    assert!(crop_rgba(&buffer, 4, 0, 0, 0, 0).is_empty());
}

#[test]
fn capture_reports() {
    let r = capture_report(
        "target/full.png".to_string(),
        None,
        CaptureAttempt::Stored { width: 800, height: 600, bytes: 5120 },
    );
    assert!(r.success);
    assert_eq!(r.format, "png");
    assert_eq!(r.bytes, 5120);
    assert_eq!(
        r.message.as_deref(),
        Some("Captured 800x600 PNG visual screenshot to target/full.png (5120 bytes)")
    );
    let r = capture_report(
        "card.png".to_string(),
        Some(42),
        CaptureAttempt::Stored { width: 100, height: 40, bytes: 900 },
    );
    assert_eq!(r.node_id, Some(42));
    assert_eq!(
        r.message.as_deref(),
        Some("Captured node #42 cropped to 100x40 PNG visual screenshot to card.png (900 bytes)")
    );
    let r = capture_report(
        "x/y.png".to_string(),
        Some(3),
        CaptureAttempt::StoreFailed { step: StoreStep::CreateDirectory, error: "Permission denied".to_string() },
    );
    assert!(!r.success);
    assert_eq!(r.width, 0);
    assert_eq!(r.message.as_deref(), Some("Failed to create parent directory: Permission denied"));
    let r = capture_report(
        "y.png".to_string(),
        None,
        CaptureAttempt::StoreFailed { step: StoreStep::WriteFile, error: "disk full".to_string() },
    );
    assert_eq!(r.message.as_deref(), Some("Failed to write capture to file: disk full"));
    let r = capture_report("z.png".to_string(), Some(9), CaptureAttempt::RenderFailed("bad".to_string()));
    assert!(!r.success);
    assert_eq!(r.message.as_deref(), Some("bad"));
    let r = capture_refused("n.png".to_string(), "Node #999999 not found in document".to_string());
    assert!(!r.success);
    assert_eq!(r.node_id, None);
    assert_eq!(r.file_path, "n.png");
    assert!(r.message.unwrap().contains("not found in document"));
}
