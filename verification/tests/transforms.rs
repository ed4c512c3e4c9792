use edgeflow::transforms::{decode_layer_layout, encode_layer_header, float_to_tensor};

#[test]
fn float_to_tensor_wraps_whole_floats() {
    let values: [f32; 3] = [1.5, -2.0, 0.25];
    let mut raw = Vec::new();
    for v in values {
        raw.extend_from_slice(&v.to_le_bytes());
    }
    raw.push(0xAB); // a trailing partial value is dropped
    let out = float_to_tensor(3, &raw);
    assert_eq!(&out[..10], &[2, 1, 0, 0, 0, 3, 0, 0, 0, 1]);
    assert_eq!(out.len(), 10 + 12);
    let back: Vec<f32> = out[10..].chunks_exact(4).map(|c| f32::from_le_bytes(c.try_into().unwrap())).collect();
    assert_eq!(back, values.to_vec());
}

#[test]
fn layer_layout_roundtrip() {
    let mut buf = encode_layer_header(&[1, 3, 640, 640]);
    assert_eq!(buf.len(), 1 + 16 + 1);
    buf.extend_from_slice(&[0, 0, 128, 63]);
    let (shape, off) = decode_layer_layout(&buf);
    assert_eq!(shape, vec![1, 3, 640, 640]);
    assert_eq!(off, 18);
    assert_eq!(f32::from_le_bytes(buf[off..off + 4].try_into().unwrap()), 1.0);
}
