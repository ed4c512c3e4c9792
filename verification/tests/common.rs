use edgeflow::common::{
    tensor_len_matches,
    compute_backoff, decode_header, encode_header, jitter, parse_broker_addr, retry_step,
    RetryStep, TensorError, DTYPE_F32,
};

#[test]
fn broker_addr_with_scheme() {
    assert_eq!(parse_broker_addr("mqtt://broker:1884"), ("broker".to_string(), 1884));
    assert_eq!(parse_broker_addr("tcp://10.0.0.1:1999"), ("10.0.0.1".to_string(), 1999));
    assert_eq!(parse_broker_addr("broker:1884"), ("broker".to_string(), 1884));
}

#[test]
fn broker_addr_defaults_port() {
    assert_eq!(parse_broker_addr("broker"), ("broker".to_string(), 1883));
    assert_eq!(parse_broker_addr("mqtt://broker:notaport"), ("broker".to_string(), 1883));
    assert_eq!(parse_broker_addr("broker:70000"), ("broker".to_string(), 1883));
}

#[test]
fn broker_addr_strips_repeated_prefixes_and_splits_at_last_colon() {
    assert_eq!(parse_broker_addr("mqtt://mqtt://tcp://host:1"), ("host".to_string(), 1));
    assert_eq!(parse_broker_addr("tcp://mqtt://host:2"), ("mqtt://host".to_string(), 2));
    assert_eq!(parse_broker_addr("[::1]:8883"), ("[::1]".to_string(), 8883));
}

#[test]
fn backoff_doubles_then_caps() {
    assert_eq!(compute_backoff(0), 1);
    assert_eq!(compute_backoff(1), 2);
    assert_eq!(compute_backoff(4), 16);
    assert_eq!(compute_backoff(5), 30);
    assert_eq!(compute_backoff(63), 30);
    assert_eq!(compute_backoff(64), 30);
    // the shift amount is the attempt truncated to 32 bits
    assert_eq!(compute_backoff((1u64 << 32) + 3), 8);
}

#[test]
fn jitter_stays_within_base() {
    for _ in 0..100 {
        assert!(jitter(500) <= 500);
    }
    assert_eq!(jitter(0), 0);
}

#[test]
fn retry_step_counts_failures() {
    assert_eq!(retry_step(3, true), RetryStep::Done);
    for _ in 0..50 {
        match retry_step(0, false) {
            RetryStep::Retry { attempt, sleep_ms } => {
                assert_eq!(attempt, 1);
                assert!(sleep_ms <= 2000);
            }
            RetryStep::Done => panic!("a failed attempt is retried"),
        }
        match retry_step(10, false) {
            RetryStep::Retry { attempt, sleep_ms } => {
                assert_eq!(attempt, 11);
                assert!(sleep_ms <= 30_000);
            }
            RetryStep::Done => panic!("a failed attempt is retried"),
        }
    }
}

#[test]
fn tensor_header_layout() {
    let h = encode_header(&[1, 3, 258]);
    assert_eq!(h, vec![3, DTYPE_F32, 0, 0, 1, 0, 0, 0, 3, 0, 0, 0, 2, 1, 0, 0]);
    assert_eq!(h.len() % 4, 0);
}

#[test]
fn tensor_header_roundtrip() {
    let mut buf = encode_header(&[2, 70000]);
    buf.extend_from_slice(&[9, 9, 9, 9]);
    let (shape, off) = decode_header(&buf).ok().unwrap();
    assert_eq!(shape, vec![2, 70000]);
    assert_eq!(off, 12);
    assert_eq!(&buf[off..], &[9, 9, 9, 9]);
}

#[test]
fn tensor_header_errors() {
    assert_eq!(decode_header(&[1, 1, 0]).err(), Some(TensorError::TooShort));
    assert_eq!(decode_header(&[2, 1, 0, 0, 1, 0, 0, 0]).err(), Some(TensorError::TooShortForShape));
    assert_eq!(decode_header(&[0, 7, 0, 0]).err(), Some(TensorError::UnsupportedDtype(7)));
    assert_eq!(decode_header(&[0, 1, 0, 0]).ok(), Some((vec![], 4)));
}

#[test]
fn tensor_element_count() {
    assert!(tensor_len_matches(&[1, 3, 2, 2], 12));
    assert!(!tensor_len_matches(&[1, 3, 2, 2], 11));
    assert!(tensor_len_matches(&[], 1));
    assert!(tensor_len_matches(&[4, 0, usize::MAX], 0));
    assert!(!tensor_len_matches(&[usize::MAX, 2, 0], 1));
    assert!(!tensor_len_matches(&[usize::MAX, 2], usize::MAX));
    assert!(!tensor_len_matches(&[1usize << 33, 1usize << 31], 0));
}
