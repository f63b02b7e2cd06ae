use sol_signal::fingerprint::reasoning_fingerprint;
use sol_signal::initialize;
use sol_signal::publish_signal;
use sol_signal::register_agent;
use sol_signal::Direction;
use sol_signal::Initialize;
use sol_signal::PublishSignal;
use sol_signal::RegisterAgent;
use sol_signal::Store;

#[test]
fn fingerprint_of_short_text_keeps_text_and_length() {
    let text = b"hello".to_vec();
    let h = reasoning_fingerprint(&text);
    assert_eq!(h.len(), 32);
    assert_eq!(&h[..5], b"hello");
    for i in 5..24 {
        assert_eq!(h[i], 0);
    }
    assert_eq!(h[24], 5);
    for i in 25..32 {
        assert_eq!(h[i], 0);
    }
}

#[test]
fn fingerprint_of_empty_text_is_all_zero() {
    let h = reasoning_fingerprint(&Vec::new());
    assert_eq!(h, vec![0u8; 32]);
}

#[test]
fn fingerprint_of_twenty_four_byte_text_is_fully_recoverable() {
    let text = vec![b'q'; 24];
    let h = reasoning_fingerprint(&text);
    assert_eq!(&h[..24], &text[..]);
    assert_eq!(h[24], 24);
    for i in 25..32 {
        assert_eq!(h[i], 0);
    }
}

#[test]
fn fingerprint_truncates_long_text_and_folds_length() {
    let mut text = Vec::new();
    for i in 0..40u8 {
        text.push(i + 1);
    }
    let h = reasoning_fingerprint(&text);
    assert_eq!(&h[..24], &text[..24]);
    // Offset 24 holds the text byte XORed with the low length byte.
    assert_eq!(h[24], text[24] ^ 40);
    // The remaining length bytes are zero, so the text shows through.
    assert_eq!(&h[25..32], &text[25..32]);
}

#[test]
fn fingerprint_collides_on_shared_prefix_and_equal_length() {
    let mut a = vec![b'p'; 40];
    let mut b = vec![b'p'; 40];
    a[35] = b'x';
    b[35] = b'y';
    assert_ne!(a, b);
    assert_eq!(reasoning_fingerprint(&a), reasoning_fingerprint(&b));
}

#[test]
fn fingerprint_differs_on_differing_prefix() {
    let a = b"alpha".to_vec();
    let b = b"altha".to_vec();
    assert_ne!(reasoning_fingerprint(&a), reasoning_fingerprint(&b));
}

#[test]
fn stored_reasoning_hash_is_the_fingerprint() {
    let mut store = Store::new();
    initialize(&mut store, Initialize { authority: 1 }).unwrap();
    register_agent(&mut store, RegisterAgent { agent: 2 }, b"alice".to_vec(), 100).unwrap();
    let reasoning = b"support at the moving average".to_vec();
    publish_signal(
        &mut store,
        PublishSignal { agent: 2 },
        b"SOL/USDC".to_vec(),
        Direction::Long,
        80,
        95,
        100,
        90,
        2_000,
        reasoning.clone(),
        1_000,
    )
    .unwrap();
    let s = store.get_signal(2, 1).unwrap();
    assert_eq!(s.reasoning_hash, reasoning_fingerprint(&reasoning));
}
