use structdb::errors::Error;
use structdb::id::{StreamID, IDENTIFIER_SIZE};

#[test]
fn test_stream_id() {
    {
        assert_eq!(IDENTIFIER_SIZE, 16);
    }

    {
        assert_eq!(
            StreamID::default().id,
            [0, 0, 0, 0, 0, 0, 0, 0, 0, 0, 0, 0, 0, 0, 0, 1]
        );
    }

    {
        let mut bid = StreamID::default();

        let next_bid = bid.next();
        assert_eq!(
            next_bid.id,
            [0, 0, 0, 0, 0, 0, 0, 0, 0, 0, 0, 0, 0, 0, 0, 2]
        );

        let next_next_bid = next_bid.next();

        assert_eq!(
            next_bid.id,
            [0, 0, 0, 0, 0, 0, 0, 0, 0, 0, 0, 0, 0, 0, 0, 2]
        );
        assert_eq!(
            next_next_bid.id,
            [0, 0, 0, 0, 0, 0, 0, 0, 0, 0, 0, 0, 0, 0, 0, 3]
        );

        for _ in 0..1e+6 as u64 {
            bid = bid.next();
        }

        assert_eq!(bid.id, [0, 0, 0, 0, 0, 0, 0, 0, 0, 0, 0, 0, 0, 15, 66, 65]);
    }

    {
        let mut bid = StreamID::default();
        for _ in 0..1e+6 as u64 {
            bid = bid.next();
        }

        assert_eq!(
            "stream-000000000000000000000000000000000000000015066065",
            bid.to_string()
        );

        let _bid: StreamID =
            StreamID::from("stream-000000000000000000000000000000000000000015066065");
        assert_eq!(bid.to_string(), _bid.to_string());
    }
}

#[test]
fn test_distance() {
    {
        let default = StreamID::default();
        let meta = StreamID::metadata();

        assert_eq!(default.to_u128(), 1);
        assert_eq!(meta.to_u128(), 0);
        assert_eq!(default.distance(&meta), 1);
    }

    {
        let default = StreamID::default();
        let mut default2 = StreamID::default();

        default2 = default2.next();
        default2 = default2.next();
        default2 = default2.next();
        default2 = default2.next();

        assert_eq!(default2.distance(&default), 4);
        assert_eq!(default.distance(&default2), 0);
    }
}

#[test]
fn default_is_one_and_metadata_is_zero() {
    let d = StreamID::default();
    assert!(d.valid);
    assert_eq!(d.to_u128(), 1);
    assert_eq!(d.raw_value(), [0, 0, 0, 0, 0, 0, 0, 0, 0, 0, 0, 0, 0, 0, 0, 1]);
    assert_eq!(d.to_vec(), vec![0, 0, 0, 0, 0, 0, 0, 0, 0, 0, 0, 0, 0, 0, 0, 1]);
    let m = StreamID::metadata();
    assert!(m.valid);
    assert_eq!(m.id, [0u8; 16]);
    assert_eq!(m.to_string(), "stream-000000000000000000000000000000000000000000000000");
}

#[test]
fn number_is_big_endian_over_all_bytes() {
    let mut x = StreamID::default();
    for _ in 0..255 {
        x = x.next();
    }
    assert_eq!(x.id, [0, 0, 0, 0, 0, 0, 0, 0, 0, 0, 0, 0, 0, 0, 1, 0]);
    assert_eq!(x.to_u128(), 256);
    assert_eq!(x.distance(&StreamID::default()), 255);
    let big = StreamID { id: [1, 0, 0, 0, 0, 0, 0, 0, 0, 0, 0, 0, 0, 0, 0, 0], valid: true };
    assert_eq!(big.to_u128(), 1u128 << 120);
    let mixed = StreamID { id: [0, 0, 0, 0, 0, 0, 0, 0, 0, 0, 0, 0, 0, 15, 66, 65], valid: true };
    assert_eq!(mixed.to_u128(), 1_000_001);
}

#[test]
fn next_wraps_after_the_largest() {
    let max = StreamID { id: [255u8; 16], valid: true };
    assert_eq!(max.to_u128(), u128::MAX);
    let wrapped = max.next();
    assert_eq!(wrapped.id, [0u8; 16]);
    assert!(wrapped.valid);
    assert_eq!(wrapped.distance(&max), 0);
    assert_eq!(max.distance(&wrapped), u128::MAX);
}

#[test]
fn next_of_an_invalid_identifier_is_valid() {
    let bad = StreamID::from("nonsense");
    assert!(!bad.valid);
    assert_eq!(bad.id, StreamID::default().id);
    let n = bad.next();
    assert!(n.valid);
    assert_eq!(n.to_u128(), 2);
}

#[test]
fn text_round_trips() {
    let mut x = StreamID::default();
    for _ in 0..1000 {
        let text = x.to_string();
        let back = StreamID::from(text.as_str());
        assert!(back.valid);
        assert_eq!(back, x);
        assert_eq!(StreamID::from_bytes(&x.to_bytes()), x);
        assert_eq!(x.to_bytes(), text.as_bytes());
        x = x.next();
    }
    let high = StreamID { id: [255, 254, 100, 99, 10, 9, 0, 1, 200, 199, 255, 0, 7, 70, 77, 250], valid: true };
    assert_eq!(
        high.to_string(),
        "stream-255254100099010009000001200199255000007070077250"
    );
    assert_eq!(StreamID::from(high.to_string().as_str()), high);
}

#[test]
fn malformed_text_is_invalid() {
    let cases = [
        "",
        "stream",
        "stream-",
        "stream-001",
        "stream:000000000000000000000000000000000000000000000001",
        "strean-000000000000000000000000000000000000000000000001",
        "stream-00000000000000000000000000000000000000000000000",
        "stream-0000000000000000000000000000000000000000000000001",
        "stream-00000000000000000000000000000000000000000000000a",
        "stream-000000000000000000000000000000000000000000000256",
        "stream-999000000000000000000000000000000000000000000001",
        "stream-000000000000000000000000000000000000000000000001-x",
        "stream-+01000000000000000000000000000000000000000000001",
        "stream-00000000000000000000000000000000000000000000000\u{0661}",
    ];
    for text in cases.iter() {
        let id = StreamID::from(text);
        assert!(!id.valid, "{:?}", text);
        assert_eq!(id.id, [0, 0, 0, 0, 0, 0, 0, 0, 0, 0, 0, 0, 0, 0, 0, 1]);
    }
    let ok = StreamID::from("stream-000000000000000000000000000000000000000000000255");
    assert!(ok.valid);
    assert_eq!(ok.to_u128(), 255);
}

#[test]
fn keys_under_a_prefix() {
    let x = StreamID::default().next();
    let key = x.to_key(b"topic:");
    assert_eq!(key, b"topic:000000000000000000000000000000000000000000000002".to_vec());
    assert_eq!(StreamID::from_key(b"topic:", &key), x);
    assert!(!StreamID::from_key(b"iter:", &key).valid);
    assert!(!StreamID::from_key(b"topic:", b"topic:").valid);
    assert!(!StreamID::from_key(b"topic:", b"top").valid);
    let bare = x.to_key(b"");
    assert_eq!(bare.len(), 48);
    assert_eq!(StreamID::from_key(b"", &bare), x);
}

#[test]
fn check_reports_invalid_identifiers() {
    let good = StreamID::default();
    assert_eq!(good.check(), Ok(good));
    let bad = StreamID::from("stream-xyz");
    assert_eq!(bad.check(), Err(Error::InvalidSeqId));
}

#[test]
fn distance_counts_steps() {
    let start = StreamID::default().next().next();
    let mut y = start;
    for k in 0..300u128 {
        assert_eq!(y.distance(&start), k);
        if k > 0 {
            assert_eq!(start.distance(&y), 0);
        }
        y = y.next();
    }
}

#[test]
fn order_of_text_follows_growth() {
    let mut x = StreamID::default();
    let mut boundary: u128 = 10;
    let mut checked = 0;
    for _ in 0..1_000_000u32 {
        let y = x.next();
        let n = y.to_u128();
        if n == boundary || n + 1 == boundary || n % 256 == 0 {
            assert!(y.to_string() > x.to_string());
            assert!(y.to_bytes() > x.to_bytes());
            assert!(y.to_key(b"topic:") > x.to_key(b"topic:"));
            checked += 1;
        }
        if n == boundary {
            boundary *= 10;
        }
        x = y;
    }
    assert_eq!(x.to_u128(), 1_000_001);
    assert!(checked > 3900);
    assert_eq!(boundary, 10_000_000);
}
