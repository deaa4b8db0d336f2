use fix_client::framing::FixCodec;
use fix_client::message::{build_fix_message, extract_field};

fn fields(list: &[&str]) -> Vec<String> {
    list.iter().map(|s| s.to_string()).collect()
}

fn heartbeat_wire() -> Vec<u8> {
    build_fix_message(fields(&["8=FIX.4.4", "9=000", "35=0"])).into_bytes()
}

#[test]
fn build_sets_body_length_and_checksum() {
    let m = build_fix_message(fields(&["8=FIX.4.4", "9=000", "35=0"]));
    assert_eq!(m, "8=FIX.4.4\x019=5\x0135=0\x0110=163\x01");
}

#[test]
fn checksum_wraps_to_zero() {
    let m = build_fix_message(fields(&["8=FIX.4.4", "9=000", "35=0", "58=AD"]));
    assert_eq!(m, "8=FIX.4.4\x019=11\x0135=0\x0158=AD\x0110=000\x01");
}

#[test]
fn checksum_reaches_255() {
    let m = build_fix_message(fields(&["8=FIX.4.4", "9=000", "35=0", "58=AC"]));
    assert_eq!(m, "8=FIX.4.4\x019=11\x0135=0\x0158=AC\x0110=255\x01");
}

#[test]
fn checksum_is_zero_padded() {
    let m = build_fix_message(fields(&["8=FIX.4.4", "9=000", "35=0", "58=AK"]));
    assert_eq!(m, "8=FIX.4.4\x019=11\x0135=0\x0158=AK\x0110=007\x01");
}

#[test]
fn checksum_equals_byte_sum_of_prefix() {
    let m = build_fix_message(fields(&["8=FIX.4.4", "9=000", "35=D", "55=BTCUSDT", "44=1.5"]));
    let cut = m.rfind("10=").unwrap();
    let sum: u32 = m[..cut].bytes().map(|b| b as u32).sum::<u32>() % 256;
    assert_eq!(&m[cut..], format!("10={:03}\x01", sum));
}

#[test]
fn build_with_only_placeholders() {
    let m = build_fix_message(fields(&["8=FIX.4.4", "9=000"]));
    let body_sum: u32 = "8=FIX.4.4\x019=1\x01\x01".bytes().map(|b| b as u32).sum::<u32>() % 256;
    assert_eq!(m, format!("8=FIX.4.4\x019=1\x01\x0110={:03}\x01", body_sum));
}

#[test]
fn round_trip_every_field() {
    let list = ["8=FIX.4.4", "9=000", "35=A", "34=7", "49=SENDER01", "56=TARGET", "553=KEY"];
    let m = build_fix_message(fields(&list));
    for f in &list[2..] {
        let (tag, value) = f.split_once('=').unwrap();
        assert_eq!(extract_field(&m, tag).as_deref(), Some(value));
    }
    assert_eq!(extract_field(&m, "9").as_deref(), Some("40"));
}

#[test]
fn extract_absent_tag() {
    assert_eq!(extract_field("8=FIX.4.4\x0135=0\x01", "112"), None);
}

#[test]
fn extract_first_occurrence_wins() {
    assert_eq!(extract_field("35=A\x0158=x\x0158=y\x01", "58").as_deref(), Some("x"));
}

#[test]
fn extract_value_runs_to_end_without_delimiter() {
    assert_eq!(extract_field("35=A\x01112=abc", "112").as_deref(), Some("abc"));
}

#[test]
fn extract_skips_longer_tag() {
    assert_eq!(extract_field("135=Q\x0135=A\x01", "35").as_deref(), Some("A"));
}

#[test]
fn extract_ignores_tag_inside_field() {
    assert_eq!(extract_field("8=FIX.4.4\x0135=A\x01", "5"), None);
}

#[test]
fn round_trip_short_tag_after_longer_one() {
    let m = build_fix_message(fields(&["8=FIX.4.4", "9=000", "35=A", "5=x"]));
    assert_eq!(extract_field(&m, "5").as_deref(), Some("x"));
}

#[test]
fn decode_one_digit_checksum_value() {
    let mut buf = b"8=FIX.4.4\x0110=1\x01".to_vec();
    let mut codec = FixCodec;
    assert_eq!(codec.decode(&mut buf), Some(b"8=FIX.4.4\x0110=1\x01".to_vec()));
    assert!(buf.is_empty());
}

#[test]
fn decode_whole_message() {
    let wire = heartbeat_wire();
    let mut buf = wire.clone();
    let mut codec = FixCodec;
    assert_eq!(codec.decode(&mut buf), Some(wire));
    assert!(buf.is_empty());
}

#[test]
fn decode_every_split_point() {
    let wire = heartbeat_wire();
    for k in 0..wire.len() {
        let mut codec = FixCodec;
        let mut buf = wire[..k].to_vec();
        assert_eq!(codec.decode(&mut buf), None);
        assert_eq!(buf, wire[..k].to_vec());
        buf.extend_from_slice(&wire[k..]);
        assert_eq!(codec.decode(&mut buf), Some(wire.clone()));
        assert!(buf.is_empty());
        assert_eq!(codec.decode(&mut buf), None);
    }
}

#[test]
fn decode_skips_leading_garbage() {
    let wire = heartbeat_wire();
    let mut buf = b"\x00garbage8=FI".to_vec();
    buf.extend_from_slice(&wire);
    let mut codec = FixCodec;
    assert_eq!(codec.decode(&mut buf), Some(wire));
    assert!(buf.is_empty());
}

#[test]
fn decode_drops_garbage_even_when_incomplete() {
    let mut buf = b"xx8=FIX.4.4\x019=5\x01".to_vec();
    let mut codec = FixCodec;
    assert_eq!(codec.decode(&mut buf), None);
    assert_eq!(buf, b"8=FIX.4.4\x019=5\x01".to_vec());
}

#[test]
fn decode_short_buffer_waits() {
    let mut buf = b"8=FIX.4".to_vec();
    let mut codec = FixCodec;
    assert_eq!(codec.decode(&mut buf), None);
    assert_eq!(buf, b"8=FIX.4".to_vec());
}

#[test]
fn decode_without_marker_keeps_bytes() {
    let mut buf = b"no message here at all".to_vec();
    let mut codec = FixCodec;
    assert_eq!(codec.decode(&mut buf), None);
    assert_eq!(buf, b"no message here at all".to_vec());
}

#[test]
fn decode_two_messages_one_at_a_time() {
    let wire = heartbeat_wire();
    let mut buf = wire.clone();
    buf.extend_from_slice(&wire);
    let mut codec = FixCodec;
    assert_eq!(codec.decode(&mut buf), Some(wire.clone()));
    assert_eq!(buf, wire.clone());
    assert_eq!(codec.decode(&mut buf), Some(wire));
    assert!(buf.is_empty());
}

#[test]
fn encode_appends_verbatim() {
    let mut codec = FixCodec;
    let mut dst = b"ab".to_vec();
    codec.encode(&b"8=FIX".to_vec(), &mut dst);
    assert_eq!(dst, b"ab8=FIX".to_vec());
}

#[test]
fn decode_small_chunks_once() {
    let wire = heartbeat_wire();
    for size in 1..5 {
        let mut codec = FixCodec;
        let mut buf = Vec::new();
        let mut out = Vec::new();
        for chunk in wire.chunks(size) {
            buf.extend_from_slice(chunk);
            if let Some(m) = codec.decode(&mut buf) {
                out.push(m);
            }
        }
        assert_eq!(out, vec![wire.clone()]);
        assert!(buf.is_empty());
    }
}
