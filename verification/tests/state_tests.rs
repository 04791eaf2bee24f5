use msd_core::sample::NetworkSample;
use msd_core::state::{format_state, parse_state};

fn sample(rx: u64, tx: u64, at: u64) -> NetworkSample {
    NetworkSample { bytes_received: rx, bytes_transmitted: tx, observed_at: at }
}

#[test]
fn format_is_canonical_json() {
    let s = sample(123, 456, 789);
    assert_eq!(
        format_state(&s),
        "{\"prev_received\":123,\"prev_transmitted\":456,\"prev_time\":789}"
    );
}

#[test]
fn format_zero_sample() {
    let s = sample(0, 0, 0);
    assert_eq!(
        format_state(&s),
        "{\"prev_received\":0,\"prev_transmitted\":0,\"prev_time\":0}"
    );
}

#[test]
fn parse_recovers_formatted_sample() {
    let s = sample(18446744073709551615, 1, 1700000000);
    let text = format_state(&s);
    assert_eq!(parse_state(&text), s);
}

#[test]
fn parse_canonical_text() {
    let r = parse_state("{\"prev_received\":10,\"prev_transmitted\":20,\"prev_time\":30}");
    assert_eq!(r, sample(10, 20, 30));
}

#[test]
fn corrupt_text_parses_to_zero_sample() {
    let zero = sample(0, 0, 0);
    assert_eq!(parse_state(""), zero);
    assert_eq!(parse_state("not json at all"), zero);
    assert_eq!(parse_state("{\"prev_received\":10}"), zero);
    // A leading zero is not canonical.
    assert_eq!(
        parse_state("{\"prev_received\":010,\"prev_transmitted\":20,\"prev_time\":30}"),
        zero
    );
    // Trailing garbage is refused.
    assert_eq!(
        parse_state("{\"prev_received\":10,\"prev_transmitted\":20,\"prev_time\":30} "),
        zero
    );
    // A counter beyond u64 range is corrupt, not wrapped.
    assert_eq!(
        parse_state(
            "{\"prev_received\":99999999999999999999,\"prev_transmitted\":20,\"prev_time\":30}"
        ),
        zero
    );
}

#[test]
fn state_format_round_trips_through_serde() {
    // The canonical text is plain JSON: an outside JSON parser reads
    // the same three fields back.
    let s = sample(7, 8, 9);
    let text = format_state(&s);
    let v: serde_json::Value = serde_json::from_str(&text).unwrap();
    assert_eq!(v.get("prev_received").and_then(|x| x.as_u64()), Some(7));
    assert_eq!(v.get("prev_transmitted").and_then(|x| x.as_u64()), Some(8));
    assert_eq!(v.get("prev_time").and_then(|x| x.as_u64()), Some(9));
}
