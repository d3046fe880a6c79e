use base64::Engine;
use rss_cli::cursor::{fingerprint, Cursor, CURSOR_VERSION};
use rss_cli::json::from_text;

fn sample() -> Cursor {
    Cursor {
        v: CURSOR_VERSION,
        fp: "0123456789abcdef".into(),
        f: 2,
        i: 7,
        n: 25,
        s: Some(1_780_000_000),
    }
}

fn texts(parts: &[&str]) -> Vec<String> {
    parts.iter().map(|s| s.to_string()).collect()
}

#[test]
fn cursor_round_trips_exactly() {
    let c = sample();
    let decoded = Cursor::decode(&c.encode()).expect("round-trip");
    assert_eq!(decoded.v, c.v);
    assert_eq!(decoded.fp, c.fp);
    assert_eq!(decoded.f, c.f);
    assert_eq!(decoded.i, c.i);
    assert_eq!(decoded.n, c.n);
    assert_eq!(decoded.s, c.s);
}

#[test]
fn cursor_encoding_is_url_safe_and_unpadded() {
    let token = sample().encode();
    assert!(
        token.chars().all(|c| c.is_ascii_alphanumeric() || c == '-' || c == '_'),
        "token must be URL-safe with no padding: {token}"
    );
}

#[test]
fn cursor_rejects_garbage_and_future_versions() {
    assert!(Cursor::decode("not base64!!").is_err());
    assert!(Cursor::decode("").is_err());
    let mut future = sample();
    future.v = 99;
    let err = Cursor::decode(&future.encode()).unwrap_err().message();
    assert!(err.contains("version"), "should name the version problem: {err}");
}

#[test]
fn fingerprint_is_stable_and_order_sensitive() {
    let a = texts(&["https://a/f", "https://b/f"]);
    let b = texts(&["https://b/f", "https://a/f"]);
    let two_hours = texts(&["markdown", "2h", "25", "", "", "report"]);
    let seven_days = texts(&["markdown", "7d", "25", "", "", "report"]);
    assert_eq!(
        fingerprint(&a, &two_hours),
        fingerprint(&a, &two_hours),
        "same inputs must fingerprint identically"
    );
    assert_ne!(
        fingerprint(&a, &two_hours),
        fingerprint(&b, &two_hours),
        "url order changes item positions, so it must change the fingerprint"
    );
    assert_ne!(
        fingerprint(&a, &two_hours),
        fingerprint(&a, &seven_days),
        "a different since window changes which items exist"
    );
    assert_eq!(fingerprint(&a, &two_hours).len(), 16);
}

#[test]
fn extreme_cursors_round_trip_too() {
    for s in [None, Some(i64::MIN), Some(-1), Some(i64::MAX)] {
        let c = Cursor {
            v: CURSOR_VERSION,
            fp: "a \"quoted\" \\ print \u{1f}".into(),
            f: usize::MAX,
            i: 0,
            n: usize::MAX,
            s,
        };
        let d = Cursor::decode(&c.encode()).expect("round-trip");
        assert_eq!((d.v, d.fp, d.f, d.i, d.n, d.s), (c.v, c.fp, c.f, c.i, c.n, c.s));
    }
}

#[test]
fn a_token_is_read_without_its_outer_white_space() {
    let token = format!("  {}\n", sample().encode());
    assert_eq!(Cursor::decode(&token).unwrap().f, 2);
}

#[test]
fn each_bad_cursor_says_why() {
    assert_eq!(
        Cursor::decode("???").unwrap_err().message(),
        "usage error: invalid cursor: not a valid token"
    );
    assert_eq!(
        Cursor::from_payload(None).unwrap_err().message(),
        "usage error: invalid cursor: malformed payload"
    );
    let short = from_text("{\"v\":1,\"fp\":\"x\",\"f\":0}");
    assert_eq!(
        Cursor::from_payload(short).unwrap_err().message(),
        "usage error: invalid cursor: malformed payload"
    );
    let newer = from_text("{\"v\":2,\"fp\":\"x\",\"f\":0,\"i\":0,\"n\":0,\"s\":null}");
    assert_eq!(
        Cursor::from_payload(newer).unwrap_err().message(),
        "usage error: unsupported cursor version 2 (this server emits version 1); re-request without a cursor"
    );
}

#[test]
fn a_payload_without_a_cutoff_is_a_cursor() {
    let j = from_text("{\"v\":1,\"fp\":\"x\",\"f\":3,\"i\":4,\"n\":5}");
    let c = Cursor::from_payload(j).unwrap();
    assert_eq!((c.f, c.i, c.n, c.s), (3, 4, 5, None));
}

#[test]
fn the_token_of_a_cursor_is_its_payload_in_base64() {
    let c = Cursor { v: 1, fp: "x".into(), f: 0, i: 1, n: 2, s: None };
    assert_eq!(
        c.encode(),
        "eyJ2IjoxLCJmcCI6IngiLCJmIjowLCJpIjoxLCJuIjoyLCJzIjpudWxsfQ"
    );
}

#[test]
fn a_field_of_a_payload_comes_once() {
    let token = |payload: &str| {
        base64::engine::general_purpose::URL_SAFE_NO_PAD.encode(payload)
    };
    let good = token("{\"v\":1,\"fp\":\"x\",\"f\":3,\"i\":4,\"n\":5,\"s\":6}");
    assert_eq!(Cursor::decode(&good).unwrap().s, Some(6));
    for payload in [
        "{\"v\":1,\"fp\":\"x\",\"f\":3,\"f\":3,\"i\":4,\"n\":5}",
        "{\"v\":1,\"fp\":\"x\",\"f\":3,\"\\u0066\":3,\"i\":4,\"n\":5}",
        "{\"v\":1,\"fp\":\"x\",\"f\":3,\"i\":4,\"n\":5} x",
        "{\"v\":1,\"fp\":\"x\",\"f\":3,\"i\":4,\"n\":1e999}",
    ] {
        assert_eq!(
            Cursor::decode(&token(payload)).unwrap_err().message(),
            "usage error: invalid cursor: malformed payload",
            "{payload}"
        );
    }
    let spare = token(
        " { \"a\" : [1e999, {\"f\":\"}\"}], \"v\":1,\"fp\":\"x,}\",\"f\":3,\"i\":4,\"a\":0,\"n\" : 5 } ",
    );
    let c = Cursor::decode(&spare).unwrap();
    assert_eq!((c.fp.as_str(), c.f, c.i, c.n, c.s), ("x,}", 3, 4, 5, None));
    let padded = format!(" {good}\n");
    assert_eq!(Cursor::decode(&padded).unwrap().n, 5);
}
