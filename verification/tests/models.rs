use kagerou::models::{Protocol, StorageError, TestOutcome, TestResult, Tone};

#[test]
fn a_tone_reads_back_as_itself() {
    for t in [Tone::Good, Tone::Warn, Tone::Bad, Tone::Muted] {
        assert_eq!(Tone::parse(t.as_str()).ok(), Some(t));
    }
    assert_eq!(Tone::Warn.as_str(), "warn");
    assert!(matches!(Tone::parse("loud"), Err(StorageError::InvalidInput(_))));
}

#[test]
fn a_protocol_reads_back_as_itself() {
    for p in [
        Protocol::VLESS,
        Protocol::VMess,
        Protocol::Trojan,
        Protocol::Shadowsocks,
        Protocol::Hysteria2,
        Protocol::Tuic,
    ] {
        assert_eq!(Protocol::parse(p.as_str()).ok(), Some(p));
    }
    assert_eq!(Protocol::Hysteria2.as_str(), "Hysteria2");
    assert!(matches!(Protocol::parse("wireguard"), Err(StorageError::InvalidInput(_))));
}

#[test]
fn a_stored_outcome_reads_back_as_itself() {
    for o in [
        TestOutcome::NotTested,
        TestOutcome::Latency { millis: 42 },
        TestOutcome::Timeout,
        TestOutcome::NoResponse,
        TestOutcome::Unavailable,
    ] {
        assert_eq!(TestOutcome::from_stored(o.kind_str(), o.millis()), o);
    }
    assert_eq!(TestOutcome::from_stored("mystery", Some(3)), TestOutcome::NotTested);
    assert_eq!(TestOutcome::from_stored("latency", None), TestOutcome::Latency { millis: 0 });
}

#[test]
fn latency_tones_follow_the_thresholds() {
    assert_eq!(TestOutcome::Latency { millis: 149 }.tone(), Tone::Good);
    assert_eq!(TestOutcome::Latency { millis: 150 }.tone(), Tone::Warn);
    assert_eq!(TestOutcome::Latency { millis: 399 }.tone(), Tone::Warn);
    assert_eq!(TestOutcome::Latency { millis: 400 }.tone(), Tone::Bad);
    assert_eq!(TestOutcome::Timeout.tone(), Tone::Bad);
    assert_eq!(TestOutcome::NotTested.tone(), Tone::Muted);
    let r = TestResult::from(TestOutcome::Latency { millis: 80 });
    assert_eq!(r.tone, Tone::Good);
    assert_eq!(r.outcome, TestOutcome::Latency { millis: 80 });
}

#[test]
fn stored_names_parse_through_from_str() {
    assert_eq!("muted".parse::<Tone>().ok(), Some(Tone::Muted));
    assert!("Muted".parse::<Tone>().is_err());
    assert_eq!("VMess".parse::<Protocol>().ok(), Some(Protocol::VMess));
    assert!("vmess".parse::<Protocol>().is_err());
}
