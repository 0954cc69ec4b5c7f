use network_device_logger::capture::{capture_args, capture_outcome, CaptureError};
use network_device_logger::config::{parse_u64, Config, ConfigError, Setting};
use network_device_logger::freshness::{age_text, to_time_since};
use network_device_logger::record::AddrRecord;
use network_device_logger::scan::{step, LoopAction, LoopEvent, Phase};
use network_device_logger::timestamp::Timestamp;

#[test]
fn capture_status_interpretation() {
    assert_eq!(capture_outcome(Some(0)), Ok(()));
    assert_eq!(capture_outcome(Some(1)), Err(CaptureError::Failed(1)));
    assert_eq!(capture_outcome(Some(-2)), Err(CaptureError::Failed(-2)));
    assert_eq!(capture_outcome(None), Err(CaptureError::Unknown));
}

#[test]
fn capture_arguments() {
    assert_eq!(
        capture_args("enp0s31f6", 30, "./memfs/scan.pcap"),
        vec!["-i", "enp0s31f6", "-a", "duration:30", "-w", "./memfs/scan.pcap"]
    );
    assert_eq!(capture_args("eth0", 0, "x")[3], "duration:0");
}

#[test]
fn capture_exit_one_terminates_loop() {
    let (p, a) = step(Phase::Idle, LoopEvent::Begin);
    assert_eq!(p, Phase::Capturing);
    assert!(matches!(a, LoopAction::Capture));
    let (p, a) = step(p, LoopEvent::CaptureExited(Some(1)));
    assert_eq!(p, Phase::Terminated);
    assert!(matches!(a, LoopAction::Terminate(CaptureError::Failed(1))));
    let (p, a) = step(p, LoopEvent::Decoded(Vec::new()));
    assert_eq!(p, Phase::Terminated);
    assert!(matches!(a, LoopAction::Halt));
}

#[test]
fn full_cycle_and_decode_failure() {
    let t = Timestamp { year: 2024, month: 1, day: 1, hour: 0, minute: 0, second: 0, nanosecond: 0 };
    let obs = vec![AddrRecord { ip: "1.2.3.4".to_string(), mac: "AA:AA".to_string(), last_seen: t }];
    let (p, a) = step(Phase::Capturing, LoopEvent::CaptureExited(Some(0)));
    assert_eq!(p, Phase::Decoding);
    assert!(matches!(a, LoopAction::Decode));
    let (p, a) = step(p, LoopEvent::Decoded(obs));
    assert_eq!(p, Phase::Persisting);
    assert!(matches!(a, LoopAction::Persist(ref v) if v.len() == 1));
    let (p, a) = step(p, LoopEvent::Persisted);
    assert_eq!(p, Phase::Sleeping);
    assert!(matches!(a, LoopAction::CleanUpAndSleep));
    let (p, a) = step(p, LoopEvent::Slept);
    assert_eq!(p, Phase::Capturing);
    assert!(matches!(a, LoopAction::Capture));
    let (p, a) = step(Phase::Decoding, LoopEvent::DecodeFailed);
    assert_eq!(p, Phase::Persisting);
    assert!(matches!(a, LoopAction::Persist(ref v) if v.is_empty()));
    let (p, a) = step(Phase::Sleeping, LoopEvent::Persisted);
    assert_eq!(p, Phase::Sleeping);
    assert!(matches!(a, LoopAction::Wait));
}

#[test]
fn age_texts() {
    assert_eq!(age_text(0), "Recently");
    assert_eq!(age_text(59), "Recently");
    assert_eq!(age_text(-500), "Recently");
    assert_eq!(age_text(60), "1 minutes ago");
    assert_eq!(age_text(3599), "59 minutes ago");
    assert_eq!(age_text(3600), "1 hours ago");
    assert_eq!(age_text(86399), "23 hours ago");
    assert_eq!(age_text(2 * 86400 + 5), "2 days ago");
}

#[test]
fn age_of_old_timestamp_is_in_days() {
    let t = Timestamp { year: 2001, month: 1, day: 1, hour: 12, minute: 0, second: 0, nanosecond: 0 };
    let text = to_time_since(&t);
    assert!(text.ends_with(" days ago"), "{}", text);
}

#[test]
fn unsigned_parsing() {
    assert_eq!(parse_u64("30"), Some(30));
    assert_eq!(parse_u64("+7"), Some(7));
    assert_eq!(parse_u64("18446744073709551615"), Some(u64::MAX));
    assert_eq!(parse_u64("18446744073709551616"), None);
    assert_eq!(parse_u64(""), None);
    assert_eq!(parse_u64("+"), None);
    assert_eq!(parse_u64("-1"), None);
    assert_eq!(parse_u64("3 "), None);
}

fn some(s: &str) -> Option<String> {
    Some(s.to_string())
}

#[test]
fn settings_make_config() {
    let c = Config::from_settings(some("a.db"), some("seed.sql"), some("scan.pcap"), some("eth0"), some("30"), some("60"))
        .unwrap();
    assert_eq!(c.DATABASE_FILE_PATH, "a.db");
    assert_eq!(c.TSHARK_RUN_DURATION, 30);
    assert_eq!(c.SLEEP, 60);
    assert_eq!(c.TSHARK_TARGET_INTERFACE, "eth0");
    assert!(matches!(
        Config::from_settings(None, some("s"), some("p"), some("i"), some("1"), some("1")),
        Err(ConfigError::Missing(Setting::DatabaseFilePath))
    ));
    assert!(matches!(
        Config::from_settings(some("d"), some("s"), some("p"), some("i"), some("soon"), some("1")),
        Err(ConfigError::NotANumber(Setting::TsharkRunDuration))
    ));
    assert!(matches!(
        Config::from_settings(some("d"), some("s"), some("p"), some("i"), some("1"), None),
        Err(ConfigError::Missing(Setting::Sleep))
    ));
    assert_eq!(Setting::Sleep.name(), "SLEEP");
}

#[test]
fn settings_errors_in_field_order() {
    let err = |v: [Option<String>; 6]| {
        let [a, b, c, d, e, f] = v;
        Config::from_settings(a, b, c, d, e, f).err()
    };
    assert_eq!(err([some("d"), None, None, some("i"), some("1"), some("1")]), Some(ConfigError::Missing(Setting::DatabaseSeedFilePath)));
    assert_eq!(err([some("d"), some("s"), None, some("i"), some("1"), some("1")]), Some(ConfigError::Missing(Setting::PcapFilePath)));
    assert_eq!(err([some("d"), some("s"), some("p"), None, None, None]), Some(ConfigError::Missing(Setting::TsharkTargetInterface)));
    assert_eq!(err([some("d"), some("s"), some("p"), some("i"), None, some("x")]), Some(ConfigError::Missing(Setting::TsharkRunDuration)));
    assert_eq!(err([some("d"), some("s"), some("p"), some("i"), some("1"), some("x")]), Some(ConfigError::NotANumber(Setting::Sleep)));
    assert_eq!(err([some("d"), some("s"), some("p"), some("i"), some("1"), some("2")]), None);
}
