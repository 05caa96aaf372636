use renderrelay::server::select_version;
use renderrelay::types::keys;
use renderrelay::types::{AuthMode, KeyState, Severity, StreamFormat};
use renderrelay::version::compare_versions;

#[test]
fn format_names() {
    let all = [
        (StreamFormat::LlHls, "ll-hls"),
        (StreamFormat::Hls, "hls"),
        (StreamFormat::Dash, "dash"),
        (StreamFormat::WebRtc, "webrtc"),
        (StreamFormat::Rtsp, "rtsp"),
    ];
    for (f, name) in all {
        assert_eq!(f.as_str(), name);
        assert_eq!(StreamFormat::from_name(name), Some(f));
    }
    assert_eq!(StreamFormat::from_name("LL-HLS"), None);
}

#[test]
fn other_enum_names() {
    assert_eq!(Severity::Critical.as_str(), "critical");
    assert_eq!(Severity::from_name("warn"), Some(Severity::Warn));
    assert_eq!(KeyState::Repeat.as_str(), "repeat");
    assert_eq!(KeyState::from_name("up"), Some(KeyState::Up));
    assert_eq!(AuthMode::NotRequired.as_str(), "none");
    assert_eq!(AuthMode::from_name("required"), Some(AuthMode::Required));
    assert_eq!(AuthMode::from_name("None"), None);
    assert!(Severity::Warn < Severity::Error && Severity::Error < Severity::Critical);
}

#[test]
fn required_keys() {
    assert_eq!(keys::REQUIRED, ["up", "down", "left", "right", "ok", "back", "playpause"]);
    assert_eq!(renderrelay::SPEC_VERSION, "0.1.0");
    assert_eq!(renderrelay::DEFAULT_PATH, "/rrp");
}

#[test]
fn versions_compare_numerically() {
    assert_eq!(compare_versions("0.9.0", "0.10.0"), -1);
    assert_eq!(compare_versions("1.0.0", "0.99.99"), 1);
    assert_eq!(compare_versions("0.1.0", "0.1.0"), 0);
    assert_eq!(compare_versions("01.2", "1.2"), 0);
    assert_eq!(compare_versions("1.0", "1.0.0"), -1);
    assert_eq!(compare_versions("1.0.beta", "1.0.7"), 1);
    assert_eq!(compare_versions("1.0.alpha", "1.0.beta"), -1);
    assert_eq!(compare_versions("123456789012345678901234567890", "99"), 1);
}

fn owned(l: &[&str]) -> Vec<String> {
    l.iter().map(|s| s.to_string()).collect()
}

#[test]
fn select_highest_common_version() {
    let server = owned(&["0.1.0", "0.2.0", "0.10.0"]);
    let client = owned(&["0.1.0", "0.10.0", "0.3.0"]);
    assert_eq!(select_version(&server, &client), Some("0.10.0".to_string()));
}

#[test]
fn select_first_of_equal_rank() {
    let server = owned(&["1.0", "01.0"]);
    let client = owned(&["01.0", "1.0"]);
    assert_eq!(select_version(&server, &client), Some("01.0".to_string()));
}

#[test]
fn select_none_without_common_version() {
    let server = owned(&["0.1.0"]);
    let client = owned(&["0.2.0"]);
    assert_eq!(select_version(&server, &client), None);
    assert_eq!(select_version(&server, &[]), None);
}

#[test]
fn select_version_is_symmetric_and_order_free() {
    let a = owned(&["0.1.0", "0.2.0", "0.10.0", "1.0.0"]);
    let b = owned(&["0.10.0", "0.3.0", "0.1.0"]);
    let expected = Some("0.10.0".to_string());
    assert_eq!(select_version(&a, &b), expected);
    assert_eq!(select_version(&b, &a), expected);
    let mut a2 = a.clone();
    a2.reverse();
    let mut b2 = b.clone();
    b2.reverse();
    assert_eq!(select_version(&a2, &b2), expected);
    assert_eq!(select_version(&b2, &a2), expected);
}

#[test]
fn pre_release_ranks_below_release() {
    assert_eq!(compare_versions("1.0.0-rc1", "1.0.0"), -1);
    assert_eq!(compare_versions("1.0.0", "1.0.0-rc1"), 1);
    let server = owned(&["1.0.0", "1.0.0-rc1"]);
    let client = owned(&["1.0.0", "1.0.0-rc1"]);
    assert_eq!(select_version(&server, &client), Some("1.0.0".to_string()));
    let client = owned(&["1.0.0-rc1", "1.0.0"]);
    assert_eq!(select_version(&server, &client), Some("1.0.0".to_string()));
}

#[test]
fn semantic_version_precedence() {
    let ordered = [
        "1.0.0-alpha",
        "1.0.0-alpha.1",
        "1.0.0-alpha.beta",
        "1.0.0-beta",
        "1.0.0-beta.2",
        "1.0.0-beta.11",
        "1.0.0-rc.1",
        "1.0.0",
        "1.0.1",
        "1.1.0",
        "2.0.0",
    ];
    for i in 0..ordered.len() {
        assert_eq!(compare_versions(ordered[i], ordered[i]), 0);
        for j in (i + 1)..ordered.len() {
            assert_eq!(compare_versions(ordered[i], ordered[j]), -1, "{} < {}", ordered[i], ordered[j]);
            assert_eq!(compare_versions(ordered[j], ordered[i]), 1, "{} > {}", ordered[j], ordered[i]);
        }
    }
    assert_eq!(compare_versions("1.0.0+build.1", "1.0.0+build.2"), 0);
    assert_eq!(compare_versions("1.0.0-alpha+exp-1", "1.0.0-alpha"), 0);
    assert_eq!(compare_versions("1.0.0-x-y", "1.0.0-x"), 1);
}
