use nvix::setup::{paths_to_strip, Component};
use nvix::text::{after_last_of, between, push_decimal, split_lines, to_ascii_lowercase};

#[test]
fn split_lines_like_std_lines() {
    for s in ["a\nb\r\nc", "a\n", "", "\n\n", "x\r", "one", "a\r\n\r\nb\n"] {
        let expected: Vec<String> = s.lines().map(|l| l.to_string()).collect();
        assert_eq!(split_lines(s), expected, "input {:?}", s);
    }
}

#[test]
fn cutting_text() {
    assert_eq!(after_last_of("a-b-c", "-"), "c");
    assert_eq!(after_last_of("abc", "-"), "abc");
    assert_eq!(after_last_of("xx?url=yy?url=zz", "?url="), "zz");
    assert_eq!(between("GA102 [GeForce RTX 3090]", "[", ']'), "GeForce RTX 3090");
    assert_eq!(between("Navi [a] [b]", "[", ']'), "b");
    assert_eq!(between("plain", "[", ']'), "plain");
}

#[test]
fn lowercase_and_decimal() {
    assert_eq!(to_ascii_lowercase("DEV_1F9D-Ää"), "dev_1f9d-Ää");
    let mut s = String::from("n=");
    push_decimal(&mut s, 0);
    push_decimal(&mut s, 7);
    push_decimal(&mut s, 10);
    push_decimal(&mut s, 65535);
    assert_eq!(s, "n=071065535");
}

fn component(name: &str, paths: &[&str], remove: Option<bool>) -> Component {
    Component {
        name: name.to_string(),
        paths: paths.iter().map(|p| p.to_string()).collect(),
        remove,
    }
}

#[test]
fn strip_stops_at_first_kept_component() {
    let comps = vec![
        component("Telemetry", &["x\\NvTelemetry", "x\\NvModuleTracker"], Some(true)),
        component("Update", &["x\\Update.Core"], None),
        component("GeForce Experience", &["x\\GFExperience"], Some(false)),
        component("Optimus", &["x\\Display.Optimus"], Some(true)),
    ];
    assert_eq!(
        paths_to_strip(&comps),
        vec!["x\\NvTelemetry", "x\\NvModuleTracker", "x\\Update.Core"]
    );
    assert!(paths_to_strip(&comps[2..].to_vec()).is_empty());
    assert!(paths_to_strip(&Vec::new()).is_empty());
}
