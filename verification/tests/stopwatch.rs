use parallax_kernel::clock::Timestamp;
use parallax_kernel::stopwatch::{Reading, Stopwatch};

const T0: Timestamp = Timestamp { secs: 1431648000, nanos: 0 };
const T1: Timestamp = Timestamp { secs: 1431648001, nanos: 500_000_000 };

#[test]
fn stopwatch() {
    let mut s = Stopwatch::new();

    s.read("a");
    s.new_parent("a");
    s.read("b");
    s.read("c");

    s.read_start("d");

    s.new_parent("b");

    s.read("e");

    println!("{}", s.render());

    let groups = s.readings();
    assert_eq!(groups.len(), 3);
    let parents: Vec<&str> = (0..3).map(|i| groups.name_at(i).as_str()).collect();
    assert_eq!(parents, vec!["a", "d", "b"]);
    let markers: Vec<Vec<&str>> = (0..3)
        .map(|i| groups.value_at(i).iter().map(|r| r.marker.as_str()).collect())
        .collect();
    assert_eq!(markers, vec![vec!["a", "b", "c"], vec!["d"], vec!["e"]]);
}

#[test]
fn readings_take_the_time_of_the_clock() {
    let mut s = Stopwatch::new();
    let first = s.read("a");
    let second = s.read_to("b", "a");
    assert!(first.secs > 1_600_000_000);
    assert!(first.nanos < 1_000_000_000);
    assert!((second.secs, second.nanos) >= (first.secs, first.nanos));
    assert_eq!(s.len(), 2);
}

#[test]
fn scopes_nest() {
    let mut s = Stopwatch::default();
    assert_eq!(s.new_parent("outer"), None);
    assert_eq!(s.new_parent("inner"), Some("outer".to_string()));
    assert_eq!(s.new_parent("innermost"), Some("inner".to_string()));
    assert_eq!(s.get_parent(0), Some(&"outer".to_string()));
    assert_eq!(s.get_parent(2), Some(&"innermost".to_string()));
    assert_eq!(s.get_parent(3), None);
    s.read("x");
    let groups = s.readings();
    assert_eq!(groups.name_at(0), "innermost");
}

#[test]
fn rendering_groups_the_readings_by_parent() {
    let mut s = Stopwatch::new();
    assert_eq!(s.render(), "Stopwatch\n");
    assert_eq!(s.read_at("load", "job", T0), T0);
    s.read_at("boot", "boot", T0);
    s.read_at("save", "job", T1);
    assert_eq!(
        s.render(),
        "Stopwatch\n - Marker: job,\n  - load: 2015-05-15 00:00:00 UTC,\n  - save: 2015-05-15 00:00:01.500 UTC,\n - Marker: boot,\n  - boot: 2015-05-15 00:00:00 UTC,\n"
    );
}

#[test]
fn timestamps_render_in_utc() {
    assert_eq!(T0.render(), "2015-05-15 00:00:00 UTC");
    assert_eq!(Timestamp { secs: 0, nanos: 1 }.render(), "1970-01-01 00:00:00.000000001 UTC");
    assert_eq!(Timestamp { secs: -1, nanos: 0 }.render(), "1969-12-31 23:59:59 UTC");
    assert_eq!(Timestamp { secs: i64::MAX, nanos: 0 }.render(), "invalid timestamp");
    assert_eq!(Timestamp { secs: 0, nanos: 2_000_000_000 }.render(), "invalid timestamp");
}

#[test]
fn timestamps_render_as_rfc3339() {
    assert_eq!(T0.rfc3339(), "2015-05-15T00:00:00+00:00");
    assert_eq!(T1.rfc3339(), "2015-05-15T00:00:01.500+00:00");
    assert_eq!(Timestamp { secs: i64::MIN, nanos: 0 }.rfc3339(), "invalid timestamp");
    let now = Timestamp::now();
    assert!(now.secs > 1_600_000_000);
    assert!(now.nanos < 1_000_000_000);
    assert!(now.rfc3339().ends_with("+00:00"));
}

#[test]
fn reading_is_copied_whole() {
    let reading = Reading::new("m".to_string(), T1, "p".to_string());
    let copy = reading.duplicate();
    assert_eq!((copy.marker, copy.timestamp, copy.parent), ("m".to_string(), T1, "p".to_string()));
}
