use relay_bot::discovery::{
    collect_named_rooms, derive_counterpart_name, select_counterparts, DirectoryEntry,
};

fn s(x: &str) -> String {
    x.to_owned()
}

fn entry(room_id: &str, name: Option<&str>) -> DirectoryEntry {
    DirectoryEntry { room_id: s(room_id), name: name.map(s) }
}

#[test]
fn harvest_keeps_only_named_rooms() {
    let entries = vec![
        entry("!a:x", Some("Foo (Tor)")),
        entry("!b:x", None),
        entry("!c:x", Some("Bar (Tor)")),
    ];
    let rooms = collect_named_rooms(&entries);
    assert_eq!(rooms, vec![(s("!a:x"), s("Foo (Tor)")), (s("!c:x"), s("Bar (Tor)"))]);
}

#[test]
fn tag_token_is_stripped_after_last_space() {
    assert_eq!(derive_counterpart_name(&s("Foo (Tor)")), Some(s("Foo")));
    assert_eq!(derive_counterpart_name(&s("Foo Bar (Tor)")), Some(s("Foo Bar")));
}

#[test]
fn name_without_space_has_no_counterpart() {
    assert_eq!(derive_counterpart_name(&s("Foo")), None);
    assert_eq!(derive_counterpart_name(&s("")), None);
}

#[test]
fn exact_match_is_accepted() {
    let entries = vec![entry("!foo:x", Some("Foo"))];
    assert_eq!(select_counterparts(&entries, false, &s("Foo")), vec![s("!foo:x")]);
}

#[test]
fn partial_match_is_rejected() {
    let entries = vec![entry("!foo:x", Some("Foo Lounge")), entry("!bar:x", Some("Foo"))];
    assert_eq!(select_counterparts(&entries, false, &s("Foo")), vec![s("!bar:x")]);
}

#[test]
fn unnamed_candidate_is_rejected() {
    let entries = vec![entry("!foo:x", None)];
    assert_eq!(select_counterparts(&entries, false, &s("Foo")), Vec::<String>::new());
}

#[test]
fn three_candidates_are_ambiguous() {
    let entries = vec![
        entry("!one:x", Some("Foo")),
        entry("!two:x", Some("Foo")),
        entry("!three:x", Some("Foo")),
    ];
    assert_eq!(select_counterparts(&entries, false, &s("Foo")), Vec::<String>::new());
}

#[test]
fn truncated_page_is_ambiguous() {
    let entries = vec![entry("!foo:x", Some("Foo"))];
    assert_eq!(select_counterparts(&entries, true, &s("Foo")), Vec::<String>::new());
}
