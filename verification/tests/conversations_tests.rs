use best_bot::config::clone_text;
use best_bot::conversations::{ChannelRecord, Conversations};

fn record(id: &str, name: Option<&str>) -> ChannelRecord {
    ChannelRecord { id: Some(id.to_string()), name: name.map(|n| n.to_string()) }
}

#[test]
fn an_empty_cache_has_no_record() {
    let cache = Conversations::new();
    assert_eq!(cache.get(&"C1".to_string()), None);
    assert_eq!(cache.get(&String::new()), None);
}

#[test]
fn a_cached_record_is_found_under_its_identifier() {
    let mut cache = Conversations::new();
    cache.insert("C1".to_string(), record("C1", Some("general")));
    assert_eq!(cache.get(&"C1".to_string()), Some(&record("C1", Some("general"))));
    assert_eq!(cache.get(&"C2".to_string()), None);
    assert_eq!(cache.get(&"c1".to_string()), None);
}

#[test]
fn records_of_other_identifiers_stay() {
    let mut cache = Conversations::new();
    for i in 0..20 {
        cache.insert(format!("C{}", i), record(&format!("C{}", i), Some(&format!("n{}", i))));
    }
    cache.insert("C7".to_string(), record("C7", Some("renamed")));
    for i in 0..20 {
        let expected = if i == 7 { "renamed".to_string() } else { format!("n{}", i) };
        assert_eq!(cache.get(&format!("C{}", i)).unwrap().display_name(), expected);
    }
    assert_eq!(cache.get(&"C20".to_string()), None);
}

#[test]
fn the_last_record_written_wins() {
    let mut cache = Conversations::new();
    cache.insert("C1".to_string(), record("C1", Some("first")));
    cache.insert("C1".to_string(), record("C1", Some("second")));
    cache.insert("C1".to_string(), record("C1", None));
    assert_eq!(cache.get(&"C1".to_string()), Some(&record("C1", None)));
}

#[test]
fn the_empty_identifier_is_an_identifier() {
    let mut cache = Conversations::new();
    cache.insert(String::new(), record("", Some("nameless")));
    assert_eq!(cache.get(&String::new()).unwrap().display_name(), "nameless");
}

#[test]
fn display_name_is_empty_without_a_name() {
    assert_eq!(record("D1", None).display_name(), "");
    assert_eq!(record("C1", Some("general")).display_name(), "general");
    assert_eq!(record("C1", Some("")).display_name(), "");
}

#[test]
fn an_optional_text_is_copied_as_it_is() {
    assert_eq!(clone_text(&None), None);
    assert_eq!(clone_text(&Some("x".to_string())), Some("x".to_string()));
    assert_eq!(clone_text(&Some(String::new())), Some(String::new()));
}
