use gettype::history::{Entry, History, MAX_ENTRIES};

fn entry(id: &str, text: &str) -> Entry {
    Entry {
        id: id.to_string(),
        text: text.to_string(),
        created_at: 1,
        chars: text.chars().count(),
        model: "whisper-large-v3-turbo".to_string(),
        ai_action: None,
        raw_text: None,
    }
}

#[test]
fn load_missing_file_is_empty() {
    let h = History::load(None);
    assert!(h.entries().is_empty());
}

#[test]
fn load_keeps_newest_fifty() {
    let stored: Vec<Entry> = (0..60).map(|i| entry(&i.to_string(), "t")).collect();
    let h = History::load(Some(stored));
    let e = h.entries();
    assert_eq!(e.len(), MAX_ENTRIES);
    assert_eq!(e[0].id, "0");
    assert_eq!(e[49].id, "49");
}

#[test]
fn record_puts_newest_first_with_id_and_chars() {
    let mut h = History::load(None);
    h.record(1_700_000_000_123, 1_700_000_000, "Ahoj světe", None, "whisper-large-v3-turbo", None);
    h.record(1_700_000_000_500, 1_700_000_001, "Cleaned up.", Some("ehm cleaned up"), "m", Some("cleanup"));
    let e = h.entries();
    assert_eq!(e.len(), 2);
    assert_eq!(e[0].text, "Cleaned up.");
    assert_eq!(e[0].id, "1700000000500-1");
    assert_eq!(e[0].ai_action.as_deref(), Some("cleanup"));
    assert_eq!(e[0].raw_text.as_deref(), Some("ehm cleaned up"));
    assert_eq!(e[0].created_at, 1_700_000_001);
    assert_eq!(e[1].id, "1700000000123-0");
    assert_eq!(e[1].chars, 10);
    assert_eq!(e[1].model, "whisper-large-v3-turbo");
    assert_eq!(e[1].ai_action, None);
}

#[test]
fn colliding_ids_bump_the_counter() {
    let stored = vec![entry("5-0", "a"), entry("5-1", "b"), entry("5-3", "c")];
    let mut h = History::load(Some(stored));
    h.record(5, 0, "new", None, "m", None);
    assert_eq!(h.entries()[0].id, "5-2");
    h.record(5, 0, "newer", None, "m", None);
    assert_eq!(h.entries()[0].id, "5-4");
}

#[test]
fn record_caps_at_fifty() {
    let mut h = History::load(None);
    for i in 0..55u128 {
        h.record(i, 0, "x", None, "m", None);
    }
    let e = h.entries();
    assert_eq!(e.len(), MAX_ENTRIES);
    assert_eq!(e[0].id, "54-54");
    assert_eq!(e[49].id, "5-5");
}

#[test]
fn find_text_by_id() {
    let mut h = History::load(Some(vec![entry("a", "first"), entry("b", "second")]));
    assert_eq!(h.find_text("b").as_deref(), Some("second"));
    assert_eq!(h.find_text("zzz"), None);
    h.record(9, 0, "copied", None, "m", None);
    let id = h.entries()[0].id.clone();
    assert_eq!(h.find_text(&id).as_deref(), Some("copied"));
}

#[test]
fn remove_deletes_and_reports_missing() {
    let mut h = History::load(Some(vec![entry("a", "1"), entry("b", "2"), entry("c", "3")]));
    assert_eq!(h.remove("b"), Ok(()));
    let ids: Vec<String> = h.entries().into_iter().map(|e| e.id).collect();
    assert_eq!(ids, vec!["a".to_string(), "c".to_string()]);
    assert_eq!(h.remove("b"), Err("entry not found".to_string()));
    assert_eq!(h.entries().len(), 2);
}

#[test]
fn clear_empties() {
    let mut h = History::load(Some(vec![entry("a", "1")]));
    h.clear();
    assert!(h.entries().is_empty());
}

#[test]
fn entry_clone_is_equal() {
    let mut e = entry("x", "y");
    e.ai_action = Some("summarize".to_string());
    let c = e.clone();
    assert_eq!(c.id, e.id);
    assert_eq!(c.ai_action, e.ai_action);
    assert_eq!(c.raw_text, e.raw_text);
}
