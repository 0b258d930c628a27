use key_display::display::{elapsed_since, KeyDisplayApp, DEBOUNCE_MS, MAX_BUFFER_SIZE};
use key_display::fade::{
    background_alpha, opacity_for_elapsed, text_alpha, FADE_DURATION_MS, FADE_START_MS,
    OPACITY_FULL,
};
use key_display::key_source::KeySource;
use key_display::keymap::{format_key, is_delimiter_key, key_mappings, lookup_symbol, same_text};

fn s(x: &str) -> String {
    x.to_string()
}

fn buf(app: &KeyDisplayApp) -> Vec<String> {
    app.buffer().clone()
}

#[test]
fn unmapped_keys_pass_through() {
    for k in ["A", "Z", "Key1", "Comma", "Period", "F5", "", "space", "Spacebar"] {
        assert_eq!(format_key(s(k)), k);
        assert_eq!(lookup_symbol(k), None);
    }
}

#[test]
fn mapped_keys_get_symbol_with_space() {
    assert_eq!(format_key(s("Space")), "  ");
    assert_eq!(format_key(s("Backspace")), " <BS>");
    assert_eq!(format_key(s("Enter")), " <ENTER>");
    assert_eq!(format_key(s("Up")), " <UP>");
    assert_eq!(format_key(s("Down")), " <DN>");
    assert_eq!(format_key(s("LControl")), " <LCtrL>");
    assert_eq!(format_key(s("Meta")), " <M>");
    assert_eq!(lookup_symbol("Tab"), Some("<TAB>"));
}

#[test]
fn every_table_entry_normalizes_to_its_symbol() {
    let table = key_mappings();
    assert_eq!(table.len(), 19);
    for m in table.iter() {
        assert_eq!(format_key(s(m.name)), format!(" {}", m.symbol));
    }
}

#[test]
fn same_text_compares_characters() {
    assert!(same_text("Space", "Space"));
    assert!(!same_text("Space", "space"));
    assert!(!same_text("A", "AA"));
}

#[test]
fn delimiters_are_recognized() {
    for k in ["Space", "Enter", "Comma", "Period"] {
        assert!(is_delimiter_key(k));
    }
    for k in ["A", "Tab", "Backspace", "space", ""] {
        assert!(!is_delimiter_key(k));
    }
}

#[test]
fn debounce_rejects_quick_repeat() {
    let mut app = KeyDisplayApp::new(1000);
    assert!(app.update(Some(s("A")), 1000));
    assert!(!app.is_valid_keystroke("A", 1010));
    assert!(!app.update(Some(s("A")), 1010));
    // exactly the threshold is still a repeat
    assert!(!app.update(Some(s("A")), 1000 + DEBOUNCE_MS));
    // the rejected repeats did not move the reference time
    assert!(app.update(Some(s("A")), 1000 + DEBOUNCE_MS + 1));
    assert_eq!(buf(&app), vec![s("A"), s("A")]);
}

#[test]
fn debounce_accepts_different_key_at_once() {
    let mut app = KeyDisplayApp::new(0);
    assert!(app.update(Some(s("A")), 0));
    assert!(app.update(Some(s("B")), 1));
    assert!(app.update(Some(s("A")), 2));
    assert_eq!(buf(&app), vec![s("A"), s("B"), s("A")]);
    assert_eq!(app.last_key(), Some(s("A")));
}

#[test]
fn debounce_compares_raw_identifiers_of_mapped_keys() {
    let mut app = KeyDisplayApp::new(0);
    assert!(app.update(Some(s("Up")), 0));
    assert!(!app.update(Some(s("Up")), 20));
    assert!(app.update(Some(s("Up")), 51));
    assert_eq!(buf(&app), vec![s(" <UP>"), s(" <UP>")]);
}

#[test]
fn buffer_never_exceeds_bound() {
    let mut app = KeyDisplayApp::new(0);
    let keys = ["A", "B", "C", "D", "E", "F", "G", "H", "I", "J", "K", "L", "M", "N", "O", "P"];
    let mut t: u64 = 0;
    for k in keys.iter().cycle().take(100) {
        app.update(Some(s(k)), t);
        assert!(app.buffer().len() <= MAX_BUFFER_SIZE);
        t += 1;
    }
}

#[test]
fn eighth_symbol_clears_full_buffer() {
    let mut app = KeyDisplayApp::new(0);
    for (i, k) in ["A", "B", "C", "D", "E", "F", "G"].iter().enumerate() {
        assert!(app.update(Some(s(k)), i as u64));
    }
    assert_eq!(app.buffer().len(), 7);
    assert!(app.should_clear_buffer("H"));
    assert!(app.update(Some(s("H")), 10));
    assert_eq!(app.buffer().len(), 0);
    assert!(app.update(Some(s("I")), 11));
    assert_eq!(buf(&app), vec![s("I")]);
}

#[test]
fn delimiter_clears_buffer() {
    for d in ["Space", "Enter", "Comma", "Period"] {
        let mut app = KeyDisplayApp::new(0);
        app.update(Some(s("A")), 0);
        app.update(Some(s("Tab")), 1);
        assert!(app.should_clear_buffer(d));
        assert!(app.update(Some(s(d)), 2));
        assert!(app.buffer().is_empty());
        assert_eq!(app.last_key(), Some(s(d)));
    }
    let mut empty = KeyDisplayApp::new(0);
    assert!(empty.update(Some(s("Space")), 0));
    assert!(empty.buffer().is_empty());
}

#[test]
fn append_key_adds_normalized_symbol() {
    let mut app = KeyDisplayApp::new(0);
    app.append_key(s("Left"));
    app.append_key(s("X"));
    assert_eq!(buf(&app), vec![s(" <L>"), s("X")]);
    assert_eq!(app.display_text(), " <L>X");
    app.append_key(s("Comma"));
    assert!(app.buffer().is_empty());
    assert_eq!(app.display_text(), "");
}

#[test]
fn fade_curve_values() {
    assert_eq!(FADE_START_MS, 700);
    assert_eq!(FADE_DURATION_MS, 400);
    assert_eq!(opacity_for_elapsed(0), OPACITY_FULL);
    assert_eq!(opacity_for_elapsed(700), 1000);
    assert_eq!(opacity_for_elapsed(701), 248);
    assert_eq!(opacity_for_elapsed(750), 125);
    assert_eq!(opacity_for_elapsed(799), 3);
    assert_eq!(opacity_for_elapsed(800), 0);
    assert_eq!(opacity_for_elapsed(1100), 0);
    assert_eq!(opacity_for_elapsed(u64::MAX), 0);
}

#[test]
fn fade_is_non_increasing() {
    let mut prev = opacity_for_elapsed(701);
    for e in 702..1500u64 {
        let o = opacity_for_elapsed(e);
        assert!(o <= prev);
        prev = o;
    }
    for e in 0..=700u64 {
        assert_eq!(opacity_for_elapsed(e), 1000);
    }
}

#[test]
fn alpha_values() {
    assert_eq!(text_alpha(1000), 255);
    assert_eq!(text_alpha(500), 127);
    assert_eq!(text_alpha(0), 0);
    assert_eq!(background_alpha(1000), 100);
    assert_eq!(background_alpha(125), 12);
    assert_eq!(background_alpha(0), 0);
    let mut app = KeyDisplayApp::new(0);
    app.tick(750);
    assert_eq!(app.opacity(), 125);
    assert_eq!(app.text_alpha(), 31);
    assert_eq!(app.background_alpha(), 12);
}

#[test]
fn keystroke_resets_fade() {
    let mut app = KeyDisplayApp::new(0);
    app.update(Some(s("A")), 0);
    app.update(None, 760);
    assert_eq!(app.opacity(), 100);
    assert!(app.update(Some(s("B")), 770));
    assert_eq!(app.opacity(), 1000);
    app.update(None, 770 + 700);
    assert_eq!(app.opacity(), 1000);
    assert_eq!(buf(&app), vec![s("A"), s("B")]);
}

#[test]
fn expiry_clears_buffer_until_next_key() {
    let mut app = KeyDisplayApp::new(0);
    app.update(Some(s("A")), 0);
    app.update(Some(s("B")), 5);
    app.update(None, 500);
    assert_eq!(app.buffer().len(), 2);
    app.update(None, 805);
    assert_eq!(app.opacity(), 0);
    assert!(app.buffer().is_empty());
    for t in [806u64, 900, 950, 999] {
        app.update(None, t);
        assert!(app.buffer().is_empty());
        assert_eq!(app.opacity(), 0);
    }
    assert!(app.update(Some(s("C")), 1000));
    assert_eq!(buf(&app), vec![s("C")]);
    assert_eq!(app.opacity(), 1000);
}

#[test]
fn clock_before_last_press_counts_as_no_time() {
    assert_eq!(elapsed_since(100, 50), 0);
    assert_eq!(elapsed_since(100, 150), 50);
    let mut app = KeyDisplayApp::new(1000);
    app.update(Some(s("A")), 1000);
    app.update(None, 10);
    assert_eq!(app.opacity(), 1000);
    assert_eq!(app.buffer().len(), 1);
}

#[test]
fn end_to_end_scenario() {
    let mut app = KeyDisplayApp::new(0);
    assert!(app.update(Some(s("A")), 0));
    assert_eq!(buf(&app), vec![s("A")]);
    assert_eq!(app.opacity(), 1000);
    assert!(!app.update(Some(s("A")), 10));
    assert_eq!(buf(&app), vec![s("A")]);
    assert!(app.update(Some(s("A")), 60));
    assert_eq!(buf(&app), vec![s("A"), s("A")]);
    assert_eq!(app.display_text(), "AA");
    assert!(app.update(Some(s("Space")), 70));
    assert!(app.buffer().is_empty());
    app.update(None, 70 + 1200);
    assert_eq!(app.opacity(), 0);
    assert!(app.buffer().is_empty());
}

#[test]
fn key_source_reports_last_key_on_change() {
    let mut src = KeySource::new();
    assert_eq!(src.poll(vec![]), None);
    assert_eq!(src.poll(vec![s("A")]), Some(s("A")));
    assert_eq!(src.poll(vec![s("A")]), None);
    assert_eq!(src.poll(vec![s("A"), s("LShift")]), Some(s("LShift")));
    assert_eq!(src.poll(vec![s("LShift"), s("A")]), Some(s("A")));
    assert_eq!(src.poll(vec![]), None);
    assert_eq!(src.poll(vec![]), None);
    assert_eq!(src.poll(vec![s("A")]), Some(s("A")));
}
