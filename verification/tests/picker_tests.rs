use niri_tools::picker::{picker_display, KeyPress, PickerEntry, PickerEntryState, PickerState};
use niri_tools::protocol::Command;

fn make_entries() -> Vec<PickerEntry> {
    vec![
        PickerEntry {
            name: "term".to_string(),
            key: Some("t".to_string()),
            desc: Some("Terminal".to_string()),
            state: PickerEntryState::Hidden,
        },
        PickerEntry {
            name: "browser".to_string(),
            key: Some("b".to_string()),
            desc: Some("Web Browser".to_string()),
            state: PickerEntryState::Visible,
        },
        PickerEntry {
            name: "music-tidal".to_string(),
            key: None,
            desc: Some("Tidal Music".to_string()),
            state: PickerEntryState::Unspawned,
        },
        PickerEntry {
            name: "volume".to_string(),
            key: Some("v".to_string()),
            desc: None,
            state: PickerEntryState::Floating,
        },
    ]
}

fn make_picker() -> PickerState {
    let mut ps = PickerState::new();
    ps.set_entries(make_entries());
    ps
}

fn key(name: &str) -> KeyPress {
    KeyPress {
        name: name.to_string(),
        keycode: 9,
        ctrl: false,
        logo: false,
        ch: None,
    }
}

fn typed(c: char) -> KeyPress {
    KeyPress {
        name: c.to_string(),
        keycode: 30,
        ctrl: false,
        logo: false,
        ch: Some(c),
    }
}

#[test]
fn set_entries_shows_all() {
    let ps = make_picker();
    assert_eq!(ps.filtered_indices.len(), 4);
    assert_eq!(ps.selected_index, 0);
    assert!(ps.search_buffer.is_empty());
}

#[test]
fn fuzzy_filter_narrows_results() {
    let mut ps = make_picker();
    ps.search_buffer = "term".to_string();
    ps.update_filtered();
    assert_eq!(ps.filtered_indices.len(), 1);
    assert_eq!(ps.entries[ps.filtered_indices[0]].name, "term");
}

#[test]
fn fuzzy_filter_matches_desc() {
    let mut ps = make_picker();
    ps.search_buffer = "tidal".to_string();
    ps.update_filtered();
    assert_eq!(ps.filtered_indices.len(), 1);
    assert_eq!(ps.entries[ps.filtered_indices[0]].name, "music-tidal");
}

#[test]
fn fuzzy_filter_no_match() {
    let mut ps = make_picker();
    ps.search_buffer = "zzzzz".to_string();
    ps.update_filtered();
    assert!(ps.filtered_indices.is_empty());
}

#[test]
fn selected_entry_returns_correct_item() {
    let ps = make_picker();
    let entry = ps.selected_entry().unwrap();
    assert_eq!(entry.name, "term");
}

#[test]
fn selected_entry_after_navigation() {
    let mut ps = make_picker();
    ps.selected_index = 2;
    let entry = ps.selected_entry().unwrap();
    assert_eq!(entry.name, "music-tidal");
}

#[test]
fn selected_index_clamped_on_filter() {
    let mut ps = make_picker();
    ps.selected_index = 3;
    ps.search_buffer = "term".to_string();
    ps.update_filtered();
    assert_eq!(ps.selected_index, 0);
}

#[test]
fn clear_search_shows_all() {
    let mut ps = make_picker();
    ps.search_buffer = "term".to_string();
    ps.update_filtered();
    assert_eq!(ps.filtered_indices.len(), 1);

    ps.search_buffer.clear();
    ps.update_filtered();
    assert_eq!(ps.filtered_indices.len(), 4);
}

#[test]
fn display_name_uses_desc_then_name() {
    let ps = make_picker();
    let volume = &ps.entries[3];
    assert!(volume.desc.is_none());
    assert_eq!(volume.name, "volume");
}

#[test]
fn typing_and_backspace_edit_the_search() {
    let mut ps = make_picker();
    for c in "tid".chars() {
        let out = ps.handle_key(&typed(c));
        assert!(out.rebuild);
        assert_eq!(out.send, None);
    }
    assert_eq!(ps.search_buffer, "tid");
    assert_eq!(ps.filtered_indices.len(), 1);
    ps.handle_key(&key("BackSpace"));
    assert_eq!(ps.search_buffer, "ti");
}

#[test]
fn navigation_stays_in_range() {
    let mut ps = make_picker();
    ps.handle_key(&key("Up"));
    assert_eq!(ps.selected_index, 0);
    for _ in 0..10 {
        ps.handle_key(&key("Down"));
    }
    assert_eq!(ps.selected_index, 3);
}

#[test]
fn return_toggles_selected_and_waits_for_release() {
    let mut ps = make_picker();
    ps.handle_key(&key("Down"));
    let out = ps.handle_key(&key("Return"));
    assert_eq!(
        out.send,
        Some(Command::Toggle {
            name: Some("browser".to_string())
        })
    );
    assert_eq!(ps.exit_on_key_release, Some(9));
    // presses are ignored until the release
    let out = ps.handle_key(&key("Tab"));
    assert_eq!(out.send, None);
    assert!(!ps.key_released(10));
    assert!(ps.key_released(9));
    assert_eq!(ps.exit_on_key_release, None);
}

#[test]
fn escape_clears_search_then_closes() {
    let mut ps = make_picker();
    ps.handle_key(&typed('t'));
    ps.handle_key(&key("Escape"));
    assert!(ps.search_buffer.is_empty());
    assert_eq!(ps.exit_on_key_release, None);
    ps.handle_key(&key("Escape"));
    assert_eq!(ps.exit_on_key_release, Some(9));
}

#[test]
fn super_shortcut_ignores_ascii_case() {
    let mut ps = make_picker();
    let mut k = key("V");
    k.logo = true;
    let out = ps.handle_key(&k);
    assert_eq!(
        out.send,
        Some(Command::Toggle {
            name: Some("volume".to_string())
        })
    );
}

#[test]
fn display_rows() {
    let mut ps = make_picker();
    ps.selected_index = 1;
    let d = picker_display(&ps);
    assert_eq!(d.search_text, "/");
    assert!(d.search_empty);
    assert_eq!(d.rows.len(), 4);
    assert_eq!(d.rows[0].indicator, "\u{25cb}");
    assert_eq!(d.rows[0].indicator_class, None);
    assert_eq!(d.rows[1].indicator_class.as_deref(), Some("state-visible"));
    assert!(d.rows[1].selected);
    assert_eq!(d.rows[2].key, " ");
    assert_eq!(d.rows[3].name, "volume");
    assert!(!d.no_matches);
}
