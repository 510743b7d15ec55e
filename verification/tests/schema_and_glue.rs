use muppet::db::{connection_pragmas, migrations};
use muppet::ids::gen_id;
use muppet::settings::SettingsCache;
use muppet::shortcut::{hotkey_accelerator, hotkey_window_action, WindowToggle};

#[test]
fn migrations_hold_the_schema_in_order() {
    let m = migrations();
    assert_eq!(m.len(), 5);
    assert!(m[0].starts_with("CREATE TABLE IF NOT EXISTS conversations"));
    assert_eq!(
        m[1],
        "CREATE INDEX IF NOT EXISTS idx_conversations_updated_at ON conversations(updated_at)"
    );
    assert!(m[2].starts_with("CREATE TABLE IF NOT EXISTS messages"));
    assert!(m[2].contains("ON DELETE CASCADE"));
    assert!(m[2].contains("role IN ('user', 'assistant', 'system')"));
    assert_eq!(
        m[3],
        "CREATE INDEX IF NOT EXISTS idx_messages_conversation_id ON messages(conversation_id)"
    );
    assert_eq!(
        m[4],
        "CREATE INDEX IF NOT EXISTS idx_messages_created_at ON messages(created_at)"
    );
}

#[test]
fn pragmas_enable_foreign_keys_first() {
    let p = connection_pragmas();
    assert_eq!(p.len(), 6);
    assert_eq!(p[0], "PRAGMA foreign_keys = ON;");
    assert_eq!(p[1], "PRAGMA journal_mode = WAL;");
    assert_eq!(p[2], "PRAGMA synchronous = NORMAL;");
    assert_eq!(p[3], "PRAGMA cache_size = -64000;");
    assert_eq!(p[4], "PRAGMA temp_store = MEMORY;");
    assert_eq!(p[5], "PRAGMA mmap_size = 268435456;");
}

#[test]
fn identifiers_render_timestamp_then_counter_in_hex() {
    assert_eq!(gen_id(0x1af, 0), "1af0");
    assert_eq!(gen_id(0, 0), "00");
    assert_eq!(gen_id(255, 16), "ff10");
    assert_eq!(gen_id(1_700_000_000_000_000_000, 2), format!("{:x}{:x}", 1_700_000_000_000_000_000u128, 2));
    // same instant, different counter draws: identifiers still differ
    assert_ne!(gen_id(42, 0), gen_id(42, 1));
}

#[test]
fn hotkey_toggles_visibility_on_press_only() {
    assert_eq!(hotkey_accelerator(), "Alt+Space");
    assert_eq!(hotkey_window_action(true, true), WindowToggle::Hide);
    assert_eq!(hotkey_window_action(true, false), WindowToggle::ShowAndFocus);
    assert_eq!(hotkey_window_action(false, true), WindowToggle::Ignore);
    assert_eq!(hotkey_window_action(false, false), WindowToggle::Ignore);
}

#[test]
fn settings_cache_mirrors_the_durable_value() {
    let mut s = SettingsCache::load(Some("k-initial".to_string()));
    assert!(s.has_key());
    assert_eq!(s.get_cached_key(), Some("k-initial".to_string()));
    s.set_key("k-replacement".to_string());
    assert_eq!(s.get_cached_key(), Some("k-replacement".to_string()));
    s.delete_key();
    assert!(!s.has_key());
    assert_eq!(s.get_cached_key(), None);
}

#[test]
fn settings_cache_starts_empty_without_a_row() {
    let s = SettingsCache::load(None);
    assert!(!s.has_key());
    assert_eq!(s.get_cached_key(), None);
}
