use aquerty_stop::power::PowerAction;
use aquerty_stop::settings::{
    default_accent, default_hotkey_cancel, default_hotkey_open, default_profiles, default_true,
    push_history, AppSettings, HistoryEntry,
};

fn entry(at: i64) -> HistoryEntry {
    HistoryEntry {
        at_unix: at,
        action: PowerAction::Shutdown,
        action_label: "Arrêt".to_string(),
        duration_seconds: 60,
        duration_label: "1m".to_string(),
        cancelled: false,
    }
}

#[test]
fn defaults() {
    let s = AppSettings::default();
    assert_eq!(s.last_action, PowerAction::Shutdown);
    assert_eq!(s.last_duration_input, "30m");
    assert_eq!(s.presets, vec!["15m", "30m", "1h", "2h"]);
    assert_eq!(s.notify_before_seconds, 60);
    assert!(s.minimize_to_tray && !s.launch_on_startup && !s.widget_enabled);
    assert_eq!(s.accent, "#e2a84a");
    assert_eq!(s.hotkey_open, "CommandOrControl+Shift+A");
    assert_eq!(s.hotkey_cancel, "CommandOrControl+Shift+X");
    assert!(default_true());
    assert_eq!(default_accent(), "#e2a84a");
    assert_eq!(default_hotkey_open(), "CommandOrControl+Shift+A");
    assert_eq!(default_hotkey_cancel(), "CommandOrControl+Shift+X");
    let p = default_profiles();
    assert_eq!(p.len(), 3);
    assert_eq!(p[0].id, "film");
    assert_eq!(p[1].action, PowerAction::Sleep);
    assert_eq!(p[2].conditions.cpu_below_percent_bits, Some(15.0f32.to_bits()));
    assert_eq!(p[2].conditions.cpu_for_seconds, Some(120));
}

#[test]
fn history_keeps_thirty_newest_first() {
    let mut s = AppSettings::default();
    for i in 0..35 {
        push_history(&mut s, entry(i));
    }
    assert_eq!(s.history.len(), 30);
    assert_eq!(s.history[0].at_unix, 34);
    assert_eq!(s.history[29].at_unix, 5);
}
