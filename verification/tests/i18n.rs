use aquerty_stop::i18n::{action_in_progress, action_label, msg, Locale};
use aquerty_stop::power::PowerAction;

#[test]
fn labels_in_both_languages() {
    assert_eq!(action_label(&Locale::Fr, PowerAction::Restart), "Redémarrage");
    assert_eq!(action_label(&Locale::En, PowerAction::Hibernate), "Hibernate");
    assert_eq!(action_label(&Locale::En, PowerAction::Lock), "Lock");
}

#[test]
fn messages_by_key() {
    assert_eq!(msg(&Locale::En, "pro_power"), "Pro: sleep, hibernate and lock.");
    assert_eq!(msg(&Locale::Fr, "empty_time"), "Temps vide.");
    assert_eq!(msg(&Locale::Fr, "alert_1m"), "Plus qu'une minute, action imminente.");
    assert_eq!(msg(&Locale::En, "invalid_format"), "Invalid format. Examples: 30m, 1h20m, 2h30m15s");
    assert_eq!(msg(&Locale::Fr, "grace_title"), "Aquerty Stop - grâce");
}

#[test]
fn unknown_key_is_returned() {
    assert_eq!(msg(&Locale::En, "no_such_key"), "no_such_key");
    assert_eq!(msg(&Locale::Fr, ""), "");
}

#[test]
fn action_in_progress_text() {
    assert_eq!(action_in_progress(&Locale::Fr, PowerAction::Shutdown), "Arrêt en cours…");
    assert_eq!(action_in_progress(&Locale::En, PowerAction::Sleep), "Sleep in progress…");
}
