use aquerty_stop::conditions::ConditionReadings;
use aquerty_stop::license::generate_key;
use aquerty_stop::power::{PowerAction, SmartConditions};
use aquerty_stop::schedule::{
    ensure_allowed, is_pro, wake_due_time, widget_should_show, ScheduleRequest, SchedulerState,
};
use aquerty_stop::settings::{AppSettings, Profile};

fn free_state() -> SchedulerState {
    SchedulerState::new(AppSettings::default())
}

fn pro_state() -> SchedulerState {
    let mut settings = AppSettings::default();
    settings.license_key = Some(generate_key("TEST"));
    SchedulerState::new(settings)
}

fn request(action: PowerAction, seconds: u64, conditions: Option<SmartConditions>) -> ScheduleRequest {
    ScheduleRequest { action, seconds, conditions }
}

#[test]
fn zero_delay_needs_a_condition() {
    let mut st = free_state();
    let r = st.schedule_power(request(PowerAction::Shutdown, 0, None), 1000);
    assert_eq!(
        r.err(),
        Some("Le délai doit être supérieur à 0, ou ajoutez une condition.".to_string())
    );
    assert!(st.schedule.is_none());
}

#[test]
fn pro_actions_need_a_license() {
    let mut st = free_state();
    let r = st.schedule_power(request(PowerAction::Sleep, 60, None), 1000);
    assert_eq!(r.err(), Some("Fonction Pro : veille, hibernation et verrouillage.".to_string()));
    let mut c = SmartConditions::none();
    c.idle_seconds = Some(60);
    let r = st.schedule_power(request(PowerAction::Shutdown, 60, Some(c)), 1000);
    assert_eq!(r.err(), Some("Fonction Pro : conditions réservées à la licence Pro.".to_string()));
    assert!(st.schedule.is_none());
    assert!(!is_pro(&st.settings));
    assert!(ensure_allowed(PowerAction::Lock, &SmartConditions::none(), true).is_ok());
}

#[test]
fn scheduling_sets_the_end_and_the_snapshot() {
    let mut st = pro_state();
    assert!(is_pro(&st.settings));
    let snap = st.schedule_power(request(PowerAction::Sleep, 600, None), 1000).unwrap();
    assert!(snap.active);
    assert_eq!(snap.action, Some(PowerAction::Sleep));
    assert_eq!(snap.action_label.as_deref(), Some("Veille"));
    assert_eq!(snap.remaining_seconds, 600);
    assert_eq!(snap.total_seconds, 600);
    assert_eq!(snap.ends_at_unix, Some(1600));
    assert_eq!(st.settings.last_action, PowerAction::Sleep);
    let later = st.snapshot_from(1450);
    assert_eq!(later.remaining_seconds, 150);
    let past = st.snapshot_from(2000);
    assert_eq!(past.remaining_seconds, 0);
}

#[test]
fn condition_only_schedule_lasts_one_second() {
    let mut st = pro_state();
    let mut c = SmartConditions::none();
    c.idle_seconds = Some(30);
    let snap = st.schedule_power(request(PowerAction::Shutdown, 0, Some(c)), 50).unwrap();
    assert_eq!(snap.total_seconds, 1);
    assert_eq!(snap.ends_at_unix, Some(51));
}

#[test]
fn cancelling_records_history() {
    let mut st = free_state();
    st.schedule_power(request(PowerAction::Restart, 3605, None), 0).unwrap();
    let snap = st.do_cancel(100);
    assert!(!snap.active);
    assert!(st.schedule.is_none());
    assert_eq!(st.settings.history.len(), 1);
    let e = &st.settings.history[0];
    assert!(e.cancelled);
    assert_eq!(e.at_unix, 100);
    assert_eq!(e.action, PowerAction::Restart);
    assert_eq!(e.action_label, "Redémarrage");
    assert_eq!(e.duration_seconds, 3605);
    assert_eq!(e.duration_label, "1h5s");
    // cancelling again changes nothing
    st.do_cancel(200);
    assert_eq!(st.settings.history.len(), 1);
}

#[test]
fn accepting_settings_keeps_license_and_history_and_cuts_free_lists() {
    let mut st = free_state();
    st.settings.license_key = Some("WRONG".to_string());
    st.schedule_power(request(PowerAction::Shutdown, 10, None), 0).unwrap();
    st.do_cancel(5);
    let mut incoming = AppSettings::default();
    incoming.presets = (0..6).map(|i| format!("{i}m")).collect();
    let extra = Profile {
        id: "x".into(),
        name: "x".into(),
        duration_input: "1m".into(),
        action: PowerAction::Shutdown,
        conditions: SmartConditions::none(),
    };
    incoming.profiles.push(extra);
    let merged = st.accept_settings(incoming);
    assert_eq!(merged.license_key.as_deref(), Some("WRONG"));
    assert_eq!(merged.history.len(), 1);
    assert_eq!(merged.presets, vec!["0m", "1m", "2m", "3m"]);
    assert_eq!(merged.profiles.len(), 3);

    let mut pro_in = AppSettings::default();
    pro_in.license_key = Some("AQUERTY-PRO-DEMO-2026".to_string());
    pro_in.presets = (0..6).map(|i| format!("{i}m")).collect();
    let merged = st.accept_settings(pro_in);
    assert_eq!(merged.presets.len(), 6);
}

#[test]
fn license_activation() {
    let mut st = free_state();
    assert_eq!(st.activate_license("bad").err(), Some("Clé de licence invalide.".to_string()));
    assert!(st.settings.license_key.is_none());
    let info = st.activate_license(" aquerty-pro-demo-2026 ").unwrap();
    assert!(info.is_pro);
    assert_eq!(st.settings.license_key.as_deref(), Some("AQUERTY-PRO-DEMO-2026"));
    assert!(st.license().is_pro);
    let info = st.deactivate_license();
    assert!(!info.is_pro);
    assert_eq!(info.message, "Version gratuite");
    assert!(st.settings.license_key.is_none());
}

#[test]
fn widget_and_history_commands() {
    let mut st = free_state();
    st.set_widget_visible(true);
    assert!(st.settings.widget_enabled);
    let snap = st.snapshot_from(0);
    assert!(!widget_should_show(&st.settings, &snap));
    st.schedule_power(request(PowerAction::Shutdown, 10, None), 0).unwrap();
    let snap = st.snapshot_from(0);
    assert!(widget_should_show(&st.settings, &snap));
    st.do_cancel(1);
    st.clear_history();
    assert!(st.settings.history.is_empty());
}

#[test]
fn wake_due_times() {
    assert_eq!(wake_due_time(100, 100), None);
    assert_eq!(wake_due_time(90, 100), None);
    assert_eq!(wake_due_time(160, 100), Some(-600_000_000));
    assert_eq!(wake_due_time(i64::MAX, 0), Some(-i64::MAX));
}

fn readings(within: bool, idle: u64, running: bool) -> ConditionReadings {
    ConditionReadings {
        cpu_percent_bits: 10.0f32.to_bits(),
        cpu_within_threshold: within,
        cpu_label: "10".to_string(),
        idle_seconds: idle,
        process_running: running,
    }
}

#[test]
fn tick_without_schedule_does_nothing() {
    let mut st = free_state();
    assert!(st.tick(0, None).is_none());
}

#[test]
fn tick_raises_alerts_once_and_fires() {
    let mut st = free_state();
    st.schedule_power(request(PowerAction::Shutdown, 400, None), 0).unwrap();
    let out = st.tick(100, None).unwrap();
    assert_eq!(out.alerts.len(), 1);
    assert_eq!(out.alerts[0].stage, "5m");
    assert_eq!(out.alerts[0].remaining_seconds, 300);
    assert_eq!(out.alerts[0].body, "Plus que 5 minutes avant l'action.");
    assert_eq!(out.title, "Aquerty Stop - 05:00");
    assert_eq!(out.widget_title, "5m");
    assert!(out.fired.is_none());
    let out = st.tick(101, None).unwrap();
    assert!(out.alerts.is_empty());
    assert_eq!(out.title, "Aquerty Stop - 04:59");
    let out = st.tick(340, None).unwrap();
    assert_eq!(out.alerts.len(), 1);
    assert_eq!(out.alerts[0].stage, "1m");
    assert_eq!(out.alerts[0].body, "Plus qu'une minute, action imminente.");
    let out = st.tick(341, None).unwrap();
    assert!(out.alerts.is_empty());
    let out = st.tick(400, None).unwrap();
    assert_eq!(out.fired, Some(PowerAction::Shutdown));
    assert_eq!(out.fire_notification.as_deref(), Some("Arrêt en cours…"));
    let fire = out.fire_alert.unwrap();
    assert_eq!(fire.stage, "fire");
    assert_eq!(fire.remaining_seconds, 0);
    assert!(fire.sound);
    assert!(!out.snapshot.active);
    assert_eq!(out.title, "Aquerty Stop");
    assert!(st.schedule.is_none());
    assert_eq!(st.settings.history.len(), 1);
    assert!(!st.settings.history[0].cancelled);
    assert_eq!(st.settings.history[0].duration_label, "6m40s");
}

#[test]
fn soon_alert_when_one_minute_alert_is_off() {
    let mut st = free_state();
    st.settings.notify_at_1m = false;
    st.settings.notify_before_seconds = 30;
    st.schedule_power(request(PowerAction::Shutdown, 100, None), 0).unwrap();
    let out = st.tick(50, None).unwrap();
    assert!(out.alerts.is_empty());
    let out = st.tick(75, None).unwrap();
    assert_eq!(out.alerts.len(), 1);
    assert_eq!(out.alerts[0].stage, "soon");
    assert_eq!(out.alerts[0].body, "Action imminente.");
    let out = st.tick(80, None).unwrap();
    assert!(out.alerts.is_empty());
}

#[test]
fn unmet_conditions_make_the_schedule_wait() {
    let mut st = pro_state();
    let mut c = SmartConditions::none();
    c.idle_seconds = Some(60);
    st.schedule_power(request(PowerAction::Shutdown, 10, Some(c)), 0).unwrap();
    let out = st.tick(20, Some(readings(true, 5, false))).unwrap();
    assert!(out.fired.is_none());
    assert!(out.snapshot.waiting_for_conditions);
    assert_eq!(out.snapshot.remaining_seconds, 0);
    assert_eq!(out.title, "Aquerty Stop - en attente");
    let status = st.last_condition_status.as_ref().unwrap();
    assert!(!status.all_met);
    assert_eq!(status.summary, "Inactivité 5s/60s");
    let out = st.tick(21, Some(readings(true, 61, false))).unwrap();
    assert_eq!(out.fired, Some(PowerAction::Shutdown));
}

#[test]
fn refused_requests_are_checked_first() {
    let st = free_state();
    assert_eq!(
        st.check_schedule_request(&request(PowerAction::Sleep, u64::MAX, None)).err(),
        Some("Fonction Pro : veille, hibernation et verrouillage.".to_string())
    );
    assert!(st.check_schedule_request(&request(PowerAction::Shutdown, 60, None)).is_ok());
    let mut st = free_state();
    let r = st.schedule_power(request(PowerAction::Lock, u64::MAX / 2, None), i64::MAX);
    assert!(r.is_err());
}

#[test]
fn closing_windows() {
    let mut st = free_state();
    assert!(aquerty_stop::schedule::hides_on_close("widget", &st.settings));
    assert!(aquerty_stop::schedule::hides_on_close("main", &st.settings));
    st.settings.minimize_to_tray = false;
    assert!(aquerty_stop::schedule::hides_on_close("widget", &st.settings));
    assert!(!aquerty_stop::schedule::hides_on_close("main", &st.settings));
}
