use aquerty_stop::power::{
    execute, suspend_failure_message, windows_command, PowerAction, PowerCommand, SmartConditions,
};

#[test]
fn labels_and_pro_actions() {
    assert_eq!(PowerAction::Shutdown.label(), "Arrêt");
    assert_eq!(PowerAction::Lock.label(), "Verrouillage");
    assert!(!PowerAction::Shutdown.requires_pro());
    assert!(!PowerAction::Restart.requires_pro());
    assert!(PowerAction::Sleep.requires_pro());
    assert!(PowerAction::Hibernate.requires_pro());
    assert!(PowerAction::Lock.requires_pro());
}

#[test]
fn empty_conditions() {
    let mut c = SmartConditions::none();
    assert!(c.is_empty());
    assert!(!c.requires_pro());
    c.process_closed = Some("   ".to_string());
    assert!(c.is_empty());
    c.cpu_for_seconds = Some(10);
    assert!(c.is_empty());
    c.process_closed = Some(" vlc ".to_string());
    assert!(!c.is_empty());
    assert!(c.requires_pro());
    let mut d = SmartConditions::none();
    d.target_unix = Some(0);
    assert!(!d.is_empty());
}

#[test]
fn execute_is_refused_off_windows() {
    assert_eq!(
        execute(PowerAction::Sleep),
        Err("Action Sleep disponible uniquement sur Windows".to_string())
    );
}

#[test]
fn windows_commands() {
    assert_eq!(windows_command(PowerAction::Restart), PowerCommand::Shutdown { restart: true });
    assert_eq!(windows_command(PowerAction::Hibernate), PowerCommand::Suspend { hibernate: true });
    assert_eq!(windows_command(PowerAction::Lock), PowerCommand::LockWorkstation);
    assert_eq!(suspend_failure_message(false), "Mise en veille impossible");
}
