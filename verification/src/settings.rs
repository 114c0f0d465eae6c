//! User settings, saved profiles and the history of past actions.

use vstd::prelude::*;
use crate::power::{PowerAction, SmartConditions, SmartConditionsView};

verus! {

/// A named preset: a duration, an action and its conditions.
#[derive(Debug, Clone)]
pub struct Profile {
    pub id: String,
    pub name: String,
    pub duration_input: String,
    pub action: PowerAction,
    pub conditions: SmartConditions,
}

/// Mathematical form of `Profile`.
pub struct ProfileView {
    pub id: Seq<char>,
    pub name: Seq<char>,
    pub duration_input: Seq<char>,
    pub action: PowerAction,
    pub conditions: SmartConditionsView,
}

impl View for Profile {
    type V = ProfileView;

    open spec fn view(&self) -> ProfileView {
        ProfileView {
            id: self.id@,
            name: self.name@,
            duration_input: self.duration_input@,
            action: self.action,
            conditions: self.conditions@,
        }
    }
}

/// One past action, fired or cancelled.
#[derive(Debug, Clone)]
pub struct HistoryEntry {
    pub at_unix: i64,
    pub action: PowerAction,
    pub action_label: String,
    pub duration_seconds: u64,
    pub duration_label: String,
    pub cancelled: bool,
}

impl HistoryEntry {
    /// A copy of this entry.
    pub fn duplicate(&self) -> (e: HistoryEntry)
        ensures
            e == *self,
    {
        HistoryEntry {
            at_unix: self.at_unix,
            action: self.action,
            action_label: self.action_label.clone(),
            duration_seconds: self.duration_seconds,
            duration_label: self.duration_label.clone(),
            cancelled: self.cancelled,
        }
    }
}

/// A copy of a list of history entries.
pub fn copy_history(h: &Vec<HistoryEntry>) -> (r: Vec<HistoryEntry>)
    ensures
        r@ == h@,
{
    let mut r: Vec<HistoryEntry> = Vec::new();
    let n = h.len();
    for i in 0..n
        invariant
            n == h.len(),
            r@ == h@.take(i as int),
    {
        r.push(h[i].duplicate());
        assert(h@.take(i + 1) == h@.take(i as int).push(h@[i as int]));
    }
    assert(h@.take(n as int) == h@);
    r
}

/// Everything the application remembers between runs.
#[derive(Debug, Clone)]
pub struct AppSettings {
    pub last_action: PowerAction,
    pub last_duration_input: String,
    pub presets: Vec<String>,
    pub minimize_to_tray: bool,
    pub launch_on_startup: bool,
    pub notify_before_seconds: u64,
    pub license_key: Option<String>,
    pub profiles: Vec<Profile>,
    pub history: Vec<HistoryEntry>,
    pub sound_enabled: bool,
    pub notify_at_5m: bool,
    pub notify_at_1m: bool,
    pub widget_enabled: bool,
    pub accent: String,
    pub hotkey_open: String,
    pub hotkey_cancel: String,
    pub auto_check_updates: bool,
}

/// How many past actions the history keeps.
pub const HISTORY_LIMIT: usize = 30;

/// Default of the settings that are on unless turned off.
pub fn default_true() -> (b: bool)
    ensures
        b,
{
    true
}

/// Default accent colour.
pub fn default_accent() -> (s: String)
    ensures
        s@ == "#e2a84a"@,
{
    String::from_str("#e2a84a")
}

/// Default shortcut that opens the window.
pub fn default_hotkey_open() -> (s: String)
    ensures
        s@ == "CommandOrControl+Shift+A"@,
{
    String::from_str("CommandOrControl+Shift+A")
}

/// Default shortcut that cancels the scheduled action.
pub fn default_hotkey_cancel() -> (s: String)
    ensures
        s@ == "CommandOrControl+Shift+X"@,
{
    String::from_str("CommandOrControl+Shift+X")
}

/// Bits of the single-precision value 15.0 (a CPU threshold of 15 %).
pub const FIFTEEN_PERCENT_BITS: u32 = 0x4170_0000;

/// The profiles offered on first run.
pub open spec fn default_profile_views() -> Seq<ProfileView> {
    seq![
        ProfileView {
            id: "film"@,
            name: "Fin de film"@,
            duration_input: "2h"@,
            action: PowerAction::Shutdown,
            conditions: SmartConditionsView::none(),
        },
        ProfileView {
            id: "sleep45"@,
            name: "Je dors"@,
            duration_input: "45m"@,
            action: PowerAction::Sleep,
            conditions: SmartConditionsView::none(),
        },
        ProfileView {
            id: "download"@,
            name: "Fin de download"@,
            duration_input: "30m"@,
            action: PowerAction::Shutdown,
            conditions: SmartConditionsView {
                cpu_below_percent_bits: Some(FIFTEEN_PERCENT_BITS),
                cpu_for_seconds: Some(120),
                ..SmartConditionsView::none()
            },
        },
    ]
}

/// The profiles offered on first run: end of a film, going to sleep, end of a download.
pub fn default_profiles() -> (p: Vec<Profile>)
    ensures
        p@.map_values(|x: Profile| x@) == default_profile_views(),
{
    let mut download = SmartConditions::none();
    download.cpu_below_percent_bits = Some(FIFTEEN_PERCENT_BITS);
    download.cpu_for_seconds = Some(120);
    let p = vec![
        Profile {
            id: String::from_str("film"),
            name: String::from_str("Fin de film"),
            duration_input: String::from_str("2h"),
            action: PowerAction::Shutdown,
            conditions: SmartConditions::none(),
        },
        Profile {
            id: String::from_str("sleep45"),
            name: String::from_str("Je dors"),
            duration_input: String::from_str("45m"),
            action: PowerAction::Sleep,
            conditions: SmartConditions::none(),
        },
        Profile {
            id: String::from_str("download"),
            name: String::from_str("Fin de download"),
            duration_input: String::from_str("30m"),
            action: PowerAction::Shutdown,
            conditions: download,
        },
    ];
    assert(p@.map_values(|x: Profile| x@) =~= default_profile_views());
    p
}

impl Default for AppSettings {
    /// Settings of a first run.
    fn default() -> (s: AppSettings)
        ensures
            s.last_action == PowerAction::Shutdown,
            s.last_duration_input@ == "30m"@,
            s.presets@.map_values(|x: String| x@) == seq!["15m"@, "30m"@, "1h"@, "2h"@],
            s.minimize_to_tray,
            !s.launch_on_startup,
            s.notify_before_seconds == 60,
            s.license_key is None,
            s.profiles@.map_values(|x: Profile| x@) == default_profile_views(),
            s.history@.len() == 0,
            s.sound_enabled,
            s.notify_at_5m,
            s.notify_at_1m,
            !s.widget_enabled,
            s.accent@ == "#e2a84a"@,
            s.hotkey_open@ == "CommandOrControl+Shift+A"@,
            s.hotkey_cancel@ == "CommandOrControl+Shift+X"@,
            s.auto_check_updates,
    {
        let presets = vec![
            String::from_str("15m"),
            String::from_str("30m"),
            String::from_str("1h"),
            String::from_str("2h"),
        ];
        assert(presets@.map_values(|x: String| x@) =~= seq!["15m"@, "30m"@, "1h"@, "2h"@]);
        AppSettings {
            last_action: PowerAction::Shutdown,
            last_duration_input: String::from_str("30m"),
            presets,
            minimize_to_tray: true,
            launch_on_startup: false,
            notify_before_seconds: 60,
            license_key: None,
            profiles: default_profiles(),
            history: Vec::new(),
            sound_enabled: true,
            notify_at_5m: true,
            notify_at_1m: true,
            widget_enabled: false,
            accent: default_accent(),
            hotkey_open: default_hotkey_open(),
            hotkey_cancel: default_hotkey_cancel(),
            auto_check_updates: true,
        }
    }
}

/// The history after recording `entry`: newest first, at most `HISTORY_LIMIT` entries.
pub open spec fn pushed_history(history: Seq<HistoryEntry>, entry: HistoryEntry) -> Seq<
    HistoryEntry,
> {
    let h = seq![entry] + history;
    if h.len() > HISTORY_LIMIT {
        h.take(HISTORY_LIMIT as int)
    } else {
        h
    }
}

/// Records `entry` at the front of the history and keeps the newest `HISTORY_LIMIT`.
pub fn push_history(settings: &mut AppSettings, entry: HistoryEntry)
    ensures
        final(settings).history@ == pushed_history(old(settings).history@, entry),
        *final(settings) == (AppSettings { history: final(settings).history, ..*old(settings) }),
{
    settings.history.insert(0, entry);
    settings.history.truncate(HISTORY_LIMIT);
    assert(settings.history@ =~= pushed_history(old(settings).history@, entry));
}

/// Recording an entry puts it first, keeps what was there in order behind it, and never
/// leaves more than `HISTORY_LIMIT` entries.
pub proof fn lemma_pushed_history(history: Seq<HistoryEntry>, entry: HistoryEntry)
    ensures
        pushed_history(history, entry).len() == if history.len() + 1 > HISTORY_LIMIT {
            HISTORY_LIMIT as int
        } else {
            history.len() + 1 as int
        },
        pushed_history(history, entry)[0] == entry,
        forall|i: int|
            1 <= i < pushed_history(history, entry).len() ==> #[trigger] pushed_history(history, entry)[i]
                == history[i - 1],
{
}

} // verus!
