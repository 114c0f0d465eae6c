//! The scheduled action and the state that the commands of the interface act on.

use vstd::prelude::*;
use crate::conditions::ConditionTracker;
use crate::duration::{duration_label, format_duration_label};
use crate::license::{info_from_key, key_valid, LicenseInfo};
use crate::power::{
    copy_opt_status, lemma_empty_iff_nothing_set, opt_status_view, ConditionStatus, ConditionStatusView, PowerAction,
    SmartConditions, SmartConditionsView,
};
use crate::settings::{push_history, pushed_history, AppSettings, HistoryEntry};
use crate::text::{trim, unicode_uppercase};

verus! {

/// An action waiting for its time (and its conditions).
pub struct ActiveSchedule {
    pub action: PowerAction,
    pub total_seconds: u64,
    pub ends_at_unix: i64,
    pub conditions: SmartConditions,
    pub notified_5m: bool,
    pub notified_1m: bool,
    pub notified_soon: bool,
    pub waiting_for_conditions: bool,
}

/// What the interface shows of the schedule.
pub struct ScheduleSnapshot {
    pub active: bool,
    pub action: Option<PowerAction>,
    pub action_label: Option<String>,
    pub remaining_seconds: u64,
    pub total_seconds: u64,
    pub ends_at_unix: Option<i64>,
    pub conditions: SmartConditions,
    pub condition_status: Option<ConditionStatus>,
    pub waiting_for_conditions: bool,
}

/// Mathematical form of `ScheduleSnapshot`.
pub struct ScheduleSnapshotView {
    pub active: bool,
    pub action: Option<PowerAction>,
    pub action_label: Option<Seq<char>>,
    pub remaining_seconds: u64,
    pub total_seconds: u64,
    pub ends_at_unix: Option<i64>,
    pub conditions: SmartConditionsView,
    pub condition_status: Option<ConditionStatusView>,
    pub waiting_for_conditions: bool,
}

impl View for ScheduleSnapshot {
    type V = ScheduleSnapshotView;

    open spec fn view(&self) -> ScheduleSnapshotView {
        ScheduleSnapshotView {
            active: self.active,
            action: self.action,
            action_label: match self.action_label {
                Some(l) => Some(l@),
                None => None,
            },
            remaining_seconds: self.remaining_seconds,
            total_seconds: self.total_seconds,
            ends_at_unix: self.ends_at_unix,
            conditions: self.conditions@,
            condition_status: opt_status_view(self.condition_status),
            waiting_for_conditions: self.waiting_for_conditions,
        }
    }
}

/// A timer alert shown to the user.
pub struct AlertPayload {
    pub stage: String,
    pub remaining_seconds: u64,
    pub sound: bool,
}

/// A request to schedule an action in `seconds` (or as soon as its conditions hold).
pub struct ScheduleRequest {
    pub action: PowerAction,
    pub seconds: u64,
    pub conditions: Option<SmartConditions>,
}

/// The state that the commands act on.
pub struct SchedulerState {
    pub settings: AppSettings,
    pub schedule: Option<ActiveSchedule>,
    pub tracker: ConditionTracker,
    pub last_condition_status: Option<ConditionStatus>,
}

/// Whether the settings hold a valid Pro license key.
pub open spec fn settings_pro(settings: AppSettings) -> bool {
    match settings.license_key {
        Some(k) => key_valid(k@),
        None => false,
    }
}

/// Whether `ends - now` is an `i64`: the remaining time of a schedule can be computed.
pub open spec fn time_fits(ends: i64, now: i64) -> bool {
    i64::MIN <= ends - now <= i64::MAX
}

/// Seconds left until `ends`, never negative.
pub open spec fn seconds_left(ends: i64, now: i64) -> int {
    if ends - now > 0 {
        ends - now
    } else {
        0
    }
}

/// The snapshot that the interface gets of `state` at time `now`.
pub open spec fn snapshot_of(state: SchedulerState, now: i64) -> ScheduleSnapshotView {
    match state.schedule {
        Some(s) => ScheduleSnapshotView {
            active: true,
            action: Some(s.action),
            action_label: Some(s.action.spec_label()),
            remaining_seconds: if s.waiting_for_conditions {
                0
            } else {
                seconds_left(s.ends_at_unix, now) as u64
            },
            total_seconds: s.total_seconds,
            ends_at_unix: Some(s.ends_at_unix),
            conditions: s.conditions@,
            condition_status: opt_status_view(state.last_condition_status),
            waiting_for_conditions: s.waiting_for_conditions,
        },
        None => idle_snapshot(),
    }
}

/// The snapshot shown when nothing is scheduled.
pub open spec fn idle_snapshot() -> ScheduleSnapshotView {
    ScheduleSnapshotView {
        active: false,
        action: None,
        action_label: None,
        remaining_seconds: 0,
        total_seconds: 0,
        ends_at_unix: None,
        conditions: SmartConditionsView::none(),
        condition_status: None,
        waiting_for_conditions: false,
    }
}

/// Seconds left until `ends`, never negative.
pub fn remaining_until(ends: i64, now: i64) -> (r: u64)
    requires
        time_fits(ends, now),
    ensures
        r == seconds_left(ends, now),
{
    let d = ends - now;
    if d > 0 {
        d as u64
    } else {
        0
    }
}

/// `x` read as a two's complement 64-bit integer (what `x as i64` gives).
pub open spec fn as_signed(x: u64) -> int {
    if x <= i64::MAX {
        x as int
    } else {
        x - 0x1_0000_0000_0000_0000
    }
}

fn to_signed(x: u64) -> (r: i64)
    ensures
        r == as_signed(x),
{
    if x <= i64::MAX as u64 {
        x as i64
    } else {
        -((u64::MAX - x) as i64) - 1
    }
}

/// Length of a schedule asked for `seconds`: zero (an action that only waits for its
/// conditions) counts as one second.
pub open spec fn schedule_total(seconds: u64) -> u64 {
    if seconds == 0 {
        1
    } else {
        seconds
    }
}

/// When a schedule of `seconds` asked for at `now` ends.
pub open spec fn schedule_end(now: i64, seconds: u64) -> int {
    now + as_signed(schedule_total(seconds))
}

/// Whether the settings hold a valid Pro license key.
pub fn is_pro(settings: &AppSettings) -> (b: bool)
    ensures
        b == settings_pro(*settings),
{
    match &settings.license_key {
        Some(k) => info_from_key(Some(k.as_str())).is_pro,
        None => info_from_key(None).is_pro,
    }
}

/// Refuses the Pro features (sleep, hibernate and lock; conditions) without a Pro license.
pub fn ensure_allowed(action: PowerAction, conditions: &SmartConditions, pro: bool) -> (r: Result<
    (),
    String,
>)
    ensures
        match r {
            Ok(_) => pro || (!action.spec_requires_pro() && conditions@.is_empty()),
            Err(m) => if action.spec_requires_pro() && !pro {
                m@ == "Fonction Pro : veille, hibernation et verrouillage."@
            } else {
                !pro && !conditions@.is_empty()
                    && m@ == "Fonction Pro : conditions réservées à la licence Pro."@
            },
        },
{
    if action.requires_pro() && !pro {
        return Err(String::from_str("Fonction Pro : veille, hibernation et verrouillage."));
    }
    if conditions.requires_pro() && !pro {
        return Err(String::from_str("Fonction Pro : conditions réservées à la licence Pro."));
    }
    Ok(())
}

/// The conditions a request asks for (none when it names none).
pub open spec fn requested_conditions(request: ScheduleRequest) -> SmartConditionsView {
    match request.conditions {
        Some(c) => c@,
        None => SmartConditionsView::none(),
    }
}

/// Whether a request is refused: a zero delay without a condition, or a Pro action or a
/// condition without a Pro license.
pub open spec fn schedule_refused(settings: AppSettings, request: ScheduleRequest) -> bool {
    let pro = settings_pro(settings);
    ||| request.seconds == 0 && requested_conditions(request).is_empty()
    ||| request.action.spec_requires_pro() && !pro
    ||| !requested_conditions(request).is_empty() && !pro
}

/// With a Pro license, a request whose conditions set a CPU threshold is accepted, whatever
/// its action and its delay (a zero delay included): the threshold is a condition.
pub proof fn lemma_cpu_condition_accepted(settings: AppSettings, request: ScheduleRequest)
    requires
        settings_pro(settings),
        request.conditions matches Some(c) && c.cpu_below_percent_bits is Some,
    ensures
        !schedule_refused(settings, request),
{
    lemma_empty_iff_nothing_set(requested_conditions(request));
}

impl SchedulerState {
    /// Whether `request` may be scheduled, and the message of its refusal otherwise.
    pub fn check_schedule_request(&self, request: &ScheduleRequest) -> (r: Result<(), String>)
        ensures
            ({
                let conditions = requested_conditions(*request);
                let pro = settings_pro(self.settings);
                if request.seconds == 0 && conditions.is_empty() {
                    r matches Err(m) && m@
                        == "Le délai doit être supérieur à 0, ou ajoutez une condition."@
                } else if request.action.spec_requires_pro() && !pro {
                    r matches Err(m) && m@ == "Fonction Pro : veille, hibernation et verrouillage."@
                } else if !conditions.is_empty() && !pro {
                    r matches Err(m) && m@
                        == "Fonction Pro : conditions réservées à la licence Pro."@
                } else {
                    r is Ok
                }
            }),
    {
        let none = SmartConditions::none();
        let conditions = match &request.conditions {
            Some(c) => c,
            None => &none,
        };
        if request.seconds == 0 && conditions.is_empty() {
            return Err(
                String::from_str("Le délai doit être supérieur à 0, ou ajoutez une condition."),
            );
        }
        let pro = is_pro(&self.settings);
        ensure_allowed(request.action, conditions, pro)
    }
}

impl SchedulerState {
    /// The state at start-up: the loaded settings and nothing scheduled.
    pub fn new(settings: AppSettings) -> (s: SchedulerState)
        ensures
            s.settings == settings,
            s.schedule is None,
            s.tracker.cpu_ok_for_seconds == 0,
            s.last_condition_status is None,
    {
        SchedulerState {
            settings,
            schedule: None,
            tracker: ConditionTracker { cpu_ok_for_seconds: 0 },
            last_condition_status: None,
        }
    }

    /// What the interface shows of the schedule at time `now`.
    pub fn snapshot_from(&self, now: i64) -> (snap: ScheduleSnapshot)
        requires
            self.schedule matches Some(s) ==> time_fits(s.ends_at_unix, now),
        ensures
            snap@ == snapshot_of(*self, now),
    {
        match &self.schedule {
            Some(s) => {
                let remaining = if s.waiting_for_conditions {
                    0
                } else {
                    remaining_until(s.ends_at_unix, now)
                };
                ScheduleSnapshot {
                    active: true,
                    action: Some(s.action),
                    action_label: Some(String::from_str(s.action.label())),
                    remaining_seconds: remaining,
                    total_seconds: s.total_seconds,
                    ends_at_unix: Some(s.ends_at_unix),
                    conditions: s.conditions.duplicate(),
                    condition_status: copy_opt_status(&self.last_condition_status),
                    waiting_for_conditions: s.waiting_for_conditions,
                }
            },
            None => ScheduleSnapshot {
                active: false,
                action: None,
                action_label: None,
                remaining_seconds: 0,
                total_seconds: 0,
                ends_at_unix: None,
                conditions: SmartConditions::none(),
                condition_status: None,
                waiting_for_conditions: false,
            },
        }
    }

    /// Schedules `request.action` in `request.seconds` from `now`, replacing any schedule.
    /// A zero delay needs a condition; Pro actions and conditions need a Pro license.
    pub fn schedule_power(&mut self, request: ScheduleRequest, now: i64) -> (r: Result<
        ScheduleSnapshot,
        String,
    >)
        requires
            schedule_refused(old(self).settings, request) || i64::MIN <= schedule_end(
                now,
                request.seconds,
            ) <= i64::MAX,
        ensures
            ({
                let conditions = match request.conditions {
                    Some(c) => c,
                    None => SmartConditions {
                        cpu_below_percent_bits: None,
                        cpu_for_seconds: None,
                        process_closed: None,
                        idle_seconds: None,
                        target_unix: None,
                    },
                };
                let pro = settings_pro(old(self).settings);
                if request.seconds == 0 && conditions@.is_empty() {
                    &&& r matches Err(m) && m@
                        == "Le délai doit être supérieur à 0, ou ajoutez une condition."@
                    &&& *final(self) == *old(self)
                } else if request.action.spec_requires_pro() && !pro {
                    &&& r matches Err(m) && m@
                        == "Fonction Pro : veille, hibernation et verrouillage."@
                    &&& *final(self) == *old(self)
                } else if !conditions@.is_empty() && !pro {
                    &&& r matches Err(m) && m@
                        == "Fonction Pro : conditions réservées à la licence Pro."@
                    &&& *final(self) == *old(self)
                } else {
                    &&& final(self).schedule == Some(
                        ActiveSchedule {
                            action: request.action,
                            total_seconds: schedule_total(request.seconds),
                            ends_at_unix: schedule_end(now, request.seconds) as i64,
                            conditions,
                            notified_5m: false,
                            notified_1m: false,
                            notified_soon: false,
                            waiting_for_conditions: false,
                        },
                    )
                    &&& final(self).settings == (AppSettings {
                        last_action: request.action,
                        ..old(self).settings
                    })
                    &&& final(self).tracker.cpu_ok_for_seconds == 0
                    &&& final(self).last_condition_status == old(self).last_condition_status
                    &&& r matches Ok(snap) && snap@ == snapshot_of(*final(self), now)
                }
            }),
    {
        match self.check_schedule_request(&request) {
            Err(e) => return Err(e),
            Ok(_) => {},
        }
        let conditions = match request.conditions {
            Some(c) => c,
            None => SmartConditions::none(),
        };
        let total = if request.seconds == 0 {
            1
        } else {
            request.seconds
        };
        let ends = now + to_signed(total);
        self.tracker = ConditionTracker { cpu_ok_for_seconds: 0 };
        self.schedule = Some(
            ActiveSchedule {
                action: request.action,
                total_seconds: total,
                ends_at_unix: ends,
                conditions,
                notified_5m: false,
                notified_1m: false,
                notified_soon: false,
                waiting_for_conditions: false,
            },
        );
        self.settings.last_action = request.action;
        Ok(self.snapshot_from(now))
    }

    /// Cancels the schedule, if any, recording it in the history as cancelled at `now`,
    /// and forgets the condition state.
    pub fn do_cancel(&mut self, now: i64) -> (snap: ScheduleSnapshot)
        ensures
            match old(self).schedule {
                Some(s) => {
                    &&& final(self).settings.history@ == pushed_history(
                        old(self).settings.history@,
                        final(self).settings.history@[0],
                    )
                    &&& final(self).settings == (AppSettings {
                        history: final(self).settings.history,
                        ..old(self).settings
                    })
                    &&& cancelled_entry(final(self).settings.history@[0], s, now)
                },
                None => final(self).settings == old(self).settings,
            },
            final(self).schedule is None,
            final(self).last_condition_status is None,
            final(self).tracker.cpu_ok_for_seconds == 0,
            snap@ == idle_snapshot(),
    {
        crate::power::cancel_windows_shutdown();
        let taken = self.schedule.take();
        match taken {
            Some(schedule) => {
                let entry = HistoryEntry {
                    at_unix: now,
                    action: schedule.action,
                    action_label: String::from_str(schedule.action.label()),
                    duration_seconds: schedule.total_seconds,
                    duration_label: format_duration_label(schedule.total_seconds),
                    cancelled: true,
                };
                push_history(&mut self.settings, entry);
            },
            None => {},
        }
        self.last_condition_status = None;
        self.tracker = ConditionTracker { cpu_ok_for_seconds: 0 };
        self.snapshot_from(now)
    }
}

/// `e` records `s` as cancelled at `now`.
pub open spec fn cancelled_entry(e: HistoryEntry, s: ActiveSchedule, now: i64) -> bool {
    &&& e.at_unix == now
    &&& e.action == s.action
    &&& e.action_label@ == s.action.spec_label()
    &&& e.duration_seconds == s.total_seconds
    &&& e.duration_label@ == duration_label(s.total_seconds as nat)
    &&& e.cancelled
}

/// How many presets and profiles the free version keeps.
pub const FREE_PRESETS: usize = 4;
pub const FREE_PROFILES: usize = 3;

/// The license key that saving `incoming` over `current` keeps: the incoming one, or the
/// current one when none comes in.
pub open spec fn merged_license(current: AppSettings, incoming: AppSettings) -> Option<String> {
    match incoming.license_key {
        Some(k) => Some(k),
        None => current.license_key,
    }
}

/// Whether the settings that saving `incoming` over `current` keeps are Pro.
pub open spec fn merged_pro(current: AppSettings, incoming: AppSettings) -> bool {
    match merged_license(current, incoming) {
        Some(k) => key_valid(k@),
        None => false,
    }
}

/// `v` cut to `limit` items when the settings are not Pro.
pub open spec fn free_limit<T>(v: Seq<T>, limit: int, pro: bool) -> Seq<T> {
    if !pro && v.len() > limit {
        v.take(limit)
    } else {
        v
    }
}

/// Without a Pro license, saved settings keep at most `FREE_PRESETS` presets and
/// `FREE_PROFILES` profiles; with one, they keep all of them.
pub proof fn lemma_free_limits<T>(v: Seq<T>, limit: int, pro: bool)
    requires
        limit >= 0,
    ensures
        !pro ==> free_limit(v, limit, pro).len() <= limit,
        pro ==> free_limit(v, limit, pro) == v,
        free_limit(v, limit, pro) == v.take(free_limit(v, limit, pro).len() as int),
{
    assert(v.take(v.len() as int) == v);
}

impl SchedulerState {
    /// The settings that saving `new_settings` stores: a missing license key and an empty
    /// history are taken from the current settings, and without a Pro license the presets
    /// and profiles are cut to what the free version keeps.
    pub fn accept_settings(&self, new_settings: AppSettings) -> (r: AppSettings)
        ensures
            r.license_key == merged_license(self.settings, new_settings),
            r.history@ == if new_settings.history@.len() == 0 {
                self.settings.history@
            } else {
                new_settings.history@
            },
            r.presets@ == free_limit(
                new_settings.presets@,
                FREE_PRESETS as int,
                merged_pro(self.settings, new_settings),
            ),
            r.profiles@ == free_limit(
                new_settings.profiles@,
                FREE_PROFILES as int,
                merged_pro(self.settings, new_settings),
            ),
            r == (AppSettings {
                license_key: r.license_key,
                history: r.history,
                presets: r.presets,
                profiles: r.profiles,
                ..new_settings
            }),
    {
        let mut n = new_settings;
        if n.license_key.is_none() {
            n.license_key = crate::power::copy_opt_string(&self.settings.license_key);
        }
        if n.history.len() == 0 && self.settings.history.len() > 0 {
            n.history = crate::settings::copy_history(&self.settings.history);
        }
        let pro = is_pro(&n);
        if !pro && n.presets.len() > FREE_PRESETS {
            n.presets.truncate(FREE_PRESETS);
        }
        if !pro && n.profiles.len() > FREE_PROFILES {
            n.profiles.truncate(FREE_PROFILES);
        }
        n
    }

    /// The license state of the current settings.
    pub fn license(&self) -> (info: LicenseInfo)
        ensures
            crate::license::describes_key(info, crate::power::opt_string_view(self.settings.license_key)),
    {
        match &self.settings.license_key {
            Some(k) => info_from_key(Some(k.as_str())),
            None => info_from_key(None),
        }
    }

    /// Stores `key` (trimmed and upper-cased) when it is a valid license key.
    pub fn activate_license(&mut self, key: &str) -> (r: Result<LicenseInfo, String>)
        ensures
            if key_valid(key@) {
                &&& final(self).settings.license_key matches Some(k) && k@ == unicode_uppercase(
                    trim(key@),
                )
                &&& final(self).settings == (AppSettings {
                    license_key: final(self).settings.license_key,
                    ..old(self).settings
                })
                &&& final(self).schedule == old(self).schedule
                &&& final(self).tracker == old(self).tracker
                &&& final(self).last_condition_status == old(self).last_condition_status
                &&& r matches Ok(info) && crate::license::describes_key(
                    info,
                    crate::power::opt_string_view(final(self).settings.license_key),
                )
            } else {
                &&& r matches Err(m) && m@ == "Clé de licence invalide."@
                &&& *final(self) == *old(self)
            },
    {
        if !crate::license::validate_key(key) {
            return Err(String::from_str("Clé de licence invalide."));
        }
        let trimmed = crate::text::string_of(&crate::text::trim_chars(&crate::text::chars_of(key)));
        let stored = crate::text::to_uppercase(trimmed.as_str());
        self.settings.license_key = Some(stored);
        Ok(self.license())
    }

    /// Forgets the license key.
    pub fn deactivate_license(&mut self) -> (info: LicenseInfo)
        ensures
            final(self).settings == (AppSettings { license_key: None, ..old(self).settings }),
            final(self).schedule == old(self).schedule,
            final(self).tracker == old(self).tracker,
            final(self).last_condition_status == old(self).last_condition_status,
            crate::license::describes_key(info, None),
    {
        self.settings.license_key = None;
        info_from_key(None)
    }

    /// Empties the history.
    pub fn clear_history(&mut self)
        ensures
            final(self).settings.history@.len() == 0,
            final(self).settings == (AppSettings {
                history: final(self).settings.history,
                ..old(self).settings
            }),
            final(self).schedule == old(self).schedule,
            final(self).tracker == old(self).tracker,
            final(self).last_condition_status == old(self).last_condition_status,
    {
        self.settings.history.clear();
    }

    /// Shows or hides the floating widget.
    pub fn set_widget_visible(&mut self, visible: bool)
        ensures
            final(self).settings == (AppSettings {
                widget_enabled: visible,
                ..old(self).settings
            }),
            final(self).schedule == old(self).schedule,
            final(self).tracker == old(self).tracker,
            final(self).last_condition_status == old(self).last_condition_status,
    {
        self.settings.widget_enabled = visible;
    }
}

/// Whether the floating widget is shown: it is enabled and an action is scheduled.
pub fn widget_should_show(settings: &AppSettings, snap: &ScheduleSnapshot) -> (b: bool)
    ensures
        b == (settings.widget_enabled && snap.active),
{
    settings.widget_enabled && snap.active
}

/// Whether closing the window `label` only hides it: the floating widget always hides, and
/// the other windows hide when the settings keep the application in the tray.
pub fn hides_on_close(label: &str, settings: &AppSettings) -> (b: bool)
    ensures
        b == (label@ == "widget"@ || settings.minimize_to_tray),
{
    crate::text::chars_equal(&crate::text::chars_of(label), &crate::text::chars_of("widget"))
        || settings.minimize_to_tray
}

/// Due time of a wake timer armed for `unix` at `now`, in the system's relative form:
/// minus the delay in 100-nanosecond units, saturating. None when `unix` is not in the
/// future (the timer is then only cleared).
pub fn wake_due_time(unix: i64, now: i64) -> (r: Option<i64>)
    requires
        time_fits(unix, now),
    ensures
        match r {
            None => unix - now <= 0,
            Some(due) => unix - now > 0 && due == -(if (unix - now) * 10_000_000 > i64::MAX {
                i64::MAX as int
            } else {
                (unix - now) * 10_000_000
            }),
        },
{
    let delta = unix - now;
    if delta <= 0 {
        return None;
    }
    let scaled = if delta > i64::MAX / 10_000_000 {
        assert(delta * 10_000_000 > i64::MAX) by (nonlinear_arith)
            requires
                delta > i64::MAX / 10_000_000,
        ;
        i64::MAX
    } else {
        assert(delta * 10_000_000 <= i64::MAX) by (nonlinear_arith)
            requires
                delta <= i64::MAX / 10_000_000,
                delta > 0,
        ;
        delta * 10_000_000
    };
    Some(-scaled)
}

} // verus!
