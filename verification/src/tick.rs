//! One second of the timer: conditions evaluated, alerts raised, the action fired.

use vstd::prelude::*;
use crate::conditions::{
    evaluated_status, lemma_all_met_iff_each_condition, next_cpu_count, ConditionReadings,
};
use crate::duration::{duration_label, format_duration_label};
use crate::power::{lemma_empty_iff_nothing_set, opt_status_view};
use crate::schedule::{
    remaining_until, seconds_left, snapshot_of, time_fits, ActiveSchedule, AlertPayload,
    ScheduleSnapshot, ScheduleSnapshotView, SchedulerState,
};
use crate::settings::{push_history, pushed_history, AppSettings, HistoryEntry};
use crate::text::{chars_of, decimal_2, push_decimal_2, push_str, string_of, trim};

verus! {

/// A timer alert: a notification and the matching event for the interface.
pub struct TimerAlert {
    pub stage: String,
    pub remaining_seconds: u64,
    pub sound: bool,
    pub body: String,
}

impl TimerAlert {
    pub open spec fn parts(self) -> (Seq<char>, u64, bool, Seq<char>) {
        (self.stage@, self.remaining_seconds, self.sound, self.body@)
    }
}

/// What one second of the timer asks the application to do.
pub struct TickOutcome {
    /// The snapshot to publish.
    pub snapshot: ScheduleSnapshot,
    /// Title of the main window and tooltip of the tray icon.
    pub title: String,
    /// Title of the floating widget.
    pub widget_title: String,
    /// Alerts to raise, in order.
    pub alerts: Vec<TimerAlert>,
    /// The action to run now; the history then holds a new entry and the settings are to be
    /// saved.
    pub fired: Option<crate::power::PowerAction>,
    /// Notification text announcing the fired action.
    pub fire_notification: Option<String>,
    /// Alert event announcing the fired action.
    pub fire_alert: Option<AlertPayload>,
}

/// The 5-minute alert is due: enabled, not yet given, not waiting, between 1 and 5 minutes left.
pub open spec fn five_minute_alert_due(settings: AppSettings, s: ActiveSchedule, left: int) -> bool {
    settings.notify_at_5m && !s.notified_5m && !s.waiting_for_conditions && left <= 300 && left
        > 60
}

/// The 1-minute alert is due: enabled, not yet given, not waiting, at most a minute left.
pub open spec fn one_minute_alert_due(settings: AppSettings, s: ActiveSchedule, left: int) -> bool {
    settings.notify_at_1m && !s.notified_1m && !s.waiting_for_conditions && left <= 60 && left
        > 0
}

/// Seconds before the end at which the "imminent" alert is given (at least one).
pub open spec fn notify_before(settings: AppSettings) -> int {
    if settings.notify_before_seconds > 1 {
        settings.notify_before_seconds as int
    } else {
        1
    }
}

/// The "imminent" alert is due: the 1-minute alert is off, and it is not yet given.
pub open spec fn soon_alert_due(settings: AppSettings, s: ActiveSchedule, left: int) -> bool {
    &&& !one_minute_alert_due(settings, s, left)
    &&& !s.notified_soon
    &&& !s.waiting_for_conditions
    &&& left <= notify_before(settings)
    &&& left > 0
    &&& !settings.notify_at_1m
}

/// The alerts of one second, in order.
pub open spec fn due_alerts(settings: AppSettings, s: ActiveSchedule, left: int) -> Seq<
    (Seq<char>, u64, bool, Seq<char>),
> {
    let sound = settings.sound_enabled;
    let five: Seq<(Seq<char>, u64, bool, Seq<char>)> = if five_minute_alert_due(
        settings,
        s,
        left,
    ) {
        seq![("5m"@, left as u64, sound, "Plus que 5 minutes avant l'action."@)]
    } else {
        Seq::empty()
    };
    let one: Seq<(Seq<char>, u64, bool, Seq<char>)> = if one_minute_alert_due(settings, s, left) {
        seq![("1m"@, left as u64, sound, "Plus qu'une minute, action imminente."@)]
    } else if soon_alert_due(settings, s, left) {
        seq![("soon"@, left as u64, sound, "Action imminente."@)]
    } else {
        Seq::empty()
    };
    five + one
}

/// Whether the conditions of `s` hold after this second's evaluation.
pub open spec fn conditions_hold(
    s: ActiveSchedule,
    readings: Option<ConditionReadings>,
    count: u64,
    now: i64,
) -> bool {
    if s.conditions@.is_empty() {
        true
    } else {
        evaluated_status(s.conditions@, readings->0, count, now).all_met
    }
}

/// The schedule after one second in which it did not fire.
pub open spec fn advanced_schedule(
    settings: AppSettings,
    s: ActiveSchedule,
    now: i64,
    hold: bool,
) -> ActiveSchedule {
    let left = seconds_left(s.ends_at_unix, now);
    ActiveSchedule {
        notified_5m: s.notified_5m || five_minute_alert_due(settings, s, left),
        notified_1m: s.notified_1m || one_minute_alert_due(settings, s, left),
        notified_soon: s.notified_soon || one_minute_alert_due(settings, s, left)
            || soon_alert_due(settings, s, left),
        waiting_for_conditions: s.waiting_for_conditions || (now >= s.ends_at_unix && !hold),
        ..s
    }
}

/// Title of the main window for a snapshot.
pub open spec fn title_of(snap: ScheduleSnapshotView) -> Seq<char> {
    if snap.active {
        if snap.waiting_for_conditions {
            "Aquerty Stop - en attente"@
        } else {
            "Aquerty Stop - "@ + decimal_2((snap.remaining_seconds / 60) as nat) + ":"@
                + decimal_2((snap.remaining_seconds % 60) as nat)
        }
    } else {
        "Aquerty Stop"@
    }
}

/// `e` records `s` as fired at `now`.
pub open spec fn fired_entry(e: HistoryEntry, s: ActiveSchedule, now: i64) -> bool {
    &&& e.at_unix == now
    &&& e.action == s.action
    &&& e.action_label@ == s.action.spec_label()
    &&& e.duration_seconds == s.total_seconds
    &&& e.duration_label@ == duration_label(s.total_seconds as nat)
    &&& !e.cancelled
}


/// Title of the main window for a snapshot.
pub fn window_title(snap: &ScheduleSnapshot) -> (t: String)
    ensures
        t@ == title_of(snap@),
{
    if snap.active {
        if snap.waiting_for_conditions {
            String::from_str("Aquerty Stop - en attente")
        } else {
            let mut v = chars_of("Aquerty Stop - ");
            push_decimal_2(&mut v, snap.remaining_seconds / 60);
            push_str(&mut v, ":");
            push_decimal_2(&mut v, snap.remaining_seconds % 60);
            string_of(&v)
        }
    } else {
        String::from_str("Aquerty Stop")
    }
}

fn make_alert(stage: &str, remaining: u64, sound: bool, body: &str) -> (a: TimerAlert)
    ensures
        a.parts() == (stage@, remaining, sound, body@),
{
    TimerAlert {
        stage: String::from_str(stage),
        remaining_seconds: remaining,
        sound,
        body: String::from_str(body),
    }
}

/// Raises the alerts that are due for `s` with `left` seconds left, marking them given.
fn raise_alerts(settings: &AppSettings, s: &mut ActiveSchedule, left: u64) -> (alerts: Vec<
    TimerAlert,
>)
    ensures
        alerts@.map_values(|a: TimerAlert| a.parts()) == due_alerts(*settings, *old(s), left as int),
        *final(s) == (ActiveSchedule {
            notified_5m: old(s).notified_5m || five_minute_alert_due(*settings, *old(s), left as int),
            notified_1m: old(s).notified_1m || one_minute_alert_due(*settings, *old(s), left as int),
            notified_soon: old(s).notified_soon || one_minute_alert_due(
                *settings,
                *old(s),
                left as int,
            ) || soon_alert_due(*settings, *old(s), left as int),
            ..*old(s)
        }),
{
    let sound = settings.sound_enabled;
    let notify_before = if settings.notify_before_seconds > 1 {
        settings.notify_before_seconds
    } else {
        1
    };
    let mut alerts: Vec<TimerAlert> = Vec::new();
    let waiting = s.waiting_for_conditions;
    if settings.notify_at_5m && !s.notified_5m && !waiting && left <= 300 && left > 60 {
        s.notified_5m = true;
        alerts.push(make_alert("5m", left, sound, "Plus que 5 minutes avant l'action."));
    }
    if settings.notify_at_1m && !s.notified_1m && !waiting && left <= 60 && left > 0 {
        s.notified_1m = true;
        s.notified_soon = true;
        alerts.push(make_alert("1m", left, sound, "Plus qu'une minute, action imminente."));
    } else if !s.notified_soon && !waiting && left <= notify_before && left > 0
        && !settings.notify_at_1m {
        s.notified_soon = true;
        alerts.push(make_alert("soon", left, sound, "Action imminente."));
    }
    assert(alerts@.map_values(|a: TimerAlert| a.parts()) =~= due_alerts(
        *settings,
        *old(s),
        left as int,
    ));
    alerts
}

impl SchedulerState {
    /// One second of the timer at time `now`. With nothing scheduled, nothing happens.
    /// Otherwise the conditions (if any) are evaluated on `readings`, due alerts are raised,
    /// and the action fires once its time has come and its conditions hold: it then leaves
    /// the schedule for the history. When its time has come but its conditions do not
    /// hold, the schedule waits for them.
    #[verifier::rlimit(60)]
    pub fn tick(&mut self, now: i64, readings: Option<ConditionReadings>) -> (r: Option<
        TickOutcome,
    >)
        requires
            old(self).schedule matches Some(s) ==> time_fits(s.ends_at_unix, now) && (
            !s.conditions@.is_empty() ==> readings is Some),
        ensures
            match old(self).schedule {
                None => r is None && *final(self) == *old(self),
                Some(s) => {
                    let left = seconds_left(s.ends_at_unix, now);
                    let hold = conditions_hold(
                        s,
                        readings,
                        final(self).tracker.cpu_ok_for_seconds,
                        now,
                    );
                    let fired = now >= s.ends_at_unix && hold;
                    &&& if s.conditions@.is_empty() {
                        &&& final(self).tracker == old(self).tracker
                        &&& final(self).last_condition_status is None
                    } else {
                        &&& final(self).tracker.cpu_ok_for_seconds == next_cpu_count(
                            s.conditions@,
                            old(self).tracker.cpu_ok_for_seconds,
                            readings->0.cpu_within_threshold,
                        )
                        &&& opt_status_view(final(self).last_condition_status) == Some(
                            evaluated_status(
                                s.conditions@,
                                readings->0,
                                final(self).tracker.cpu_ok_for_seconds,
                                now,
                            ),
                        )
                    }
                    &&& r matches Some(out) && {
                        &&& out.alerts@.map_values(|a: TimerAlert| a.parts()) == due_alerts(
                            old(self).settings,
                            s,
                            left,
                        )
                        &&& out.snapshot@ == snapshot_of(*final(self), now)
                        &&& out.title@ == title_of(out.snapshot@)
                        &&& out.widget_title@ == duration_label(
                            out.snapshot.remaining_seconds as nat,
                        )
                        // it fires exactly when its time has come and every set condition
                        // holds at this second, waiting or not
                        &&& out.fired is Some <==> (now >= s.ends_at_unix && (
                        (s.conditions@.cpu_below_percent_bits is Some
                            ==> final(self).tracker.cpu_ok_for_seconds >= 1 && (
                        s.conditions@.cpu_for_seconds is Some
                            ==> final(self).tracker.cpu_ok_for_seconds
                            >= s.conditions@.cpu_for_seconds->0)) && (
                        s.conditions@.idle_seconds is Some ==> readings->0.idle_seconds
                            >= s.conditions@.idle_seconds->0) && (s.conditions@.target_unix is Some
                            ==> now >= s.conditions@.target_unix->0) && (
                        s.conditions@.process_closed is Some && trim(
                            s.conditions@.process_closed->0,
                        ).len() > 0 ==> !readings->0.process_running)))
                        &&& if fired {
                            &&& final(self).schedule is None
                            &&& final(self).settings.history@ == pushed_history(
                                old(self).settings.history@,
                                final(self).settings.history@[0],
                            )
                            &&& fired_entry(final(self).settings.history@[0], s, now)
                            &&& final(self).settings == (AppSettings {
                                history: final(self).settings.history,
                                ..old(self).settings
                            })
                            &&& out.fired == Some(s.action)
                            &&& out.fire_notification matches Some(m) && m@
                                == s.action.spec_label() + " en cours…"@
                            &&& out.fire_alert matches Some(a) && a.stage@ == "fire"@
                                && a.remaining_seconds == 0 && a.sound
                                == old(self).settings.sound_enabled
                        } else {
                            &&& final(self).schedule == Some(
                                advanced_schedule(old(self).settings, s, now, hold),
                            )
                            &&& final(self).settings == old(self).settings
                            &&& out.fired is None
                            &&& out.fire_notification is None
                            &&& out.fire_alert is None
                        }
                    }
                },
            },
    {
        let mut sched = match self.schedule.take() {
            None => return None,
            Some(s) => s,
        };
        let ghost s0 = sched;
        let status = if !sched.conditions.is_empty() {
            match &readings {
                Some(rd) => Some(self.tracker.evaluate(rd, &sched.conditions, now)),
                None => None,
            }
        } else {
            None
        };
        let hold = match &status {
            Some(st) => st.all_met,
            None => true,
        };
        self.last_condition_status = status;
        let left = remaining_until(sched.ends_at_unix, now);
        let timer_done = now >= sched.ends_at_unix;
        let alerts = raise_alerts(&self.settings, &mut sched, left);
        if timer_done && !hold {
            sched.waiting_for_conditions = true;
        }
        let fired = timer_done && hold;
        let action = sched.action;
        let mut fire_notification: Option<String> = None;
        let mut fire_alert: Option<AlertPayload> = None;
        if fired {
            let entry = HistoryEntry {
                at_unix: now,
                action: sched.action,
                action_label: String::from_str(sched.action.label()),
                duration_seconds: sched.total_seconds,
                duration_label: format_duration_label(sched.total_seconds),
                cancelled: false,
            };
            push_history(&mut self.settings, entry);
            fire_notification = Some(String::from_str(action.label()).concat(" en cours…"));
            fire_alert = Some(
                AlertPayload {
                    stage: String::from_str("fire"),
                    remaining_seconds: 0,
                    sound: self.settings.sound_enabled,
                },
            );
        } else {
            self.schedule = Some(sched);
        }
        proof {
            lemma_hold_iff_each_condition(s0, readings, self.tracker.cpu_ok_for_seconds, now);
        }
        let snapshot = self.snapshot_from(now);
        let title = window_title(&snapshot);
        let widget_title = format_duration_label(snapshot.remaining_seconds);
        Some(
            TickOutcome {
                snapshot,
                title,
                widget_title,
                alerts,
                fired: if fired {
                    Some(action)
                } else {
                    None
                },
                fire_notification,
                fire_alert,
            },
        )
    }
}

/// The verdict that lets a second fire holds exactly when every condition that is set holds
/// at that second, whether or not the schedule was already waiting: the CPU load has stayed
/// under its threshold for the seconds asked for (at least one), the user has been idle
/// long enough, the target time is reached, and the watched process does not run. With no
/// condition set it always holds.
pub proof fn lemma_hold_iff_each_condition(
    s: ActiveSchedule,
    readings: Option<ConditionReadings>,
    count: u64,
    now: i64,
)
    ensures
        conditions_hold(s, readings, count, now) <==> ((s.conditions@.cpu_below_percent_bits
            is Some ==> count >= 1 && (s.conditions@.cpu_for_seconds is Some ==> count
            >= s.conditions@.cpu_for_seconds->0)) && (s.conditions@.idle_seconds is Some
            ==> readings->0.idle_seconds >= s.conditions@.idle_seconds->0) && (
        s.conditions@.target_unix is Some ==> now >= s.conditions@.target_unix->0) && (
        s.conditions@.process_closed is Some && trim(s.conditions@.process_closed->0).len() > 0
            ==> !readings->0.process_running)),
{
    lemma_empty_iff_nothing_set(s.conditions@);
    lemma_all_met_iff_each_condition(s.conditions@, readings->0, count, now);
}

/// Alerts are given at most once per schedule: a second that does not fire marks every
/// alert it raised as given, so that alert is due at no later second, whatever the
/// settings then are; the marks and the waiting state are never taken back; and a schedule
/// that waits for its conditions raises no alert.
pub proof fn lemma_alerts_given_once(
    settings: AppSettings,
    s: ActiveSchedule,
    now: i64,
    hold: bool,
    later_settings: AppSettings,
    later_left: int,
)
    ensures
        ({
            let left = seconds_left(s.ends_at_unix, now);
            let a = advanced_schedule(settings, s, now, hold);
            &&& s.notified_5m ==> a.notified_5m
            &&& s.notified_1m ==> a.notified_1m
            &&& s.notified_soon ==> a.notified_soon
            &&& s.waiting_for_conditions ==> a.waiting_for_conditions
            &&& five_minute_alert_due(settings, s, left) ==> !five_minute_alert_due(
                later_settings,
                a,
                later_left,
            )
            &&& one_minute_alert_due(settings, s, left) ==> !one_minute_alert_due(
                later_settings,
                a,
                later_left,
            ) && !soon_alert_due(later_settings, a, later_left)
            &&& soon_alert_due(settings, s, left) ==> !soon_alert_due(
                later_settings,
                a,
                later_left,
            )
            &&& s.waiting_for_conditions ==> due_alerts(later_settings, s, later_left).len() == 0
        }),
{
}

/// The schedule after the first `n` of a run of seconds that did not fire, at the times
/// `nows` with the condition verdicts `holds`, under fixed settings.
pub open spec fn schedule_after(
    settings: AppSettings,
    s: ActiveSchedule,
    nows: Seq<i64>,
    holds: Seq<bool>,
    n: nat,
) -> ActiveSchedule
    decreases n,
{
    if n == 0 {
        s
    } else {
        advanced_schedule(
            settings,
            schedule_after(settings, s, nows, holds, (n - 1) as nat),
            nows[n - 1],
            holds[n - 1],
        )
    }
}

proof fn lemma_marks_kept(
    settings: AppSettings,
    s: ActiveSchedule,
    nows: Seq<i64>,
    holds: Seq<bool>,
    i: nat,
    j: nat,
)
    requires
        i <= j,
    ensures
        ({
            let a = schedule_after(settings, s, nows, holds, i);
            let b = schedule_after(settings, s, nows, holds, j);
            &&& a.notified_5m ==> b.notified_5m
            &&& a.notified_1m ==> b.notified_1m
            &&& a.notified_soon ==> b.notified_soon
            &&& b.ends_at_unix == s.ends_at_unix
        }),
    decreases j,
{
    if j > i {
        lemma_marks_kept(settings, s, nows, holds, i, (j - 1) as nat);
    } else {
        lemma_end_kept(settings, s, nows, holds, j);
    }
}

proof fn lemma_end_kept(
    settings: AppSettings,
    s: ActiveSchedule,
    nows: Seq<i64>,
    holds: Seq<bool>,
    n: nat,
)
    ensures
        schedule_after(settings, s, nows, holds, n).ends_at_unix == s.ends_at_unix,
    decreases n,
{
    if n > 0 {
        lemma_end_kept(settings, s, nows, holds, (n - 1) as nat);
    }
}

/// Over a run of seconds that do not fire, under fixed settings, each alert stage is raised
/// at most once: when the 5-minute alert is due at one second it is due at no later one,
/// the 1-minute alert likewise (and it also silences the "imminent" alert), and the
/// "imminent" alert likewise.
pub proof fn lemma_alerts_once_per_run(
    settings: AppSettings,
    s: ActiveSchedule,
    nows: Seq<i64>,
    holds: Seq<bool>,
    i: nat,
    j: nat,
)
    requires
        i < j,
    ensures
        ({
            let a = schedule_after(settings, s, nows, holds, i);
            let b = schedule_after(settings, s, nows, holds, j);
            let left_i = seconds_left(s.ends_at_unix, nows[i as int]);
            let left_j = seconds_left(s.ends_at_unix, nows[j as int]);
            &&& five_minute_alert_due(settings, a, left_i) ==> !five_minute_alert_due(
                settings,
                b,
                left_j,
            )
            &&& one_minute_alert_due(settings, a, left_i) ==> !one_minute_alert_due(
                settings,
                b,
                left_j,
            ) && !soon_alert_due(settings, b, left_j)
            &&& soon_alert_due(settings, a, left_i) ==> !soon_alert_due(settings, b, left_j)
        }),
{
    lemma_marks_kept(settings, s, nows, holds, 0, i);
    lemma_marks_kept(settings, s, nows, holds, i + 1, j);
    assert(schedule_after(settings, s, nows, holds, i + 1) == advanced_schedule(
        settings,
        schedule_after(settings, s, nows, holds, i),
        nows[i as int],
        holds[i as int],
    ));
}

} // verus!
