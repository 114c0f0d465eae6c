//! Power actions, the optional conditions that gate them, and what running one means.

use vstd::prelude::*;
use crate::text::{chars_of, trim, trim_chars};

verus! {

/// What the timer does when it fires.
#[derive(Debug, Clone, Copy, PartialEq, Eq, Structural)]
pub enum PowerAction {
    Shutdown,
    Restart,
    Sleep,
    Hibernate,
    Lock,
}

impl PowerAction {
    pub open spec fn spec_label(self) -> Seq<char> {
        match self {
            PowerAction::Shutdown => "Arrêt"@,
            PowerAction::Restart => "Redémarrage"@,
            PowerAction::Sleep => "Veille"@,
            PowerAction::Hibernate => "Hibernation"@,
            PowerAction::Lock => "Verrouillage"@,
        }
    }

    /// French name of the action.
    pub fn label(self) -> (l: &'static str)
        ensures
            l@ == self.spec_label(),
    {
        match self {
            PowerAction::Shutdown => "Arrêt",
            PowerAction::Restart => "Redémarrage",
            PowerAction::Sleep => "Veille",
            PowerAction::Hibernate => "Hibernation",
            PowerAction::Lock => "Verrouillage",
        }
    }

    pub open spec fn spec_requires_pro(self) -> bool {
        self is Sleep || self is Hibernate || self is Lock
    }

    /// Sleep, hibernation and locking are Pro features; shutdown and restart are free.
    pub fn requires_pro(self) -> (b: bool)
        ensures
            b == self.spec_requires_pro(),
    {
        match self {
            PowerAction::Sleep | PowerAction::Hibernate | PowerAction::Lock => true,
            _ => false,
        }
    }

    /// Name of the variant as `{:?}` prints it.
    pub open spec fn spec_debug_name(self) -> Seq<char> {
        match self {
            PowerAction::Shutdown => "Shutdown"@,
            PowerAction::Restart => "Restart"@,
            PowerAction::Sleep => "Sleep"@,
            PowerAction::Hibernate => "Hibernate"@,
            PowerAction::Lock => "Lock"@,
        }
    }

    /// Name of the variant as `{:?}` prints it.
    pub fn debug_name(self) -> (n: &'static str)
        ensures
            n@ == self.spec_debug_name(),
    {
        match self {
            PowerAction::Shutdown => "Shutdown",
            PowerAction::Restart => "Restart",
            PowerAction::Sleep => "Sleep",
            PowerAction::Hibernate => "Hibernate",
            PowerAction::Lock => "Lock",
        }
    }
}

/// Conditions that must all hold, besides the delay, before the action runs.
///
/// The CPU threshold is a percentage held as the bits of an IEEE-754 single
/// (`f32::to_bits`): the logic here only asks whether it is set.
#[derive(Debug, Clone)]
pub struct SmartConditions {
    pub cpu_below_percent_bits: Option<u32>,
    pub cpu_for_seconds: Option<u64>,
    pub process_closed: Option<String>,
    pub idle_seconds: Option<u64>,
    pub target_unix: Option<i64>,
}

/// Mathematical form of `SmartConditions`.
pub struct SmartConditionsView {
    pub cpu_below_percent_bits: Option<u32>,
    pub cpu_for_seconds: Option<u64>,
    pub process_closed: Option<Seq<char>>,
    pub idle_seconds: Option<u64>,
    pub target_unix: Option<i64>,
}

pub open spec fn opt_string_view(s: Option<String>) -> Option<Seq<char>> {
    match s {
        Some(t) => Some(t@),
        None => None,
    }
}

impl View for SmartConditions {
    type V = SmartConditionsView;

    open spec fn view(&self) -> SmartConditionsView {
        SmartConditionsView {
            cpu_below_percent_bits: self.cpu_below_percent_bits,
            cpu_for_seconds: self.cpu_for_seconds,
            process_closed: opt_string_view(self.process_closed),
            idle_seconds: self.idle_seconds,
            target_unix: self.target_unix,
        }
    }
}

impl SmartConditionsView {
    /// No condition is set (a process name of only white space does not count).
    pub open spec fn is_empty(self) -> bool {
        &&& self.cpu_below_percent_bits is None
        &&& match self.process_closed {
            Some(p) => trim(p).len() == 0,
            None => true,
        }
        &&& self.idle_seconds is None
        &&& self.target_unix is None
    }

    pub open spec fn none() -> SmartConditionsView {
        SmartConditionsView {
            cpu_below_percent_bits: None,
            cpu_for_seconds: None,
            process_closed: None,
            idle_seconds: None,
            target_unix: None,
        }
    }
}

/// Conditions are empty exactly when none is set: no CPU threshold, no idle time, no target
/// time, and no process name other than white space. A CPU threshold alone is a condition.
pub proof fn lemma_empty_iff_nothing_set(c: SmartConditionsView)
    ensures
        c.is_empty() <==> (c.cpu_below_percent_bits is None && c.idle_seconds is None
            && c.target_unix is None && (c.process_closed is Some ==> trim(
            c.process_closed->0,
        ).len() == 0)),
        c.cpu_below_percent_bits is Some ==> !c.is_empty(),
{
}

/// A copy of an optional string.
pub fn copy_opt_string(s: &Option<String>) -> (r: Option<String>)
    ensures
        r == *s,
{
    match s {
        Some(t) => Some(t.clone()),
        None => None,
    }
}

impl SmartConditions {
    /// No conditions at all.
    pub fn none() -> (c: SmartConditions)
        ensures
            c@ == SmartConditionsView::none(),
    {
        SmartConditions {
            cpu_below_percent_bits: None,
            cpu_for_seconds: None,
            process_closed: None,
            idle_seconds: None,
            target_unix: None,
        }
    }

    /// A copy of these conditions.
    pub fn duplicate(&self) -> (c: SmartConditions)
        ensures
            c@ == self@,
    {
        SmartConditions {
            cpu_below_percent_bits: self.cpu_below_percent_bits,
            cpu_for_seconds: self.cpu_for_seconds,
            process_closed: copy_opt_string(&self.process_closed),
            idle_seconds: self.idle_seconds,
            target_unix: self.target_unix,
        }
    }

    /// No condition is set (a process name of only white space does not count).
    pub fn is_empty(&self) -> (b: bool)
        ensures
            b == self@.is_empty(),
    {
        let process_empty = match &self.process_closed {
            Some(p) => trim_chars(&chars_of(p.as_str())).len() == 0,
            None => true,
        };
        self.cpu_below_percent_bits.is_none() && process_empty && self.idle_seconds.is_none()
            && self.target_unix.is_none()
    }

    /// Conditions are a Pro feature: any set condition requires a Pro license.
    pub fn requires_pro(&self) -> (b: bool)
        ensures
            b == !self@.is_empty(),
    {
        !self.is_empty()
    }
}

/// Result of one evaluation of the conditions.
///
/// The CPU load is a percentage held as the bits of an IEEE-754 single.
#[derive(Debug, Clone)]
pub struct ConditionStatus {
    pub cpu_percent_bits: u32,
    pub cpu_ok_for_seconds: u64,
    pub process_running: Option<bool>,
    pub idle_seconds: u64,
    pub target_reached: bool,
    pub all_met: bool,
    pub summary: String,
}

/// Mathematical form of `ConditionStatus`.
pub struct ConditionStatusView {
    pub cpu_percent_bits: u32,
    pub cpu_ok_for_seconds: u64,
    pub process_running: Option<bool>,
    pub idle_seconds: u64,
    pub target_reached: bool,
    pub all_met: bool,
    pub summary: Seq<char>,
}

impl View for ConditionStatus {
    type V = ConditionStatusView;

    open spec fn view(&self) -> ConditionStatusView {
        ConditionStatusView {
            cpu_percent_bits: self.cpu_percent_bits,
            cpu_ok_for_seconds: self.cpu_ok_for_seconds,
            process_running: self.process_running,
            idle_seconds: self.idle_seconds,
            target_reached: self.target_reached,
            all_met: self.all_met,
            summary: self.summary@,
        }
    }
}

impl ConditionStatus {
    /// A copy of this status.
    pub fn duplicate(&self) -> (c: ConditionStatus)
        ensures
            c@ == self@,
    {
        ConditionStatus {
            cpu_percent_bits: self.cpu_percent_bits,
            cpu_ok_for_seconds: self.cpu_ok_for_seconds,
            process_running: self.process_running,
            idle_seconds: self.idle_seconds,
            target_reached: self.target_reached,
            all_met: self.all_met,
            summary: self.summary.clone(),
        }
    }
}

pub open spec fn opt_status_view(s: Option<ConditionStatus>) -> Option<ConditionStatusView> {
    match s {
        Some(t) => Some(t@),
        None => None,
    }
}

/// A copy of an optional status.
pub fn copy_opt_status(s: &Option<ConditionStatus>) -> (r: Option<ConditionStatus>)
    ensures
        opt_status_view(r) == opt_status_view(*s),
{
    match s {
        Some(t) => Some(t.duplicate()),
        None => None,
    }
}

/// What the Windows build runs for an action.
#[derive(Debug, Clone, Copy, PartialEq, Eq, Structural)]
pub enum PowerCommand {
    /// `shutdown.exe <flag> /t 0 /f`, with `/r` to restart instead of shutting down.
    Shutdown { restart: bool },
    /// Suspend the machine, to disk when `hibernate`.
    Suspend { hibernate: bool },
    /// Lock the session.
    LockWorkstation,
}

/// The system command that carries out `action` on Windows.
pub fn windows_command(action: PowerAction) -> (c: PowerCommand)
    ensures
        c == match action {
            PowerAction::Shutdown => PowerCommand::Shutdown { restart: false },
            PowerAction::Restart => PowerCommand::Shutdown { restart: true },
            PowerAction::Sleep => PowerCommand::Suspend { hibernate: false },
            PowerAction::Hibernate => PowerCommand::Suspend { hibernate: true },
            PowerAction::Lock => PowerCommand::LockWorkstation,
        },
{
    match action {
        PowerAction::Shutdown => PowerCommand::Shutdown { restart: false },
        PowerAction::Restart => PowerCommand::Shutdown { restart: true },
        PowerAction::Sleep => PowerCommand::Suspend { hibernate: false },
        PowerAction::Hibernate => PowerCommand::Suspend { hibernate: true },
        PowerAction::Lock => PowerCommand::LockWorkstation,
    }
}

/// Message given when suspending fails.
pub fn suspend_failure_message(hibernate: bool) -> (m: String)
    ensures
        m@ == if hibernate {
            "Hibernation impossible (désactivée ou non supportée)"@
        } else {
            "Mise en veille impossible"@
        },
{
    if hibernate {
        String::from_str("Hibernation impossible (désactivée ou non supportée)")
    } else {
        String::from_str("Mise en veille impossible")
    }
}

/// Message given when locking fails.
pub fn lock_failure_message() -> (m: String)
    ensures
        m@ == "Verrouillage impossible"@,
{
    String::from_str("Verrouillage impossible")
}

/// Runs `action`. Power actions exist only on Windows; on the other systems this build
/// runs on, the request is refused with a message naming the action.
pub fn execute(action: PowerAction) -> (r: Result<(), String>)
    ensures
        r matches Err(m) && m@ == "Action "@ + action.spec_debug_name()
            + " disponible uniquement sur Windows"@,
{
    let m = String::from_str("Action ");
    let m = m.concat(action.debug_name());
    Err(m.concat(" disponible uniquement sur Windows"))
}

/// Aborts a pending system shutdown. Only Windows schedules one; elsewhere there is
/// nothing to abort.
pub fn cancel_windows_shutdown() {
}


} // verus!
