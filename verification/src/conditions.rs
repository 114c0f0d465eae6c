//! Evaluation of the conditions that gate an action: CPU load held low long enough, a
//! process closed, the user idle, a target time reached.

use vstd::prelude::*;
use crate::power::{ConditionStatus, ConditionStatusView, SmartConditions, SmartConditionsView};
use crate::text::{
    all_ascii, ascii_lower, chars_equal, chars_of, contains_seq, decimal, is_white_space,
    join_chars, join_with, lemma_ascii_case_keeps_space, lemma_trim_ascii, lemma_trim_map,
    push_decimal, push_str, string_of, to_lowercase, trim, trim_chars, unicode_lowercase,
};

verus! {

/// What the system reported for one evaluation.
///
/// The CPU load is a percentage held as the bits of an IEEE-754 single; whether it is at
/// or below the configured threshold, and its rendering with no decimals, are given with it.
pub struct ConditionReadings {
    pub cpu_percent_bits: u32,
    pub cpu_within_threshold: bool,
    pub cpu_label: String,
    pub idle_seconds: u64,
    /// Whether the watched process runs; read only when a process is watched.
    pub process_running: bool,
}

/// Counts for how many consecutive evaluations the CPU load stayed under its threshold.
pub struct ConditionTracker {
    pub cpu_ok_for_seconds: u64,
}

impl Default for ConditionTracker {
    /// A tracker that has seen nothing yet.
    fn default() -> (t: ConditionTracker)
        ensures
            t.cpu_ok_for_seconds == 0,
    {
        ConditionTracker { cpu_ok_for_seconds: 0 }
    }
}

/// The process whose closing is awaited: the configured name, unless it is only white space.
pub open spec fn watched_process(c: SmartConditionsView) -> Option<Seq<char>> {
    match c.process_closed {
        Some(p) => if trim(p).len() > 0 {
            Some(p)
        } else {
            None
        },
        None => None,
    }
}

/// The CPU counter after one evaluation: one more when the load is under the threshold
/// (saturating), reset otherwise or when there is no CPU condition.
pub open spec fn next_cpu_count(c: SmartConditionsView, count: u64, within: bool) -> u64 {
    if c.cpu_below_percent_bits is Some && within {
        if count == u64::MAX {
            count
        } else {
            (count + 1) as u64
        }
    } else {
        0
    }
}

/// Seconds of low CPU load that the CPU condition asks for.
pub open spec fn cpu_needed(c: SmartConditionsView) -> u64 {
    match c.cpu_for_seconds {
        Some(n) => n,
        None => 0,
    }
}

/// Whether the target time, if any, is reached.
pub open spec fn target_reached(c: SmartConditionsView, now: i64) -> bool {
    match c.target_unix {
        Some(t) => now >= t,
        None => true,
    }
}

/// Whether every set condition holds.
pub open spec fn all_conditions_met(
    c: SmartConditionsView,
    count: u64,
    idle: u64,
    running: Option<bool>,
    now: i64,
) -> bool {
    let need = cpu_needed(c);
    &&& (c.cpu_below_percent_bits is None || count >= (if need > 1 { need } else { 1 }))
    &&& running != Some(true)
    &&& match c.idle_seconds {
        Some(n) => idle >= n,
        None => true,
    }
    &&& target_reached(c, now)
}

/// The pieces of the human-readable summary, in order.
pub open spec fn summary_parts(
    c: SmartConditionsView,
    cpu_label: Seq<char>,
    count: u64,
    idle: u64,
    running: Option<bool>,
    now: i64,
) -> Seq<Seq<char>> {
    let cpu: Seq<Seq<char>> = if c.cpu_below_percent_bits is Some {
        seq![
            "CPU "@ + cpu_label + "% (ok "@ + decimal(count as nat) + "s/"@ + decimal(
                cpu_needed(c) as nat,
            ) + "s)"@,
        ]
    } else {
        Seq::empty()
    };
    let process: Seq<Seq<char>> = match (running, c.process_closed) {
        (Some(r), Some(name)) => seq![
            name + if r {
                " encore ouvert"@
            } else {
                " fermé"@
            },
        ],
        _ => Seq::empty(),
    };
    let idle_part: Seq<Seq<char>> = match c.idle_seconds {
        Some(n) => seq!["Inactivité "@ + decimal(idle as nat) + "s/"@ + decimal(n as nat) + "s"@],
        None => Seq::empty(),
    };
    let target: Seq<Seq<char>> = if c.target_unix is Some {
        seq![
            if target_reached(c, now) {
                "Heure cible atteinte"@
            } else {
                "En attente de l'heure cible"@
            },
        ]
    } else {
        Seq::empty()
    };
    let all = cpu + process + idle_part + target;
    if all.len() == 0 {
        seq!["Aucune condition"@]
    } else {
        all
    }
}

/// Status that one evaluation reports.
pub open spec fn evaluated_status(
    c: SmartConditionsView,
    r: ConditionReadings,
    count: u64,
    now: i64,
) -> ConditionStatusView {
    let running = match watched_process(c) {
        Some(_) => Some(r.process_running),
        None => None,
    };
    ConditionStatusView {
        cpu_percent_bits: r.cpu_percent_bits,
        cpu_ok_for_seconds: count,
        process_running: running,
        idle_seconds: r.idle_seconds,
        target_reached: target_reached(c, now),
        all_met: all_conditions_met(c, count, r.idle_seconds, running, now),
        summary: join_with(
            summary_parts(c, r.cpu_label@, count, r.idle_seconds, running, now),
            " · "@,
        ),
    }
}


/// The process name to watch, if the conditions name one that is not only white space.
pub fn watched_process_name(conditions: &SmartConditions) -> (r: Option<&String>)
    ensures
        match (r, watched_process(conditions@)) {
            (Some(s), Some(p)) => s@ == p,
            (None, None) => true,
            _ => false,
        },
{
    match &conditions.process_closed {
        Some(p) => if trim_chars(&chars_of(p.as_str())).len() > 0 {
            Some(p)
        } else {
            None
        },
        None => None,
    }
}

impl ConditionTracker {
    /// Evaluates the conditions against the system readings at time `now`, advancing the
    /// CPU counter.
    pub fn evaluate(
        &mut self,
        readings: &ConditionReadings,
        conditions: &SmartConditions,
        now: i64,
    ) -> (status: ConditionStatus)
        ensures
            final(self).cpu_ok_for_seconds == next_cpu_count(
                conditions@,
                old(self).cpu_ok_for_seconds,
                readings.cpu_within_threshold,
            ),
            status@ == evaluated_status(
                conditions@,
                *readings,
                final(self).cpu_ok_for_seconds,
                now,
            ),
            // the conditions are met exactly when every condition that is set holds
            status.all_met == ((conditions@.cpu_below_percent_bits is Some ==> final(self).cpu_ok_for_seconds >= 1 && (conditions@.cpu_for_seconds is Some
                ==> final(self).cpu_ok_for_seconds >= conditions@.cpu_for_seconds->0)) && (conditions@.idle_seconds is Some ==> readings.idle_seconds
                >= conditions@.idle_seconds->0) && (conditions@.target_unix is Some ==> now >= conditions@.target_unix->0) && (
                conditions@.process_closed is Some && trim(conditions@.process_closed->0).len() > 0
                ==> !readings.process_running)),
            status.target_reached == (conditions@.target_unix is Some ==> now
                >= conditions@.target_unix->0),
    {
        let c = conditions;
        let gate = c.cpu_below_percent_bits.is_some();
        if gate && readings.cpu_within_threshold {
            self.cpu_ok_for_seconds = self.cpu_ok_for_seconds.saturating_add(1);
        } else {
            self.cpu_ok_for_seconds = 0;
        }
        let count = self.cpu_ok_for_seconds;
        let need = match c.cpu_for_seconds {
            Some(n) => n,
            None => 0,
        };
        let running = match watched_process_name(c) {
            Some(_) => Some(readings.process_running),
            None => None,
        };
        let reached = match c.target_unix {
            Some(t) => now >= t,
            None => true,
        };
        let cpu_met = !gate || count >= (if need > 1 { need } else { 1 });
        let process_met = match running {
            Some(r) => !r,
            None => true,
        };
        let idle_met = match c.idle_seconds {
            Some(n) => readings.idle_seconds >= n,
            None => true,
        };
        let all_met = cpu_met && process_met && idle_met && reached;

        let ghost cv = c@;
        let mut parts: Vec<Vec<char>> = Vec::new();
        if gate {
            let mut p: Vec<char> = Vec::new();
            push_str(&mut p, "CPU ");
            push_str(&mut p, readings.cpu_label.as_str());
            push_str(&mut p, "% (ok ");
            push_decimal(&mut p, count);
            push_str(&mut p, "s/");
            push_decimal(&mut p, need);
            push_str(&mut p, "s)");
            parts.push(p);
        }
        let ghost after_cpu = parts@.map_values(|p: Vec<char>| p@);
        match (running, &c.process_closed) {
            (Some(r), Some(name)) => {
                let mut p = chars_of(name.as_str());
                if r {
                    push_str(&mut p, " encore ouvert");
                } else {
                    push_str(&mut p, " fermé");
                }
                parts.push(p);
            },
            _ => {},
        }
        match c.idle_seconds {
            Some(n) => {
                let mut p: Vec<char> = Vec::new();
                push_str(&mut p, "Inactivité ");
                push_decimal(&mut p, readings.idle_seconds);
                push_str(&mut p, "s/");
                push_decimal(&mut p, n);
                push_str(&mut p, "s");
                parts.push(p);
            },
            None => {},
        }
        if c.target_unix.is_some() {
            if reached {
                parts.push(chars_of("Heure cible atteinte"));
            } else {
                parts.push(chars_of("En attente de l'heure cible"));
            }
        }
        if parts.len() == 0 {
            parts.push(chars_of("Aucune condition"));
        }
        proof {
            let sp = summary_parts(cv, readings.cpu_label@, count, readings.idle_seconds, running, now);
            let cpu: Seq<Seq<char>> = if cv.cpu_below_percent_bits is Some {
                seq![
                    "CPU "@ + readings.cpu_label@ + "% (ok "@ + decimal(count as nat) + "s/"@ + decimal(
                        cpu_needed(cv) as nat,
                    ) + "s)"@,
                ]
            } else {
                Seq::empty()
            };
            assert(after_cpu =~= cpu);
            assert(parts@.map_values(|p: Vec<char>| p@) =~= sp);
        }
        let summary = string_of(&join_chars(&parts, &chars_of(" · ")));
        ConditionStatus {
            cpu_percent_bits: readings.cpu_percent_bits,
            cpu_ok_for_seconds: count,
            process_running: running,
            idle_seconds: readings.idle_seconds,
            target_reached: reached,
            all_met,
            summary,
        }
    }
}


/// The conditions are met exactly when every condition that is set holds: the CPU load has
/// stayed under its threshold for the seconds asked for (at least one), the watched process
/// does not run, the user has been idle long enough, and the target time is reached.
pub proof fn lemma_all_met_iff_each_condition(
    c: SmartConditionsView,
    r: ConditionReadings,
    count: u64,
    now: i64,
)
    ensures
        evaluated_status(c, r, count, now).all_met == ((c.cpu_below_percent_bits is Some ==> count >= 1 && (c.cpu_for_seconds is Some
            ==> count >= c.cpu_for_seconds->0)) && (c.idle_seconds is Some ==> r.idle_seconds
            >= c.idle_seconds->0) && (c.target_unix is Some ==> now >= c.target_unix->0) && (
            c.process_closed is Some && trim(c.process_closed->0).len() > 0
            ==> !r.process_running)),
        evaluated_status(c, r, count, now).target_reached == (c.target_unix is Some ==> now
            >= c.target_unix->0),
{
}

/// The CPU counter after a run of evaluations from `start`; each reading is true when the
/// load was at or below the threshold.
pub open spec fn cpu_count_after(c: SmartConditionsView, start: u64, within: Seq<bool>) -> u64
    decreases within.len(),
{
    if within.len() == 0 {
        start
    } else {
        next_cpu_count(c, cpu_count_after(c, start, within.drop_last()), within.last())
    }
}

/// Only the CPU condition is set.
pub open spec fn only_cpu_condition(c: SmartConditionsView) -> bool {
    &&& c.cpu_below_percent_bits is Some
    &&& c.process_closed is None
    &&& c.idle_seconds is None
    &&& c.target_unix is None
}

/// With a CPU condition, `k` evaluations in a row with the load under the threshold, from a
/// fresh tracker, count `k`; when the CPU condition is the only one, they meet the
/// conditions exactly when `k` reaches the seconds asked for (at least one). One reading
/// above the threshold resets the count, and the conditions are then not met.
pub proof fn lemma_cpu_counter(c: SmartConditionsView, k: nat, r: ConditionReadings, now: i64, count: u64)
    requires
        c.cpu_below_percent_bits is Some,
        k <= u64::MAX,
    ensures
        cpu_count_after(c, 0, Seq::new(k, |i: int| true)) == k,
        only_cpu_condition(c) ==> evaluated_status(c, r, k as u64, now).all_met == (k >= (
        if cpu_needed(c) > 1 {
            cpu_needed(c) as nat
        } else {
            1
        })),
        next_cpu_count(c, count, false) == 0,
        only_cpu_condition(c) ==> !evaluated_status(c, r, 0, now).all_met,
    decreases k,
{
    if k > 0 {
        lemma_cpu_counter(c, (k - 1) as nat, r, now, count);
        assert(Seq::new(k, |i: int| true).drop_last() =~= Seq::new((k - 1) as nat, |i: int| true));
    }
}

/// Whether a lower-cased process name denotes the watched process: it is the needle, the
/// needle followed by `.exe`, or contains the needle.
pub open spec fn lowered_name_matches(process: Seq<char>, needle: Seq<char>) -> bool {
    ||| process == needle
    ||| process == needle + ".exe"@
    ||| contains_seq(process, needle)
}

/// Whether `needle` occurs in `s`.
pub fn contains_chars(s: &Vec<char>, needle: &Vec<char>) -> (r: bool)
    ensures
        r == contains_seq(s@, needle@),
{
    let n = s.len();
    let m = needle.len();
    if m > n {
        proof {
            if contains_seq(s@, needle@) {
                let i = choose|i: int|
                    0 <= i && i + needle@.len() <= s@.len() && #[trigger] s@.subrange(
                        i,
                        i + needle@.len(),
                    ) == needle@;
            }
        }
        return false;
    }
    let last = n - m;
    for i in 0..last
        invariant
            n == s.len(),
            m == needle.len(),
            m <= n,
            last == n - m,
            forall|k: int| 0 <= k < i ==> #[trigger] s@.subrange(k, k + m) != needle@,
    {
        if chars_equal(&crate::text::sub_chars(s, i, i + m), needle) {
            assert(s@.subrange(i as int, i + needle@.len()) == needle@);
            return true;
        }
    }
    if chars_equal(&crate::text::sub_chars(s, last, n), needle) {
        assert(s@.subrange(last as int, last + needle@.len()) == needle@);
        return true;
    }
    proof {
        if contains_seq(s@, needle@) {
            let k = choose|k: int|
                0 <= k && k + needle@.len() <= s@.len() && #[trigger] s@.subrange(
                    k,
                    k + needle@.len(),
                ) == needle@;
            if k < last {
                assert(s@.subrange(k, k + m) != needle@);
            }
        }
    }
    false
}

/// Whether an already lower-cased process name denotes the watched process.
pub fn lowered_process_matches(process: &str, needle: &str) -> (r: bool)
    ensures
        r == lowered_name_matches(process@, needle@),
{
    let p = chars_of(process);
    let n = chars_of(needle);
    if chars_equal(&p, &n) {
        return true;
    }
    let mut exe = chars_of(needle);
    push_str(&mut exe, ".exe");
    if chars_equal(&p, &exe) {
        return true;
    }
    contains_chars(&p, &n)
}

/// The needle by which a watched process is looked for: the name trimmed and lower-cased;
/// none when nothing is left.
pub open spec fn process_needle(name: Seq<char>) -> Option<Seq<char>> {
    if unicode_lowercase(trim(name)).len() == 0 {
        None
    } else {
        Some(unicode_lowercase(trim(name)))
    }
}

/// The needle by which the process `name` is looked for. For an ASCII name it is the name
/// trimmed and in ASCII lower case, so that `VLC` is looked for as `vlc`.
pub fn process_needle_of(name: &str) -> (r: Option<String>)
    ensures
        match (r, process_needle(name@)) {
            (Some(s), Some(n)) => s@ == n,
            (None, None) => true,
            _ => false,
        },
        all_ascii(name@) ==> match r {
            Some(s) => trim(name@).len() > 0 && s@ == trim(name@).map_values(
                |c: char| ascii_lower(c),
            ),
            None => trim(name@).len() == 0,
        },
{
    proof {
        if all_ascii(name@) {
            lemma_trim_ascii(name@);
        }
    }
    let trimmed = string_of(&trim_chars(&chars_of(name)));
    let lowered = to_lowercase(trimmed.as_str());
    if lowered.as_str().is_empty() {
        None
    } else {
        Some(lowered)
    }
}

/// Whether a process called `process_name` (any case) denotes the watched process whose
/// needle is `needle`.
pub fn process_matches(process_name: &str, needle: &str) -> (r: bool)
    ensures
        r == lowered_name_matches(unicode_lowercase(process_name@), needle@),
        all_ascii(process_name@) ==> r == lowered_name_matches(
            process_name@.map_values(|c: char| ascii_lower(c)),
            needle@,
        ),
{
    let lowered = to_lowercase(process_name);
    lowered_process_matches(lowered.as_str(), needle)
}

/// Whether one of the running processes, given by name, is the process `name`; a name of
/// only white space matches none.
pub fn is_process_running(process_names: &Vec<String>, name: &str) -> (r: bool)
    ensures
        r == match process_needle(name@) {
            Some(n) => exists|i: int|
                0 <= i < process_names@.len() && lowered_name_matches(
                    unicode_lowercase(#[trigger] process_names@[i]@),
                    n,
                ),
            None => false,
        },
        // for an ASCII name the case of the name does not matter: `VLC` finds `vlc.exe`
        all_ascii(name@) ==> r == (trim(name@).len() > 0 && exists|i: int|
            0 <= i < process_names@.len() && lowered_name_matches(
                unicode_lowercase(#[trigger] process_names@[i]@),
                trim(name@).map_values(|c: char| ascii_lower(c)),
            )),
{
    let needle = match process_needle_of(name) {
        None => return false,
        Some(n) => n,
    };
    let count = process_names.len();
    for i in 0..count
        invariant
            count == process_names.len(),
            process_needle(name@) == Some(needle@),
            all_ascii(name@) ==> trim(name@).len() > 0 && needle@ == trim(name@).map_values(
                |c: char| ascii_lower(c),
            ),
            forall|j: int|
                0 <= j < i ==> !lowered_name_matches(
                    unicode_lowercase(#[trigger] process_names@[j]@),
                    needle@,
                ),
    {
        if process_matches(process_names[i].as_str(), needle.as_str()) {
            return true;
        }
    }
    false
}

/// Two names that differ only in the case of ASCII letters are looked for with the same
/// needle: both trim to nothing or neither does, and their trimmed ASCII lower-case forms
/// agree. So `VLC` and `vlc` find the same processes.
pub proof fn lemma_needle_ignores_ascii_case(a: Seq<char>, b: Seq<char>)
    requires
        a.map_values(|c: char| ascii_lower(c)) == b.map_values(|c: char| ascii_lower(c)),
    ensures
        (trim(a).len() > 0) == (trim(b).len() > 0),
        trim(a).map_values(|c: char| ascii_lower(c)) == trim(b).map_values(
            |c: char| ascii_lower(c),
        ),
{
    let lo = |c: char| ascii_lower(c);
    assert forall|c: char| is_white_space(#[trigger] lo(c)) == is_white_space(c) by {
        lemma_ascii_case_keeps_space(c);
    }
    lemma_trim_map(a, lo);
    lemma_trim_map(b, lo);
    assert(a.map_values(lo) == a.map_values(|c: char| ascii_lower(c)));
    assert(b.map_values(lo) == b.map_values(|c: char| ascii_lower(c)));
    assert(trim(a).map_values(lo).len() == trim(a).len());
    assert(trim(b).map_values(lo).len() == trim(b).len());
}

/// Seconds since the last user input. The system reports it only on Windows; elsewhere
/// the user counts as never idle.
pub fn idle_seconds() -> (s: u64)
    ensures
        s == 0,
{
    0
}

} // verus!
