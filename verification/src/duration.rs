//! Parsing of user-typed durations ("30", "1h20m", "2h30m15s") and their short labels.

use vstd::prelude::*;
use crate::text::{
    all_ascii, all_digits, ascii_lower, chars_of, is_first_index, is_white_space, lemma_decimal_digits, lemma_without_absent_char, decimal, push_decimal, string_of, to_lowercase, trim_chars,
    without_char_chars, digits_value, find_char, first_index, has_char, is_digit, parse_digits,
    trim, unicode_lowercase, without_char,
};

verus! {

/// Why a typed duration was refused.
#[derive(Debug, Clone, Copy, PartialEq, Eq, Structural)]
pub enum DurationError {
    /// Nothing left after trimming.
    Empty,
    /// A bare number of minutes that does not fit in 64 bits.
    InvalidNumber,
    /// The duration is zero.
    NotPositive,
    /// The text is not of the form `[Nh][Nm][Ns]`.
    InvalidFormat,
    /// A unit letter without a plain number in front of it.
    MalformedUnit,
    /// The number of hours does not fit in 64 bits.
    InvalidHours,
    /// The number of minutes does not fit in 64 bits.
    InvalidMinutes,
    /// The number of seconds does not fit in 64 bits.
    InvalidSeconds,
}

impl DurationError {
    pub open spec fn spec_message(self) -> Seq<char> {
        match self {
            DurationError::Empty => "Temps vide."@,
            DurationError::InvalidNumber => "Nombre invalide"@,
            DurationError::NotPositive => "Le temps doit être supérieur à 0."@,
            DurationError::InvalidFormat => "Format invalide. Exemples : 30m, 1h20m, 2h30m15s"@,
            DurationError::MalformedUnit => "Format invalide."@,
            DurationError::InvalidHours => "Heures invalides"@,
            DurationError::InvalidMinutes => "Minutes invalides"@,
            DurationError::InvalidSeconds => "Secondes invalides"@,
        }
    }

    /// The message shown to the user for this error.
    pub fn message(&self) -> (m: String)
        ensures
            m@ == self.spec_message(),
    {
        match self {
            DurationError::Empty => String::from_str("Temps vide."),
            DurationError::InvalidNumber => String::from_str("Nombre invalide"),
            DurationError::NotPositive => String::from_str("Le temps doit être supérieur à 0."),
            DurationError::InvalidFormat => String::from_str(
                "Format invalide. Exemples : 30m, 1h20m, 2h30m15s",
            ),
            DurationError::MalformedUnit => String::from_str("Format invalide."),
            DurationError::InvalidHours => String::from_str("Heures invalides"),
            DurationError::InvalidMinutes => String::from_str("Minutes invalides"),
            DurationError::InvalidSeconds => String::from_str("Secondes invalides"),
        }
    }
}

/// `x` clamped to the largest `u64`.
pub open spec fn saturate(x: int) -> int {
    if x > u64::MAX {
        u64::MAX as int
    } else {
        x
    }
}

/// One `<number><unit>` block: if `unit` occurs in `rest`, the digits before its first
/// occurrence give the value and parsing resumes after it; otherwise the value is zero and
/// `rest` is untouched. Yields (value, what is left, whether the unit was present).
pub open spec fn take_unit(rest: Seq<char>, unit: char, overflow: DurationError) -> Result<
    (int, Seq<char>, bool),
    DurationError,
> {
    if has_char(rest, unit) {
        let i = first_index(rest, unit);
        let num = rest.take(i);
        if num.len() == 0 || !all_digits(num) {
            Err(DurationError::MalformedUnit)
        } else if digits_value(num) > u64::MAX {
            Err(overflow)
        } else {
            Ok((digits_value(num) as int, rest.skip(i + 1), true))
        }
    } else {
        Ok((0, rest, false))
    }
}

/// Value in seconds of a duration written with units, such as `1h20m` or `90s`.
pub open spec fn units_duration(t: Seq<char>) -> Result<u64, DurationError> {
    if t.len() == 0 || !is_digit(t[0]) {
        Err(DurationError::InvalidFormat)
    } else {
        match take_unit(t, 'h', DurationError::InvalidHours) {
            Err(e) => Err(e),
            Ok((h, r1, saw_h)) => match take_unit(r1, 'm', DurationError::InvalidMinutes) {
                Err(e) => Err(e),
                Ok((m, r2, saw_m)) => match take_unit(r2, 's', DurationError::InvalidSeconds) {
                    Err(e) => Err(e),
                    Ok((s, r3, saw_s)) => {
                        if r3.len() > 0 || !(saw_h || saw_m || saw_s) {
                            Err(DurationError::InvalidFormat)
                        } else {
                            Ok(saturate(saturate(saturate(h * 3600) + saturate(m * 60)) + s) as u64)
                        }
                    },
                },
            },
        }
    }
}

/// Value in seconds of an already normalized duration: a bare number counts minutes.
pub open spec fn normalized_duration(t: Seq<char>) -> Result<u64, DurationError> {
    if t.len() == 0 {
        Err(DurationError::Empty)
    } else if all_digits(t) {
        if digits_value(t) > u64::MAX {
            Err(DurationError::InvalidNumber)
        } else if saturate(digits_value(t) as int * 60) == 0 {
            Err(DurationError::NotPositive)
        } else {
            Ok(saturate(digits_value(t) as int * 60) as u64)
        }
    } else {
        match units_duration(t) {
            Err(e) => Err(e),
            Ok(v) => if v == 0 {
                Err(DurationError::NotPositive)
            } else {
                Ok(v)
            },
        }
    }
}

/// The normal form in which a typed duration is read: trimmed, lower-cased, spaces removed.
pub open spec fn normalize_duration_input(s: Seq<char>) -> Seq<char> {
    without_char(unicode_lowercase(trim(s)), ' ')
}

/// The normal form of an ASCII duration: trimmed, ASCII lower case, spaces removed (what
/// `normalize_duration_input` is for a text of ASCII characters).
pub open spec fn ascii_normal_duration(s: Seq<char>) -> Seq<char> {
    without_char(trim(s).map_values(|c: char| ascii_lower(c)), ' ')
}

/// The duration that `input` denotes, in seconds.
pub open spec fn spec_parse_duration(input: Seq<char>) -> Result<u64, DurationError> {
    normalized_duration(normalize_duration_input(input))
}

fn mul_saturating(x: u64, k: u64) -> (r: u64)
    requires
        k > 0,
    ensures
        r == saturate(x * k),
{
    if x > u64::MAX / k {
        assert(x * k > u64::MAX) by (nonlinear_arith)
            requires
                x > u64::MAX / k,
                k > 0,
        ;
        u64::MAX
    } else {
        assert(x * k <= u64::MAX) by (nonlinear_arith)
            requires
                x <= u64::MAX / k,
                k > 0,
        ;
        x * k
    }
}

fn take_unit_exec(rest: Vec<char>, unit: char, overflow: DurationError) -> (r: Result<
    (u64, Vec<char>, bool),
    DurationError,
>)
    ensures
        match (r, take_unit(rest@, unit, overflow)) {
            (Ok((v, left, saw)), Ok((sv, sleft, ssaw))) => v == sv && left@ == sleft && saw
                == ssaw,
            (Err(e), Err(se)) => e == se,
            _ => false,
        },
{
    match find_char(&rest, unit) {
        None => Ok((0, rest, false)),
        Some(idx) => {
            let mut ok = idx > 0;
            let mut k: usize = 0;
            while k < idx
                invariant
                    idx < rest.len(),
                    k <= idx,
                    ok == (idx > 0 && all_digits(rest@.take(k as int))),
                decreases idx - k,
            {
                let c = rest[k];
                if !('0' <= c && c <= '9') {
                    ok = false;
                }
                proof {
                    if ok {
                        assert forall|j: int| 0 <= j < k + 1 implies is_digit(
                            #[trigger] rest@.take(k + 1)[j],
                        ) by {
                            if j < k {
                                assert(rest@.take(k + 1)[j] == rest@.take(k as int)[j]);
                            }
                        }
                    } else if idx > 0 && all_digits(rest@.take(k + 1)) {
                        if !all_digits(rest@.take(k as int)) {
                            let j = choose|j: int|
                                0 <= j < k && !is_digit(#[trigger] rest@.take(k as int)[j]);
                            assert(rest@.take(k + 1)[j] == rest@.take(k as int)[j]);
                        } else {
                            assert(rest@.take(k + 1)[k as int] == c);
                        }
                    }
                }
                k = k + 1;
            }
            if !ok {
                return Err(DurationError::MalformedUnit);
            }
            assert(rest@.subrange(0, idx as int) == rest@.take(idx as int));
            match parse_digits(&rest, 0, idx) {
                None => Err(overflow),
                Some(v) => {
                    let mut left: Vec<char> = Vec::new();
                    let n = rest.len();
                    let mut j: usize = idx + 1;
                    while j < n
                        invariant
                            n == rest.len(),
                            idx + 1 <= j <= n,
                            left@ == rest@.subrange(idx + 1, j as int),
                        decreases n - j,
                    {
                        left.push(rest[j]);
                        j = j + 1;
                    }
                    Ok((v, left, true))
                },
            }
        },
    }
}

/// Value of a duration written with units (`1h20m`, `45m`, `90s`), saturating at the
/// largest `u64`.
pub fn units_duration_exec(t: &Vec<char>) -> (r: Result<u64, DurationError>)
    ensures
        r == units_duration(t@),
{
    if t.len() == 0 || !('0' <= t[0] && t[0] <= '9') {
        return Err(DurationError::InvalidFormat);
    }
    let rest = t.clone();
    let (h, r1, saw_h) = match take_unit_exec(rest, 'h', DurationError::InvalidHours) {
        Err(e) => return Err(e),
        Ok(x) => x,
    };
    let (m, r2, saw_m) = match take_unit_exec(r1, 'm', DurationError::InvalidMinutes) {
        Err(e) => return Err(e),
        Ok(x) => x,
    };
    let (s, r3, saw_s) = match take_unit_exec(r2, 's', DurationError::InvalidSeconds) {
        Err(e) => return Err(e),
        Ok(x) => x,
    };
    if r3.len() > 0 || !(saw_h || saw_m || saw_s) {
        return Err(DurationError::InvalidFormat);
    }
    let hs = mul_saturating(h, 3600);
    let ms = mul_saturating(m, 60);
    let a = hs.saturating_add(ms);
    Ok(a.saturating_add(s))
}

/// Seconds denoted by an already normalized duration (see `normalize_duration_input`).
pub fn parse_normalized_duration(temps: &str) -> (r: Result<u64, DurationError>)
    ensures
        r == normalized_duration(temps@),
{
    let t = chars_of(temps);
    let n = t.len();
    if n == 0 {
        return Err(DurationError::Empty);
    }
    let mut digits = true;
    let mut k: usize = 0;
    while k < n
        invariant
            n == t.len(),
            k <= n,
            digits == all_digits(t@.take(k as int)),
        decreases n - k,
    {
        proof {
            if all_digits(t@.take(k + 1)) {
                assert forall|j: int| 0 <= j < k implies is_digit(#[trigger] t@.take(k as int)[j]) by {
                    assert(t@.take(k + 1)[j] == t@.take(k as int)[j]);
                }
                assert(t@.take(k + 1)[k as int] == t@[k as int]);
            }
            assert forall|j: int| 0 <= j < k implies #[trigger] t@.take(k + 1)[j] == t@.take(k as int)[j] by {}
        }
        if !('0' <= t[k] && t[k] <= '9') {
            digits = false;
        }
        k = k + 1;
    }
    assert(t@.take(n as int) == t@);
    if digits {
        assert(t@.subrange(0, n as int) == t@);
        match parse_digits(&t, 0, n) {
            None => Err(DurationError::InvalidNumber),
            Some(minutes) => {
                let total = mul_saturating(minutes, 60);
                if total == 0 {
                    Err(DurationError::NotPositive)
                } else {
                    Ok(total)
                }
            },
        }
    } else {
        match units_duration_exec(&t) {
            Err(e) => Err(e),
            Ok(v) => if v == 0 {
                Err(DurationError::NotPositive)
            } else {
                Ok(v)
            },
        }
    }
}

/// The duration that `input` denotes, in seconds, or why it is refused.
pub fn parse_duration_checked(input: &str) -> (r: Result<u64, DurationError>)
    ensures
        r == spec_parse_duration(input@),
        all_ascii(input@) ==> r == normalized_duration(ascii_normal_duration(input@)),
{
    let raw = chars_of(input);
    let trimmed = string_of(&trim_chars(&raw));
    proof {
        if all_ascii(input@) {
            crate::text::lemma_trim_ascii(input@);
        }
    }
    let lowered = to_lowercase(trimmed.as_str());
    let compact = string_of(&without_char_chars(&chars_of(lowered.as_str()), ' '));
    parse_normalized_duration(compact.as_str())
}

/// The duration that `input` denotes, in seconds; the error is the message shown to the user.
pub fn parse_duration(input: &str) -> (r: Result<u64, String>)
    ensures
        match (r, spec_parse_duration(input@)) {
            (Ok(v), Ok(sv)) => v == sv,
            (Err(m), Err(e)) => m@ == e.spec_message(),
            _ => false,
        },
        all_ascii(input@) ==> match (r, normalized_duration(ascii_normal_duration(input@))) {
            (Ok(v), Ok(sv)) => v == sv,
            (Err(m), Err(e)) => m@ == e.spec_message(),
            _ => false,
        },
{
    match parse_duration_checked(input) {
        Ok(v) => Ok(v),
        Err(e) => Err(e.message()),
    }
}

/// `block` followed by `unit` when `present`, nothing otherwise.
pub open spec fn label_part(present: bool, value: nat, unit: char) -> Seq<char> {
    if present {
        decimal(value).push(unit)
    } else {
        Seq::empty()
    }
}

/// Short label of a number of seconds: hours, minutes and seconds that are not zero, as in
/// `1h5s`; zero seconds read `0s`.
pub open spec fn duration_label(seconds: nat) -> Seq<char> {
    let h = seconds / 3600;
    let m = (seconds % 3600) / 60;
    let s = seconds % 60;
    label_part(h > 0, h, 'h') + label_part(m > 0, m, 'm') + label_part(
        s > 0 || (h == 0 && m == 0),
        s,
        's',
    )
}

/// Short label of a number of seconds (`1h20m`, `45s`, `0s`).
pub fn format_duration_label(seconds: u64) -> (label: String)
    ensures
        label@ == duration_label(seconds as nat),
{
    let h = seconds / 3600;
    let m = (seconds % 3600) / 60;
    let s = seconds % 60;
    let mut out: Vec<char> = Vec::new();
    if h > 0 {
        push_decimal(&mut out, h);
        out.push('h');
    }
    let ghost after_h = out@;
    if m > 0 {
        push_decimal(&mut out, m);
        out.push('m');
    }
    let ghost after_m = out@;
    if s > 0 || (h == 0 && m == 0) {
        push_decimal(&mut out, s);
        out.push('s');
    }
    proof {
        assert(after_h == label_part(h > 0, h as nat, 'h'));
        assert(after_m == after_h + label_part(m > 0, m as nat, 'm'));
        assert(out@ == after_m + label_part(s > 0 || (h == 0 && m == 0), s as nat, 's'));
    }
    string_of(&out)
}

proof fn lemma_label_part_chars(present: bool, value: nat, unit: char)
    ensures
        forall|i: int|
            0 <= i < label_part(present, value, unit).len() ==> (is_digit(
                #[trigger] label_part(present, value, unit)[i],
            ) || label_part(present, value, unit)[i] == unit),
        present ==> label_part(present, value, unit).len() > 0 && is_digit(
            label_part(present, value, unit)[0],
        ),
{
    if present {
        lemma_decimal_digits(value);
        let d = decimal(value);
        assert forall|i: int| 0 <= i < d.push(unit).len() implies (is_digit(
            #[trigger] d.push(unit)[i],
        ) || d.push(unit)[i] == unit) by {
            if i < d.len() {
                assert(d.push(unit)[i] == d[i]);
            }
        }
        assert(d.push(unit)[0] == d[0]);
    }
}

proof fn lemma_take_unit_part(
    present: bool,
    value: nat,
    unit: char,
    rest: Seq<char>,
    overflow: DurationError,
)
    requires
        !is_digit(unit),
        !has_char(rest, unit),
        value <= u64::MAX,
    ensures
        take_unit(label_part(present, value, unit) + rest, unit, overflow) == Ok::<
            (int, Seq<char>, bool),
            DurationError,
        >((if present { value as int } else { 0 }, rest, present)),
{
    lemma_decimal_digits(value);
    assert(label_part(present, value, unit) == unit_block(present, decimal(value), unit));
    lemma_take_number_unit(present, decimal(value), unit, rest, overflow);
}

proof fn lemma_label_chars(n: nat)
    requires
        n > 0,
    ensures
        duration_label(n).len() > 0,
        is_digit(duration_label(n)[0]),
        !is_digit(duration_label(n).last()),
        forall|i: int|
            0 <= i < duration_label(n).len() ==> (is_digit(#[trigger] duration_label(n)[i])
                || duration_label(n)[i] == 'h' || duration_label(n)[i] == 'm'
                || duration_label(n)[i] == 's'),
{
    let h = n / 3600;
    let m = (n % 3600) / 60;
    let s = n % 60;
    let ps = s > 0 || (h == 0 && m == 0);
    let a = label_part(h > 0, h, 'h');
    let b = label_part(m > 0, m, 'm');
    let c = label_part(ps, s, 's');
    let l = duration_label(n);
    assert(l == a + b + c);
    lemma_label_part_chars(h > 0, h, 'h');
    lemma_label_part_chars(m > 0, m, 'm');
    lemma_label_part_chars(ps, s, 's');
    assert(h > 0 || m > 0 || ps);
    assert forall|i: int| 0 <= i < l.len() implies (is_digit(#[trigger] l[i]) || l[i] == 'h'
        || l[i] == 'm' || l[i] == 's') by {
        if i < a.len() {
            assert(l[i] == a[i]);
        } else if i < a.len() + b.len() {
            assert(l[i] == b[i - a.len()]);
        } else {
            assert(l[i] == c[i - a.len() - b.len()]);
        }
    }
    if h > 0 {
        assert(l[0] == a[0]);
    } else if m > 0 {
        assert(l[0] == b[0]);
    } else {
        assert(l[0] == c[0]);
    }
    let last = l.len() - 1;
    if ps {
        assert(l[last] == c[c.len() - 1]);
        assert(c == decimal(s).push('s'));
    } else if m > 0 {
        assert(c.len() == 0);
        assert(l[last] == b[b.len() - 1]);
        assert(b == decimal(m).push('m'));
    } else {
        assert(c.len() == 0 && b.len() == 0);
        assert(l[last] == a[a.len() - 1]);
        assert(a == decimal(h).push('h'));
    }
}

proof fn lemma_label_value(n: nat)
    requires
        0 < n <= u64::MAX,
    ensures
        units_duration(duration_label(n)) == Ok::<u64, DurationError>(n as u64),
{
    let h = n / 3600;
    let m = (n % 3600) / 60;
    let s = n % 60;
    let ps = s > 0 || (h == 0 && m == 0);
    let a = label_part(h > 0, h, 'h');
    let b = label_part(m > 0, m, 'm');
    let c = label_part(ps, s, 's');
    let l = duration_label(n);
    assert(l == a + (b + c));
    lemma_label_chars(n);
    lemma_label_part_chars(m > 0, m, 'm');
    lemma_label_part_chars(ps, s, 's');
    assert(n == h * 3600 + m * 60 + s) by (nonlinear_arith)
        requires
            h == n / 3600,
            m == (n % 3600) / 60,
            s == n % 60,
    ;
    assert(h > 0 || m > 0 || ps);
    assert(!has_char(b + c, 'h')) by {
        assert forall|i: int| 0 <= i < (b + c).len() implies (b + c)[i] != 'h' by {
            if i < b.len() {
                assert((b + c)[i] == b[i]);
            } else {
                assert((b + c)[i] == c[i - b.len()]);
            }
        }
    }
    assert(!has_char(c, 'm'));
    assert(!has_char(Seq::<char>::empty(), 's'));
    lemma_take_unit_part(h > 0, h, 'h', b + c, DurationError::InvalidHours);
    lemma_take_unit_part(m > 0, m, 'm', c, DurationError::InvalidMinutes);
    assert(c == c + Seq::<char>::empty());
    lemma_take_unit_part(ps, s, 's', Seq::<char>::empty(), DurationError::InvalidSeconds);
    let hv: int = if h > 0 { h as int } else { 0 };
    let mv: int = if m > 0 { m as int } else { 0 };
    let sv: int = if ps { s as int } else { 0 };
    assert(hv * 3600 + mv * 60 + sv == n);
    assert(hv * 3600 <= n && mv * 60 <= n);
}

/// `digits` followed by `unit` when `present`, nothing otherwise.
pub open spec fn unit_block(present: bool, digits: Seq<char>, unit: char) -> Seq<char> {
    if present {
        digits.push(unit)
    } else {
        Seq::empty()
    }
}

/// A plain number that fits in 64 bits.
pub open spec fn is_u64_number(d: Seq<char>) -> bool {
    d.len() > 0 && all_digits(d) && digits_value(d) <= u64::MAX
}

proof fn lemma_unit_block_chars(present: bool, d: Seq<char>, unit: char)
    requires
        present ==> is_u64_number(d),
        !is_digit(unit),
    ensures
        forall|i: int|
            0 <= i < unit_block(present, d, unit).len() ==> (is_digit(
                #[trigger] unit_block(present, d, unit)[i],
            ) || unit_block(present, d, unit)[i] == unit),
        present ==> unit_block(present, d, unit).len() > 0 && is_digit(
            unit_block(present, d, unit)[0],
        ) && unit_block(present, d, unit).last() == unit,
        !present ==> unit_block(present, d, unit).len() == 0,
{
    if present {
        assert forall|i: int| 0 <= i < d.push(unit).len() implies (is_digit(
            #[trigger] d.push(unit)[i],
        ) || d.push(unit)[i] == unit) by {
            if i < d.len() {
                assert(d.push(unit)[i] == d[i]);
            }
        }
        assert(d.push(unit)[0] == d[0]);
    }
}

proof fn lemma_take_number_unit(
    present: bool,
    d: Seq<char>,
    unit: char,
    rest: Seq<char>,
    overflow: DurationError,
)
    requires
        present ==> is_u64_number(d),
        !is_digit(unit),
        !has_char(rest, unit),
    ensures
        take_unit(unit_block(present, d, unit) + rest, unit, overflow) == Ok::<
            (int, Seq<char>, bool),
            DurationError,
        >((if present { digits_value(d) as int } else { 0 }, rest, present)),
{
    let t = unit_block(present, d, unit) + rest;
    if present {
        let k = d.len() as int;
        assert(t[k] == unit);
        assert forall|j: int| 0 <= j < k implies t[j] != unit by {
            assert(t[j] == d[j]);
            assert(is_digit(d[j]));
        }
        assert(is_first_index(t, unit, k));
        let f = first_index(t, unit);
        assert(is_first_index(t, unit, f));
        if f < k {
            assert(t[f] != unit);
        } else if f > k {
            assert(t[k] != unit);
        }
        assert(t.take(k) == d);
        assert(t.skip(k + 1) == rest);
    } else {
        assert(t == rest);
    }
}

/// A duration written with units is the sum of its parts, whatever their size: for plain
/// numbers `a`, `b` and `c` that fit in 64 bits, the text made of `a` then `h`, `b` then `m`,
/// `c` then `s`, in that order and each block present or not (at least one), is already in
/// normal form and reads as `a * 3600 + b * 60 + c` seconds (an absent block counting
/// zero), capped at the largest `u64`; as a typed duration it is refused as not positive
/// exactly when that sum is zero. So `90m` is 5400 seconds.
pub proof fn lemma_units_sum(
    ph: bool,
    a: Seq<char>,
    pm: bool,
    b: Seq<char>,
    ps: bool,
    c: Seq<char>,
)
    requires
        ph || pm || ps,
        ph ==> is_u64_number(a),
        pm ==> is_u64_number(b),
        ps ==> is_u64_number(c),
    ensures
        ({
            let text = unit_block(ph, a, 'h') + unit_block(pm, b, 'm') + unit_block(ps, c, 's');
            let total: int = (if ph { digits_value(a) * 3600 } else { 0 }) + (if pm {
                digits_value(b) * 60
            } else {
                0
            }) + (if ps { digits_value(c) as int } else { 0 });
            let capped: int = if total > u64::MAX { u64::MAX as int } else { total };
            &&& units_duration(text) == Ok::<u64, DurationError>(capped as u64)
            &&& all_ascii(text)
            &&& ascii_normal_duration(text) == text
            &&& normalized_duration(text) == if total == 0 {
                Err::<u64, DurationError>(DurationError::NotPositive)
            } else {
                Ok::<u64, DurationError>(capped as u64)
            }
        }),
{
    let x = unit_block(ph, a, 'h');
    let y = unit_block(pm, b, 'm');
    let z = unit_block(ps, c, 's');
    let text = x + y + z;
    lemma_unit_block_chars(ph, a, 'h');
    lemma_unit_block_chars(pm, b, 'm');
    lemma_unit_block_chars(ps, c, 's');
    assert(text == x + (y + z));
    assert forall|i: int| 0 <= i < text.len() implies (is_digit(#[trigger] text[i]) || text[i]
        == 'h' || text[i] == 'm' || text[i] == 's') by {
        if i < x.len() {
            assert(text[i] == x[i]);
        } else if i < x.len() + y.len() {
            assert(text[i] == y[i - x.len()]);
        } else {
            assert(text[i] == z[i - x.len() - y.len()]);
        }
    }
    assert(!has_char(y + z, 'h')) by {
        assert forall|i: int| 0 <= i < (y + z).len() implies (y + z)[i] != 'h' by {
            if i < y.len() {
                assert((y + z)[i] == y[i]);
            } else {
                assert((y + z)[i] == z[i - y.len()]);
            }
        }
    }
    assert(!has_char(z, 'm'));
    assert(!has_char(Seq::<char>::empty(), 's'));
    lemma_take_number_unit(ph, a, 'h', y + z, DurationError::InvalidHours);
    lemma_take_number_unit(pm, b, 'm', z, DurationError::InvalidMinutes);
    assert(z == z + Seq::<char>::empty());
    lemma_take_number_unit(ps, c, 's', Seq::<char>::empty(), DurationError::InvalidSeconds);
    if ph {
        assert(text[0] == x[0]);
    } else if pm {
        assert(text[0] == y[0]);
    } else {
        assert(text[0] == z[0]);
    }
    let last = text.len() - 1;
    if ps {
        assert(text[last] == z[z.len() - 1]);
    } else if pm {
        assert(text[last] == y[y.len() - 1]);
    } else {
        assert(text[last] == x[x.len() - 1]);
    }
    assert(!is_white_space(text[0]));
    assert(!is_white_space(text.last()));
    assert(trim(text) == text);
    assert(text.map_values(|ch: char| ascii_lower(ch)) =~= text);
    lemma_without_absent_char(text, ' ');
    assert(!all_digits(text)) by {
        assert(text.last() == text[last]);
    }
}

/// The label of a positive number of seconds is already in the normal form in which typed
/// durations are read (no surrounding white space, no spaces, ASCII without upper case), and
/// reading it back gives that number of seconds.
pub proof fn lemma_label_parses_back(seconds: u64)
    requires
        seconds > 0,
    ensures
        trim(duration_label(seconds as nat)) == duration_label(seconds as nat),
        without_char(duration_label(seconds as nat), ' ') == duration_label(seconds as nat),
        all_ascii(duration_label(seconds as nat)),
        duration_label(seconds as nat).map_values(|c: char| ascii_lower(c)) == duration_label(
            seconds as nat,
        ),
        ascii_normal_duration(duration_label(seconds as nat)) == duration_label(seconds as nat),
        normalized_duration(duration_label(seconds as nat)) == Ok::<u64, DurationError>(seconds),
{
    let n = seconds as nat;
    let l = duration_label(n);
    lemma_label_chars(n);
    assert(!is_white_space(l[0]));
    assert(!is_white_space(l.last()));
    assert(trim(l) == l);
    lemma_without_absent_char(l, ' ');
    assert(l.map_values(|c: char| ascii_lower(c)) =~= l);
    assert(ascii_normal_duration(l) == l);
    assert(!all_digits(l)) by {
        assert(l.last() == l[l.len() - 1]);
    }
    lemma_label_value(n);
}


} // verus!
