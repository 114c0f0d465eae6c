//! Character-level text utilities: trimming, case mapping, decimal numbers.

use vstd::prelude::*;

verus! {

/// Whether `c` has the Unicode `White_Space` property (what `char::is_whitespace` tests).
pub open spec fn is_white_space(c: char) -> bool {
    let u = c as u32;
    ||| 0x09 <= u <= 0x0D
    ||| u == 0x20
    ||| u == 0x85
    ||| u == 0xA0
    ||| u == 0x1680
    ||| 0x2000 <= u <= 0x200A
    ||| u == 0x2028
    ||| u == 0x2029
    ||| u == 0x202F
    ||| u == 0x205F
    ||| u == 0x3000
}

/// `s` without its leading white space.
pub open spec fn trim_start(s: Seq<char>) -> Seq<char>
    decreases s.len(),
{
    if s.len() > 0 && is_white_space(s[0]) {
        trim_start(s.drop_first())
    } else {
        s
    }
}

/// `s` without its trailing white space.
pub open spec fn trim_end(s: Seq<char>) -> Seq<char>
    decreases s.len(),
{
    if s.len() > 0 && is_white_space(s.last()) {
        trim_end(s.drop_last())
    } else {
        s
    }
}

/// `s` without leading and trailing white space (what `str::trim` returns).
pub open spec fn trim(s: Seq<char>) -> Seq<char> {
    trim_end(trim_start(s))
}

/// `s` with every occurrence of `c` removed.
pub open spec fn without_char(s: Seq<char>, c: char) -> Seq<char>
    decreases s.len(),
{
    if s.len() == 0 {
        s
    } else if s.last() == c {
        without_char(s.drop_last(), c)
    } else {
        without_char(s.drop_last(), c).push(s.last())
    }
}

pub open spec fn is_ascii_char(c: char) -> bool {
    (c as u32) < 0x80
}

pub open spec fn all_ascii(s: Seq<char>) -> bool {
    forall|i: int| 0 <= i < s.len() ==> is_ascii_char(#[trigger] s[i])
}

pub open spec fn is_digit(c: char) -> bool {
    '0' <= c <= '9'
}

pub open spec fn all_digits(s: Seq<char>) -> bool {
    forall|i: int| 0 <= i < s.len() ==> is_digit(#[trigger] s[i])
}

pub open spec fn is_hex_digit(c: char) -> bool {
    ||| '0' <= c <= '9'
    ||| 'a' <= c <= 'f'
    ||| 'A' <= c <= 'F'
}

pub open spec fn ascii_upper(c: char) -> char {
    if 'a' <= c <= 'z' {
        ((c as u32) - 32) as char
    } else {
        c
    }
}

pub open spec fn ascii_lower(c: char) -> char {
    if 'A' <= c <= 'Z' {
        ((c as u32) + 32) as char
    } else {
        c
    }
}

/// Upper-case form of `s` as `str::to_uppercase` computes it (Unicode case mapping).
pub uninterp spec fn unicode_uppercase(s: Seq<char>) -> Seq<char>;

/// Lower-case form of `s` as `str::to_lowercase` computes it (Unicode case mapping).
pub uninterp spec fn unicode_lowercase(s: Seq<char>) -> Seq<char>;

/// Numeric value of a decimal digit.
pub open spec fn digit_value(c: char) -> nat {
    ((c as u32) - ('0' as u32)) as nat
}

/// Value of a string of decimal digits (most significant first).
pub open spec fn digits_value(s: Seq<char>) -> nat
    decreases s.len(),
{
    if s.len() == 0 {
        0
    } else {
        digits_value(s.drop_last()) * 10 + digit_value(s.last())
    }
}

pub open spec fn digit_char(d: nat) -> char {
    (('0' as u32) + d) as char
}

/// Shortest decimal representation of `n` (what `{}` prints for an unsigned integer).
pub open spec fn decimal(n: nat) -> Seq<char>
    decreases n,
{
    if n < 10 {
        seq![digit_char(n)]
    } else {
        decimal(n / 10).push(digit_char(n % 10))
    }
}

/// Decimal representation of `n` padded to at least two digits (what `{:02}` prints).
pub open spec fn decimal_2(n: nat) -> Seq<char> {
    if n < 10 {
        seq!['0'].push(digit_char(n))
    } else {
        decimal(n)
    }
}

/// ASCII case-insensitive equality (what `str::eq_ignore_ascii_case` tests).
pub open spec fn eq_ignore_ascii_case(a: Seq<char>, b: Seq<char>) -> bool {
    &&& a.len() == b.len()
    &&& forall|i: int| 0 <= i < a.len() ==> ascii_lower(#[trigger] a[i]) == ascii_lower(b[i])
}

/// Whether `needle` occurs in `s` as a contiguous block.
pub open spec fn contains_seq(s: Seq<char>, needle: Seq<char>) -> bool {
    exists|i: int| 0 <= i && i + needle.len() <= s.len() && #[trigger] s.subrange(i, i + needle.len()) == needle
}

/// The characters of `s`, in order.
pub fn chars_of(s: &str) -> (v: Vec<char>)
    ensures
        v@ == s@,
{
    let mut v: Vec<char> = Vec::new();
    for c in it: s.chars()
        invariant
            v@ == it.seq().take(it.index() as int),
    {
        v.push(c);
    }
    v
}

/// Appends the characters of `s` to `v`.
pub fn push_str(v: &mut Vec<char>, s: &str)
    ensures
        final(v)@ == old(v)@ + s@,
{
    let c = chars_of(s);
    v.extend_from_slice(c.as_slice());
}

/// Appends `c` to `s` with `String::push`; the contract claims that the text afterwards is
/// the text before followed by `c`.
#[verifier::external_body]
fn push_char(s: &mut String, c: char)
    ensures
        final(s)@ == old(s)@.push(c),
{
    s.push(c);
}

/// The string made of the characters of `v`.
pub fn string_of(v: &Vec<char>) -> (s: String)
    ensures
        s@ == v@,
{
    let mut s = String::new();
    let n = v.len();
    for i in 0..n
        invariant
            n == v.len(),
            s@ == v@.take(i as int),
    {
        push_char(&mut s, v[i]);
        assert(v@.take(i + 1) == v@.take(i as int).push(v@[i as int]));
    }
    assert(v@.take(n as int) == v@);
    s
}


/// Whether `c` is white space (`char::is_whitespace`).
pub fn is_white_space_char(c: char) -> (b: bool)
    ensures
        b == is_white_space(c),
{
    let u = c as u32;
    (0x09 <= u && u <= 0x0D) || u == 0x20 || u == 0x85 || u == 0xA0 || u == 0x1680 || (0x2000
        <= u && u <= 0x200A) || u == 0x2028 || u == 0x2029 || u == 0x202F || u == 0x205F || u
        == 0x3000
}

proof fn lemma_trim_start_skip(s: Seq<char>, i: int)
    requires
        0 <= i <= s.len(),
        forall|j: int| 0 <= j < i ==> is_white_space(#[trigger] s[j]),
    ensures
        trim_start(s) == trim_start(s.subrange(i, s.len() as int)),
    decreases i,
{
    if i > 0 {
        assert(s.drop_first() == s.subrange(1, s.len() as int));
        let t = s.drop_first();
        assert forall|j: int| 0 <= j < i - 1 implies is_white_space(#[trigger] t[j]) by {
            assert(t[j] == s[j + 1]);
        }
        lemma_trim_start_skip(t, i - 1);
        assert(t.subrange(i - 1, t.len() as int) == s.subrange(i, s.len() as int));
    } else {
        assert(s.subrange(0, s.len() as int) == s);
    }
}

proof fn lemma_trim_end_skip(s: Seq<char>, j: int)
    requires
        0 <= j <= s.len(),
        forall|k: int| j <= k < s.len() ==> is_white_space(#[trigger] s[k]),
    ensures
        trim_end(s) == trim_end(s.subrange(0, j)),
    decreases s.len() - j,
{
    if j < s.len() {
        let t = s.drop_last();
        assert forall|k: int| j <= k < t.len() implies is_white_space(#[trigger] t[k]) by {
            assert(t[k] == s[k]);
        }
        lemma_trim_end_skip(t, j);
        assert(t.subrange(0, j) == s.subrange(0, j));
    } else {
        assert(s.subrange(0, s.len() as int) == s);
    }
}

/// `s` without leading and trailing white space.
pub fn trim_chars(s: &Vec<char>) -> (r: Vec<char>)
    ensures
        r@ == trim(s@),
{
    let n = s.len();
    let mut i: usize = 0;
    while i < n && is_white_space_char(s[i])
        invariant
            n == s.len(),
            i <= n,
            forall|j: int| 0 <= j < i ==> is_white_space(#[trigger] s@[j]),
        decreases n - i,
    {
        i = i + 1;
    }
    let mut j: usize = n;
    while j > i && is_white_space_char(s[j - 1])
        invariant
            n == s.len(),
            i <= j <= n,
            forall|k: int| j <= k < n ==> is_white_space(#[trigger] s@[k]),
        decreases j,
    {
        j = j - 1;
    }
    let mut r: Vec<char> = Vec::new();
    let mut k: usize = i;
    while k < j
        invariant
            n == s.len(),
            i <= k <= j <= n,
            r@ == s@.subrange(i as int, k as int),
        decreases j - k,
    {
        r.push(s[k]);
        k = k + 1;
    }
    proof {
        let m = s@.subrange(i as int, n as int);
        lemma_trim_start_skip(s@, i as int);
        assert(trim_start(m) == m);
        assert forall|k: int| j - i <= k < m.len() implies is_white_space(#[trigger] m[k]) by {
            assert(m[k] == s@[k + i]);
        }
        lemma_trim_end_skip(m, j - i);
        assert(m.subrange(0, j - i) == s@.subrange(i as int, j as int));
        let e = s@.subrange(i as int, j as int);
        if e.len() > 0 {
            assert(e.last() == s@[j - 1]);
        }
        assert(trim_end(e) == e);
    }
    r
}

/// `s` with every occurrence of `c` removed.
pub fn without_char_chars(s: &Vec<char>, c: char) -> (r: Vec<char>)
    ensures
        r@ == without_char(s@, c),
{
    let n = s.len();
    let mut r: Vec<char> = Vec::new();
    for i in 0..n
        invariant
            n == s.len(),
            r@ == without_char(s@.take(i as int), c),
    {
        let x = s[i];
        if x != c {
            r.push(x);
        }
        assert(s@.take(i + 1).drop_last() == s@.take(i as int));
    }
    assert(s@.take(n as int) == s@);
    r
}

/// Appends the decimal representation of `n` to `out`.
pub fn push_decimal(out: &mut Vec<char>, n: u64)
    ensures
        final(out)@ == old(out)@ + decimal(n as nat),
    decreases n,
{
    if n >= 10 {
        push_decimal(out, n / 10);
    }
    let d = (n % 10) as u8;
    let c = (48u8 + d) as char;
    out.push(c);
    proof {
        if n >= 10 {
            assert(old(out)@ + decimal(n as nat) == old(out)@ + decimal((n / 10) as nat) + seq![
                digit_char((n % 10) as nat)]);
        } else {
            assert(decimal(n as nat) == seq![digit_char(n as nat)]);
        }
    }
}


/// Whether `c` occurs in `s`.
pub open spec fn has_char(s: Seq<char>, c: char) -> bool {
    exists|i: int| 0 <= i < s.len() && s[i] == c
}

/// `i` is the position of the first `c` in `s`.
pub open spec fn is_first_index(s: Seq<char>, c: char, i: int) -> bool {
    &&& 0 <= i < s.len()
    &&& s[i] == c
    &&& forall|j: int| 0 <= j < i ==> s[j] != c
}

/// Position of the first `c` in `s` (what `str::find` returns, counted in characters).
pub open spec fn first_index(s: Seq<char>, c: char) -> int {
    choose|i: int| is_first_index(s, c, i)
}

/// Finds the first `c` in `s`.
pub fn find_char(s: &Vec<char>, c: char) -> (r: Option<usize>)
    ensures
        r is None <==> !has_char(s@, c),
        r matches Some(i) ==> i == first_index(s@, c) && is_first_index(s@, c, i as int),
{
    let n = s.len();
    for i in 0..n
        invariant
            n == s.len(),
            forall|j: int| 0 <= j < i ==> s@[j] != c,
    {
        if s[i] == c {
            proof {
                assert(is_first_index(s@, c, i as int));
                let k = first_index(s@, c);
                assert(is_first_index(s@, c, k));
                if k < i {
                    assert(s@[k] != c);
                } else if k > i {
                    assert(s@[i as int] != c);
                }
            }
            return Some(i);
        }
    }
    None
}

proof fn lemma_digits_value_step(s: Seq<char>, i: int)
    requires
        0 <= i < s.len(),
    ensures
        digits_value(s.take(i + 1)) == digits_value(s.take(i)) * 10 + digit_value(s[i]),
{
    assert(s.take(i + 1).drop_last() == s.take(i));
}

/// A longer prefix of digits never has a smaller value.
pub proof fn lemma_digits_value_prefix(s: Seq<char>, i: int)
    requires
        0 <= i <= s.len(),
    ensures
        digits_value(s.take(i)) <= digits_value(s),
    decreases s.len() - i,
{
    if i < s.len() {
        lemma_digits_value_step(s, i);
        lemma_digits_value_prefix(s, i + 1);
    } else {
        assert(s.take(i) == s);
    }
}

/// Value of the digits `s[from..to]`, or `None` when it does not fit in a `u64`
/// (what `u64::from_str` gives on a string of digits).
pub fn parse_digits(s: &Vec<char>, from: usize, to: usize) -> (r: Option<u64>)
    requires
        from <= to <= s.len(),
        all_digits(s@.subrange(from as int, to as int)),
    ensures
        r is None <==> digits_value(s@.subrange(from as int, to as int)) > u64::MAX,
        r matches Some(v) ==> v == digits_value(s@.subrange(from as int, to as int)),
{
    let ghost t = s@.subrange(from as int, to as int);
    let mut acc: u64 = 0;
    let mut i: usize = from;
    while i < to
        invariant
            from <= i <= to <= s.len(),
            t == s@.subrange(from as int, to as int),
            all_digits(t),
            acc == digits_value(t.take(i - from)),
        decreases to - i,
    {
        let c = s[i];
        proof {
            assert(t[i - from] == c);
            lemma_digits_value_step(t, i - from);
        }
        let d = ((c as u32) - 48) as u64;
        assert(d <= 9);
        if acc > (u64::MAX - d) / 10 {
            proof {
                assert(acc * 10 + d > u64::MAX) by (nonlinear_arith)
                    requires
                        acc > (u64::MAX - d) / 10,
                        d <= 9,
                ;
                lemma_digits_value_prefix(t, i + 1 - from);
            }
            return None;
        }
        assert(acc * 10 + d <= u64::MAX) by (nonlinear_arith)
            requires
                acc <= (u64::MAX - d) / 10,
                d <= 9,
        ;
        acc = acc * 10 + d;
        i = i + 1;
    }
    assert(t.take(to - from) == t);
    Some(acc)
}

/// The decimal representation of `n` is a non-empty string of digits whose value is `n`.
pub proof fn lemma_decimal_digits(n: nat)
    ensures
        decimal(n).len() > 0,
        all_digits(decimal(n)),
        digits_value(decimal(n)) == n,
    decreases n,
{
    if n >= 10 {
        lemma_decimal_digits(n / 10);
        let d = decimal(n);
        assert(d.drop_last() == decimal(n / 10));
        assert(digit_value(digit_char(n % 10)) == n % 10);
        assert(d.last() == digit_char(n % 10));
        assert(n == (n / 10) * 10 + n % 10);
        assert(digits_value(d) == digits_value(d.drop_last()) * 10 + digit_value(d.last()));
        assert forall|i: int| 0 <= i < d.len() implies is_digit(#[trigger] d[i]) by {
            if i < d.len() - 1 {
                assert(d[i] == decimal(n / 10)[i]);
            }
        }
    } else {
        assert(digit_value(digit_char(n)) == n);
        let d = decimal(n);
        assert(d.drop_last() =~= Seq::<char>::empty());
        assert(digits_value(d) == digits_value(d.drop_last()) * 10 + digit_value(d.last()));
    }
}


/// `i` is the position of the last `c` in `s`.
pub open spec fn is_last_index(s: Seq<char>, c: char, i: int) -> bool {
    &&& 0 <= i < s.len()
    &&& s[i] == c
    &&& forall|j: int| i < j < s.len() ==> s[j] != c
}

/// Position of the last `c` in `s`.
pub open spec fn last_index(s: Seq<char>, c: char) -> int {
    choose|i: int| is_last_index(s, c, i)
}

/// Finds the last `c` in `s`.
pub fn rfind_char(s: &Vec<char>, c: char) -> (r: Option<usize>)
    ensures
        r is None <==> !has_char(s@, c),
        r matches Some(i) ==> i == last_index(s@, c) && is_last_index(s@, c, i as int),
{
    let n = s.len();
    let mut k: usize = n;
    while k > 0
        invariant
            n == s.len(),
            k <= n,
            forall|j: int| k <= j < n ==> s@[j] != c,
        decreases k,
    {
        let i = k - 1;
        if s[i] == c {
            proof {
                assert(is_last_index(s@, c, i as int));
                let m = last_index(s@, c);
                assert(is_last_index(s@, c, m));
                if m < i {
                    assert(s@[i as int] != c);
                } else if m > i {
                    assert(s@[m] != c);
                }
            }
            return Some(i);
        }
        k = i;
    }
    None
}

/// The characters `s[from..to]`.
pub fn sub_chars(s: &Vec<char>, from: usize, to: usize) -> (r: Vec<char>)
    requires
        from <= to <= s.len(),
    ensures
        r@ == s@.subrange(from as int, to as int),
{
    let mut r: Vec<char> = Vec::new();
    let mut k: usize = from;
    while k < to
        invariant
            from <= k <= to <= s.len(),
            r@ == s@.subrange(from as int, k as int),
        decreases to - k,
    {
        r.push(s[k]);
        k = k + 1;
    }
    r
}

/// Whether `a` and `b` hold the same characters.
pub fn chars_equal(a: &Vec<char>, b: &Vec<char>) -> (r: bool)
    ensures
        r == (a@ == b@),
{
    if a.len() != b.len() {
        return false;
    }
    let n = a.len();
    for i in 0..n
        invariant
            n == a.len(),
            n == b.len(),
            forall|j: int| 0 <= j < i ==> a@[j] == b@[j],
    {
        if a[i] != b[i] {
            return false;
        }
    }
    assert(a@ =~= b@);
    true
}

/// Whether `a` and `b` are equal up to ASCII case (`str::eq_ignore_ascii_case`).
pub fn chars_eq_ignore_ascii_case(a: &Vec<char>, b: &Vec<char>) -> (r: bool)
    ensures
        r == eq_ignore_ascii_case(a@, b@),
{
    if a.len() != b.len() {
        return false;
    }
    let n = a.len();
    for i in 0..n
        invariant
            n == a.len(),
            n == b.len(),
            forall|j: int| 0 <= j < i ==> ascii_lower(#[trigger] a@[j]) == ascii_lower(b@[j]),
    {
        if lower_ascii_char(a[i]) != lower_ascii_char(b[i]) {
            return false;
        }
    }
    true
}

/// ASCII lower case of `c` (`char::to_ascii_lowercase`).
pub fn lower_ascii_char(c: char) -> (r: char)
    ensures
        r == ascii_lower(c),
{
    if 'A' <= c && c <= 'Z' {
        ((c as u8) + 32) as char
    } else {
        c
    }
}

/// Whether every character of `s` is an ASCII hexadecimal digit.
pub fn all_hex_digits(s: &Vec<char>) -> (r: bool)
    ensures
        r == (forall|i: int| 0 <= i < s@.len() ==> is_hex_digit(#[trigger] s@[i])),
{
    let n = s.len();
    for i in 0..n
        invariant
            n == s.len(),
            forall|j: int| 0 <= j < i ==> is_hex_digit(#[trigger] s@[j]),
    {
        let c = s[i];
        if !(('0' <= c && c <= '9') || ('a' <= c && c <= 'f') || ('A' <= c && c <= 'F')) {
            return false;
        }
    }
    true
}


/// The pieces of `parts` with `sep` between consecutive ones (`[T]::join`).
pub open spec fn join_with(parts: Seq<Seq<char>>, sep: Seq<char>) -> Seq<char>
    decreases parts.len(),
{
    if parts.len() == 0 {
        Seq::empty()
    } else if parts.len() == 1 {
        parts[0]
    } else {
        join_with(parts.drop_last(), sep) + sep + parts.last()
    }
}

/// The pieces of `parts` with `sep` between consecutive ones.
pub fn join_chars(parts: &Vec<Vec<char>>, sep: &Vec<char>) -> (r: Vec<char>)
    ensures
        r@ == join_with(parts@.map_values(|p: Vec<char>| p@), sep@),
{
    let ghost views = parts@.map_values(|p: Vec<char>| p@);
    let mut r: Vec<char> = Vec::new();
    let n = parts.len();
    for i in 0..n
        invariant
            n == parts.len(),
            views == parts@.map_values(|p: Vec<char>| p@),
            r@ == join_with(views.take(i as int), sep@),
    {
        if i > 0 {
            r.extend_from_slice(sep.as_slice());
        }
        r.extend_from_slice(parts[i].as_slice());
        proof {
            let t = views.take(i + 1);
            assert(t.drop_last() == views.take(i as int));
            assert(t.last() == parts@[i as int]@);
            if i == 0 {
                assert(t.len() == 1);
            }
        }
    }
    assert(views.take(n as int) == views);
    r
}


/// Appends `n` in decimal, padded with a zero to at least two digits.
pub fn push_decimal_2(out: &mut Vec<char>, n: u64)
    ensures
        final(out)@ == old(out)@ + decimal_2(n as nat),
{
    if n < 10 {
        out.push('0');
        out.push(((48u8 + (n as u8)) as char));
        assert(decimal_2(n as nat) == seq!['0'].push(digit_char(n as nat)));
    } else {
        push_decimal(out, n);
    }
}

/// Removing a character that does not occur changes nothing.
pub proof fn lemma_without_absent_char(s: Seq<char>, c: char)
    requires
        forall|i: int| 0 <= i < s.len() ==> #[trigger] s[i] != c,
    ensures
        without_char(s, c) == s,
    decreases s.len(),
{
    if s.len() > 0 {
        let t = s.drop_last();
        assert forall|i: int| 0 <= i < t.len() implies #[trigger] t[i] != c by {
            assert(t[i] == s[i]);
        }
        lemma_without_absent_char(t, c);
        assert(s.last() == s[s.len() - 1]);
        assert(t.push(s.last()) == s);
    }
}


/// ASCII case mapping changes no white space and no space.
pub proof fn lemma_ascii_case_keeps_space(c: char)
    ensures
        is_white_space(ascii_upper(c)) == is_white_space(c),
        is_white_space(ascii_lower(c)) == is_white_space(c),
        (ascii_upper(c) == ' ') == (c == ' '),
        (ascii_lower(c) == ' ') == (c == ' '),
        ascii_upper(ascii_lower(c)) == ascii_upper(c),
        is_ascii_char(c) ==> is_ascii_char(ascii_upper(c)) && is_ascii_char(ascii_lower(c)),
{
}

/// Trimming keeps only characters of the text.
pub proof fn lemma_trim_ascii(s: Seq<char>)
    requires
        all_ascii(s),
    ensures
        all_ascii(trim_start(s)),
        all_ascii(trim_end(s)),
        all_ascii(trim(s)),
    decreases s.len(),
{
    if s.len() > 0 {
        let a = s.drop_first();
        let b = s.drop_last();
        assert(all_ascii(a)) by {
            assert forall|i: int| 0 <= i < a.len() implies is_ascii_char(#[trigger] a[i]) by {
                assert(a[i] == s[i + 1]);
            }
        }
        assert(all_ascii(b)) by {
            assert forall|i: int| 0 <= i < b.len() implies is_ascii_char(#[trigger] b[i]) by {
                assert(b[i] == s[i]);
            }
        }
        lemma_trim_ascii(a);
        lemma_trim_ascii(b);
    }
    if trim_start(s) != s {
        assert(s.len() > 0);
    }
    lemma_trim_end_ascii(trim_start(s));
}

proof fn lemma_trim_end_ascii(s: Seq<char>)
    requires
        all_ascii(s),
    ensures
        all_ascii(trim_end(s)),
    decreases s.len(),
{
    if s.len() > 0 {
        let b = s.drop_last();
        assert(all_ascii(b)) by {
            assert forall|i: int| 0 <= i < b.len() implies is_ascii_char(#[trigger] b[i]) by {
                assert(b[i] == s[i]);
            }
        }
        lemma_trim_end_ascii(b);
    }
}

/// What trimming leaves starts and ends with a character that is not white space, and
/// trimming only from the end keeps the first character.
pub proof fn lemma_trim_ends(s: Seq<char>)
    ensures
        trim_start(s).len() > 0 ==> !is_white_space(trim_start(s)[0]),
        trim_end(s).len() > 0 ==> !is_white_space(trim_end(s).last()),
        trim_end(s).len() > 0 ==> trim_end(s)[0] == s[0],
        trim(s).len() > 0 ==> !is_white_space(trim(s)[0]) && !is_white_space(trim(s).last()),
    decreases s.len(),
{
    if s.len() > 0 {
        lemma_trim_ends(s.drop_first());
        lemma_trim_ends(s.drop_last());
        if trim_end(s.drop_last()).len() > 0 {
            assert(s.drop_last()[0] == s[0]);
        }
    }
    let t = trim_start(s);
    if t.len() > 0 && t.len() < s.len() + 1 {
        lemma_trim_ends_of(t);
    }
}

proof fn lemma_trim_ends_of(t: Seq<char>)
    ensures
        trim_end(t).len() > 0 ==> !is_white_space(trim_end(t).last()),
        trim_end(t).len() > 0 ==> trim_end(t)[0] == t[0],
    decreases t.len(),
{
    if t.len() > 0 {
        lemma_trim_ends_of(t.drop_last());
        if trim_end(t.drop_last()).len() > 0 {
            assert(t.drop_last()[0] == t[0]);
        }
    }
}

/// A text that neither starts nor ends with white space is its own trim.
pub proof fn lemma_trim_of_trimmed(s: Seq<char>)
    requires
        s.len() > 0 ==> !is_white_space(s[0]) && !is_white_space(s.last()),
    ensures
        trim(s) == s,
{
}

/// Trimming commutes with a character mapping that keeps white space.
pub proof fn lemma_trim_map(x: Seq<char>, f: spec_fn(char) -> char)
    requires
        forall|c: char| is_white_space(#[trigger] f(c)) == is_white_space(c),
    ensures
        trim_start(x.map_values(f)) == trim_start(x).map_values(f),
        trim_end(x.map_values(f)) == trim_end(x).map_values(f),
        trim(x.map_values(f)) == trim(x).map_values(f),
    decreases x.len(),
{
    if x.len() > 0 {
        assert(x.map_values(f).drop_first() == x.drop_first().map_values(f));
        assert(x.map_values(f).drop_last() == x.drop_last().map_values(f));
        assert(x.map_values(f)[0] == f(x[0]));
        assert(x.map_values(f).last() == f(x.last()));
        lemma_trim_map(x.drop_first(), f);
        lemma_trim_map(x.drop_last(), f);
    }
    lemma_trim_end_map(trim_start(x), f);
}

proof fn lemma_trim_end_map(x: Seq<char>, f: spec_fn(char) -> char)
    requires
        forall|c: char| is_white_space(#[trigger] f(c)) == is_white_space(c),
    ensures
        trim_end(x.map_values(f)) == trim_end(x).map_values(f),
    decreases x.len(),
{
    if x.len() > 0 {
        assert(x.map_values(f).drop_last() == x.drop_last().map_values(f));
        assert(x.map_values(f).last() == f(x.last()));
        lemma_trim_end_map(x.drop_last(), f);
    }
}

/// Removing `c` from a concatenation removes it from each part.
pub proof fn lemma_without_concat(a: Seq<char>, b: Seq<char>, c: char)
    ensures
        without_char(a + b, c) == without_char(a, c) + without_char(b, c),
    decreases b.len(),
{
    if b.len() == 0 {
        assert(a + b == a);
        assert(without_char(b, c) == b);
        assert(without_char(a, c) + b == without_char(a, c));
    } else {
        assert((a + b).drop_last() == a + b.drop_last());
        assert((a + b).last() == b.last());
        lemma_without_concat(a, b.drop_last(), c);
    }
}

/// What is left after removing `c` holds no `c`, and removing it again changes nothing.
pub proof fn lemma_without_idempotent(s: Seq<char>, c: char)
    ensures
        forall|i: int| 0 <= i < without_char(s, c).len() ==> #[trigger] without_char(s, c)[i] != c,
        without_char(without_char(s, c), c) == without_char(s, c),
    decreases s.len(),
{
    if s.len() > 0 {
        lemma_without_idempotent(s.drop_last(), c);
        let w = without_char(s.drop_last(), c);
        if s.last() != c {
            assert forall|i: int| 0 <= i < w.push(s.last()).len() implies #[trigger] w.push(
                s.last(),
            )[i] != c by {
                if i < w.len() {
                    assert(w.push(s.last())[i] == w[i]);
                }
            }
        }
    }
    lemma_without_absent_char(without_char(s, c), c);
}

/// Removing white space `c` from a text of white space leaves white space.
proof fn lemma_without_ws(s: Seq<char>, c: char)
    requires
        forall|i: int| 0 <= i < s.len() ==> is_white_space(#[trigger] s[i]),
    ensures
        forall|i: int| 0 <= i < without_char(s, c).len() ==> is_white_space(
            #[trigger] without_char(s, c)[i],
        ),
    decreases s.len(),
{
    if s.len() > 0 {
        let d = s.drop_last();
        assert forall|i: int| 0 <= i < d.len() implies is_white_space(#[trigger] d[i]) by {
            assert(d[i] == s[i]);
        }
        lemma_without_ws(d, c);
        let w = without_char(d, c);
        if s.last() != c {
            assert forall|i: int| 0 <= i < w.push(s.last()).len() implies is_white_space(
                #[trigger] w.push(s.last())[i],
            ) by {
                if i < w.len() {
                    assert(w.push(s.last())[i] == w[i]);
                } else {
                    assert(s.last() == s[s.len() - 1]);
                }
            }
        }
    }
}

/// Leading white space does not survive trimming from the start.
proof fn lemma_trim_start_ws_prefix(w: Seq<char>, y: Seq<char>)
    requires
        forall|i: int| 0 <= i < w.len() ==> is_white_space(#[trigger] w[i]),
    ensures
        trim_start(w + y) == trim_start(y),
    decreases w.len(),
{
    if w.len() == 0 {
        assert(w + y == y);
    } else {
        let d = w.drop_first();
        assert forall|i: int| 0 <= i < d.len() implies is_white_space(#[trigger] d[i]) by {
            assert(d[i] == w[i + 1]);
        }
        assert((w + y).drop_first() == d + y);
        assert((w + y)[0] == w[0]);
        lemma_trim_start_ws_prefix(d, y);
    }
}

/// Trailing white space does not survive trimming from the end.
proof fn lemma_trim_end_ws_suffix(y: Seq<char>, w: Seq<char>)
    requires
        forall|i: int| 0 <= i < w.len() ==> is_white_space(#[trigger] w[i]),
    ensures
        trim_end(y + w) == trim_end(y),
    decreases w.len(),
{
    if w.len() == 0 {
        assert(y + w == y);
    } else {
        let d = w.drop_last();
        assert forall|i: int| 0 <= i < d.len() implies is_white_space(#[trigger] d[i]) by {
            assert(d[i] == w[i]);
        }
        assert((y + w).drop_last() == y + d);
        assert((y + w).last() == w.last());
        assert(w.last() == w[w.len() - 1]);
        lemma_trim_end_ws_suffix(y, d);
    }
}

/// White space around a text does not survive trimming.
pub proof fn lemma_trim_padded(y: Seq<char>, w: Seq<char>)
    requires
        forall|i: int| 0 <= i < w.len() ==> is_white_space(#[trigger] w[i]),
    ensures
        trim(w + y + w) == trim(y),
{
    lemma_trim_start_ws_prefix(w, y + w);
    assert(w + y + w == w + (y + w));
    lemma_trim_start_end_suffix(y, w);
}

proof fn lemma_trim_start_end_suffix(y: Seq<char>, w: Seq<char>)
    requires
        forall|i: int| 0 <= i < w.len() ==> is_white_space(#[trigger] w[i]),
    ensures
        trim_end(trim_start(y + w)) == trim_end(trim_start(y)),
    decreases y.len(),
{
    if y.len() == 0 {
        assert(y + w == w);
        lemma_trim_start_ws_prefix(w, Seq::<char>::empty());
        assert(w + Seq::<char>::empty() == w);
    } else if is_white_space(y[0]) {
        assert((y + w).drop_first() == y.drop_first() + w);
        assert((y + w)[0] == y[0]);
        lemma_trim_start_end_suffix(y.drop_first(), w);
    } else {
        assert((y + w)[0] == y[0]);
        lemma_trim_end_ws_suffix(y, w);
    }
}

/// Removing spaces and trimming can be done in either order.
pub proof fn lemma_without_space_trim(x: Seq<char>)
    ensures
        without_char(trim(x), ' ') == trim(without_char(x, ' ')),
{
    lemma_without_trim_start(x);
    lemma_without_trim_end(trim_start(x));
}

proof fn lemma_without_trim_start(x: Seq<char>)
    ensures
        without_char(trim_start(x), ' ') == trim_start(without_char(x, ' ')),
    decreases x.len(),
{
    if x.len() > 0 {
        let head = seq![x[0]];
        let rest = x.drop_first();
        assert(x == head + rest);
        lemma_without_concat(head, rest, ' ');
        assert(head.drop_last() == Seq::<char>::empty());
        assert(head.last() == x[0]);
        if is_white_space(x[0]) {
            lemma_without_trim_start(rest);
            assert forall|i: int| 0 <= i < head.len() implies is_white_space(#[trigger] head[i]) by {}
            lemma_without_ws(head, ' ');
            lemma_trim_start_ws_prefix(without_char(head, ' '), without_char(rest, ' '));
        } else {
            assert(x[0] != ' ');
            assert(without_char(head.drop_last(), ' ') == Seq::<char>::empty());
            assert(Seq::<char>::empty().push(x[0]) == head);
            assert(without_char(head, ' ') == head);
            let w = without_char(x, ' ');
            assert(w == head + without_char(rest, ' '));
            assert(w[0] == x[0]);
        }
    }
}

proof fn lemma_without_trim_end(x: Seq<char>)
    ensures
        without_char(trim_end(x), ' ') == trim_end(without_char(x, ' ')),
    decreases x.len(),
{
    if x.len() > 0 {
        lemma_without_trim_end(x.drop_last());
        let w = without_char(x.drop_last(), ' ');
        if x.last() != ' ' {
            assert(w.push(x.last()).drop_last() == w);
            assert(w.push(x.last()).last() == x.last());
        }
    }
}


/// Removing `c` commutes with a character mapping that maps `c`, and only `c`, to `c`.
pub proof fn lemma_without_map(x: Seq<char>, f: spec_fn(char) -> char, c: char)
    requires
        forall|ch: char| (#[trigger] f(ch) == c) == (ch == c),
    ensures
        without_char(x.map_values(f), c) == without_char(x, c).map_values(f),
    decreases x.len(),
{
    if x.len() > 0 {
        assert(x.map_values(f).drop_last() == x.drop_last().map_values(f));
        assert(x.map_values(f).last() == f(x.last()));
        lemma_without_map(x.drop_last(), f, c);
        let w = without_char(x.drop_last(), c);
        assert(w.push(x.last()).map_values(f) == w.map_values(f).push(f(x.last())));
    }
}

/// Upper-cases `s` (`str::to_uppercase`). The result is named, not computed here. The
/// Unicode upper-case mapping works character by character (each character becomes its
/// upper-case form, which may be several characters), maps ASCII letters to their ASCII
/// upper case, and gives a space only for a space. The facts stated follow from that:
/// an all-ASCII string maps to its ASCII upper case; lower-casing the ASCII letters first
/// gives the same result; and removing the spaces first gives the result without its spaces.
#[verifier::external_body]
pub(crate) fn to_uppercase(s: &str) -> (r: String)
    ensures
        r@ == unicode_uppercase(s@),
        all_ascii(s@) ==> r@ == s@.map_values(|c: char| ascii_upper(c)),
        unicode_uppercase(s@.map_values(|c: char| ascii_lower(c))) == r@,
        unicode_uppercase(without_char(s@, ' ')) == without_char(r@, ' '),
{
    s.to_uppercase()
}

/// Lower-cases `s` (`str::to_lowercase`). The result is named, not computed here; the one
/// fact stated of it is that an all-ASCII string maps character by character to the ASCII
/// lower case.
#[verifier::external_body]
pub(crate) fn to_lowercase(s: &str) -> (r: String)
    ensures
        r@ == unicode_lowercase(s@),
        all_ascii(s@) ==> r@ == s@.map_values(|c: char| ascii_lower(c)),
{
    s.to_lowercase()
}

} // verus!
