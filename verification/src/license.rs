//! Pro license keys: `AQUERTY-<PAYLOAD>-<SIG>`, where SIG is the upper-case hex of the first
//! four bytes of an HMAC-SHA256 of the payload under the application secret.

use vstd::prelude::*;
use vstd::utf8::encode_utf8;
use crate::text::{
    all_ascii, ascii_lower, ascii_upper, chars_eq_ignore_ascii_case, chars_equal, chars_of, digit_char,
    eq_ignore_ascii_case, first_index, has_char, is_hex_digit, last_index, rfind_char,
    find_char, is_white_space, string_of, sub_chars, to_uppercase, trim, trim_chars, unicode_uppercase,
    without_char, without_char_chars,
};
use hmac::{Hmac, Mac};
use sha2::Sha256;

verus! {

/// HMAC-SHA256 tag of `message` under `key`, as the `hmac` and `sha2` crates compute it.
pub uninterp spec fn hmac_sha256(key: Seq<u8>, message: Seq<u8>) -> Seq<u8>;

/// Computes an HMAC-SHA256 tag (`Hmac::<Sha256>::new_from_slice`, `Mac::update`,
/// `Mac::finalize`). The tag is named, not computed here; it is stated to be 32 bytes long,
/// the SHA-256 output size. `new_from_slice` accepts keys of every length.
#[verifier::external_body]
fn hmac_sha256_tag(key: &[u8], message: &[u8]) -> (tag: Vec<u8>)
    ensures
        tag@ == hmac_sha256(key@, message@),
        tag@.len() == 32,
{
    let mut mac = <Hmac<Sha256> as Mac>::new_from_slice(key).expect("HMAC key length is valid");
    mac.update(message);
    mac.finalize().into_bytes().to_vec()
}

/// Lower-case hexadecimal digit of `v` (`0 <= v < 16`).
pub open spec fn hex_digit_lower(v: nat) -> char {
    if v < 10 {
        digit_char(v)
    } else {
        (('a' as u32) + (v - 10)) as char
    }
}

/// Lower-case hexadecimal text of `data`, two digits per byte, high half first.
pub open spec fn hex_lower(data: Seq<u8>) -> Seq<char>
    decreases data.len(),
{
    if data.len() == 0 {
        Seq::empty()
    } else {
        seq![hex_digit_lower((data[0] / 16) as nat), hex_digit_lower((data[0] % 16) as nat)]
            + hex_lower(data.drop_first())
    }
}

/// Lower-case hexadecimal encoding (`hex::encode`): two digits per byte, high half first,
/// from the digits `0123456789abcdef`.
#[verifier::external_body]
fn hex_encode(data: &[u8]) -> (s: String)
    ensures
        s@ == hex_lower(data@),
{
    hex::encode(data)
}

/// The secret under which keys are signed, as bytes.
pub open spec fn license_secret() -> Seq<u8> {
    encode_utf8("aquerty-stop-v1-change-me-before-ship"@)
}

fn license_secret_bytes() -> (b: &'static [u8])
    ensures
        b@ == license_secret(),
{
    "aquerty-stop-v1-change-me-before-ship".as_bytes()
}

/// The first four bytes of `tag`.
pub open spec fn first_four(tag: Seq<u8>) -> Seq<u8> {
    Seq::new(4, |i: int| tag[i])
}

/// The signature that a key carries for `payload`: the upper-case hex of the first four
/// bytes of the HMAC-SHA256 tag of the payload's UTF-8 bytes.
pub open spec fn signature(payload: Seq<char>) -> Seq<char> {
    hex_lower(first_four(hmac_sha256(license_secret(), encode_utf8(payload)))).map_values(
        |c: char| ascii_upper(c),
    )
}

proof fn lemma_hex_lower_shape(data: Seq<u8>)
    ensures
        hex_lower(data).len() == 2 * data.len(),
        all_ascii(hex_lower(data)),
        forall|i: int|
            0 <= i < hex_lower(data).len() ==> ('0' <= #[trigger] hex_lower(data)[i] <= '9'
                || 'a' <= hex_lower(data)[i] <= 'f'),
    decreases data.len(),
{
    if data.len() > 0 {
        lemma_hex_lower_shape(data.drop_first());
        let d = data[0];
        assert(d / 16 < 16 && d % 16 < 16);
        let h = hex_lower(data);
        let t = hex_lower(data.drop_first());
        assert forall|i: int| 0 <= i < h.len() implies ('0' <= #[trigger] h[i] <= '9' || 'a'
            <= h[i] <= 'f') && crate::text::is_ascii_char(h[i]) by {
            if i >= 2 {
                assert(h[i] == t[i - 2]);
            }
        }
    }
}

/// The signature of `payload`.
pub fn sign_payload(payload: &str) -> (sig: String)
    ensures
        sig@ == signature(payload@),
{
    let tag = hmac_sha256_tag(license_secret_bytes(), payload.as_bytes());
    let mut first: Vec<u8> = Vec::new();
    let mut i: usize = 0;
    while i < 4
        invariant
            i <= 4,
            tag@.len() == 32,
            first@ == tag@.take(i as int),
        decreases 4 - i,
    {
        first.push(tag[i]);
        i = i + 1;
    }
    assert(first@ =~= first_four(tag@));
    let hex = hex_encode(first.as_slice());
    proof {
        lemma_hex_lower_shape(first@);
    }
    to_uppercase(hex.as_str())
}

/// The normal form in which a typed key is checked: trimmed, upper-cased, spaces removed.
pub open spec fn normalize_key(key: Seq<char>) -> Seq<char> {
    without_char(unicode_uppercase(trim(key)), ' ')
}

/// The key that is accepted without a signature.
pub open spec fn demo_key() -> Seq<char> {
    "AQUERTY-PRO-DEMO-2026"@
}

/// Payload and signature of a normalized key: the key has at least two dashes, the text
/// before the first is `AQUERTY`, the payload lies between the first and the last dash and
/// the signature follows the last.
pub open spec fn key_fields(n: Seq<char>) -> Option<(Seq<char>, Seq<char>)> {
    if has_char(n, '-') && first_index(n, '-') < last_index(n, '-') && n.take(
        first_index(n, '-'),
    ) == "AQUERTY"@ {
        Some((n.subrange(first_index(n, '-') + 1, last_index(n, '-')), n.skip(last_index(n, '-') + 1)))
    } else {
        None
    }
}

/// Whether `sig` has the shape of a signature: eight hexadecimal digits.
pub open spec fn signature_shape(sig: Seq<char>) -> bool {
    &&& sig.len() == 8
    &&& forall|i: int| 0 <= i < sig.len() ==> is_hex_digit(#[trigger] sig[i])
}

/// Whether a normalized key is accepted.
pub open spec fn normalized_key_valid(n: Seq<char>) -> bool {
    &&& n.len() > 0
    &&& (n == demo_key() || match key_fields(n) {
        Some((payload, sig)) => signature_shape(sig) && eq_ignore_ascii_case(
            signature(payload),
            sig,
        ),
        None => false,
    })
}

/// Whether `key` is a valid Pro license key.
pub open spec fn key_valid(key: Seq<char>) -> bool {
    normalized_key_valid(normalize_key(key))
}

/// Whether a computed signature matches the one a key carries, ignoring ASCII case.
pub fn signature_matches(expected: &str, carried: &str) -> (r: bool)
    ensures
        r == eq_ignore_ascii_case(expected@, carried@),
{
    chars_eq_ignore_ascii_case(&chars_of(expected), &chars_of(carried))
}

/// Whether an already normalized key (see `normalize_key`) is accepted.
pub fn validate_normalized_key(normalized: &str) -> (valid: bool)
    ensures
        valid == normalized_key_valid(normalized@),
{
    let n = chars_of(normalized);
    if n.len() == 0 {
        return false;
    }
    if chars_equal(&n, &chars_of("AQUERTY-PRO-DEMO-2026")) {
        return true;
    }
    let f = match find_char(&n, '-') {
        None => return false,
        Some(f) => f,
    };
    let l = match rfind_char(&n, '-') {
        None => return false,
        Some(l) => l,
    };
    if f >= l {
        return false;
    }
    assert(n@.subrange(0, f as int) == n@.take(f as int));
    if !chars_equal(&sub_chars(&n, 0, f), &chars_of("AQUERTY")) {
        return false;
    }
    let sig = sub_chars(&n, l + 1, n.len());
    assert(sig@ == n@.skip(l + 1));
    if sig.len() != 8 || !crate::text::all_hex_digits(&sig) {
        return false;
    }
    let payload = string_of(&sub_chars(&n, f + 1, l));
    let expected = sign_payload(payload.as_str());
    signature_matches(expected.as_str(), string_of(&sig).as_str())
}

/// Normalizes a typed key: trims it, upper-cases it and removes its spaces.
pub fn normalize_key_text(key: &str) -> (n: String)
    ensures
        n@ == normalize_key(key@),
        all_ascii(key@) ==> n@ == ascii_normal_key(key@),
        normalize_key(seq![' '] + key@.map_values(|c: char| ascii_lower(c)) + seq![' ']) == n@,
        normalize_key(without_char(key@, ' ')) == n@,
{
    let trimmed = string_of(&trim_chars(&chars_of(key)));
    proof {
        if all_ascii(key@) {
            crate::text::lemma_trim_ascii(key@);
        }
    }
    let upper = to_uppercase(trimmed.as_str());
    proof {
        lemma_normal_forms_agree(key@, upper@);
    }
    string_of(&without_char_chars(&chars_of(upper.as_str()), ' '))
}

/// Padding a key with spaces, lower-casing its ASCII letters or removing its spaces leaves
/// its normal form as it is, given the upper case of its trimmed text and the two facts of
/// the upper-case mapping that `to_uppercase` states.
proof fn lemma_normal_forms_agree(key: Seq<char>, upper: Seq<char>)
    requires
        upper == unicode_uppercase(trim(key)),
        unicode_uppercase(trim(key).map_values(|c: char| ascii_lower(c))) == upper,
        unicode_uppercase(without_char(trim(key), ' ')) == without_char(upper, ' '),
    ensures
        normalize_key(seq![' '] + key.map_values(|c: char| ascii_lower(c)) + seq![' '])
            == without_char(upper, ' '),
        normalize_key(without_char(key, ' ')) == without_char(upper, ' '),
{
    let lo = |c: char| ascii_lower(c);
    assert forall|c: char| is_white_space(#[trigger] lo(c)) == is_white_space(c) by {
        crate::text::lemma_ascii_case_keeps_space(c);
    }
    let sp = seq![' '];
    assert forall|i: int| 0 <= i < sp.len() implies is_white_space(#[trigger] sp[i]) by {}
    crate::text::lemma_trim_padded(key.map_values(lo), sp);
    crate::text::lemma_trim_map(key, lo);
    crate::text::lemma_without_space_trim(key);
    crate::text::lemma_without_idempotent(upper, ' ');
}

/// The normal form of an ASCII key: trimmed, ASCII upper case, spaces removed (what
/// `normalize_key` is for a key of ASCII characters).
pub open spec fn ascii_normal_key(key: Seq<char>) -> Seq<char> {
    without_char(trim(key).map_values(|c: char| ascii_upper(c)), ' ')
}

/// The key stored for an ASCII key: trimmed and in ASCII upper case.
pub open spec fn ascii_stored_key(key: Seq<char>) -> Seq<char> {
    trim(key).map_values(|c: char| ascii_upper(c))
}

/// The verdict on an ASCII key does not depend on white space around it, on the case of
/// its letters or on spaces inside it: these forms of the key share its normal form.
pub proof fn lemma_key_normal_form_invariant(key: Seq<char>)
    ensures
        ascii_normal_key(seq![' '] + key.map_values(|c: char| ascii_lower(c)) + seq![' '])
            == ascii_normal_key(key),
        ascii_normal_key(without_char(key, ' ')) == ascii_normal_key(key),
        all_ascii(key) ==> all_ascii(seq![' '] + key.map_values(|c: char| ascii_lower(c)) + seq![' '])
            && all_ascii(without_char(key, ' ')),
{
    let up = |c: char| ascii_upper(c);
    let lo = |c: char| ascii_lower(c);
    assert forall|c: char| is_white_space(#[trigger] up(c)) == is_white_space(c) by {
        crate::text::lemma_ascii_case_keeps_space(c);
    }
    assert forall|c: char| is_white_space(#[trigger] lo(c)) == is_white_space(c) by {
        crate::text::lemma_ascii_case_keeps_space(c);
    }
    assert forall|c: char| (#[trigger] up(c) == ' ') == (c == ' ') by {
        crate::text::lemma_ascii_case_keeps_space(c);
    }
    // padded and lower-cased
    let sp = seq![' '];
    assert forall|i: int| 0 <= i < sp.len() implies is_white_space(#[trigger] sp[i]) by {}
    crate::text::lemma_trim_padded(key.map_values(lo), sp);
    crate::text::lemma_trim_map(key, lo);
    let t = trim(key);
    assert(t.map_values(lo).map_values(up) =~= t.map_values(up)) by {
        assert forall|i: int| 0 <= i < t.len() implies #[trigger] t.map_values(lo).map_values(up)[i]
            == t.map_values(up)[i] by {
            crate::text::lemma_ascii_case_keeps_space(t[i]);
        }
    }
    // spaces removed
    crate::text::lemma_without_space_trim(key);
    crate::text::lemma_without_map(trim(key), up, ' ');
    crate::text::lemma_without_idempotent(t.map_values(up), ' ');
    // ASCII is kept
    if all_ascii(key) {
        let p = sp + key.map_values(lo) + sp;
        assert forall|i: int| 0 <= i < p.len() implies crate::text::is_ascii_char(#[trigger] p[i]) by {
            if 1 <= i < p.len() - 1 {
                assert(p[i] == lo(key[i - 1]));
                crate::text::lemma_ascii_case_keeps_space(key[i - 1]);
            }
        }
        lemma_without_keeps_ascii(key, ' ');
    }
}

proof fn lemma_without_keeps_ascii(s: Seq<char>, c: char)
    requires
        all_ascii(s),
    ensures
        all_ascii(without_char(s, c)),
    decreases s.len(),
{
    if s.len() > 0 {
        let d = s.drop_last();
        assert forall|i: int| 0 <= i < d.len() implies crate::text::is_ascii_char(#[trigger] d[i]) by {
            assert(d[i] == s[i]);
        }
        lemma_without_keeps_ascii(d, c);
        let w = without_char(d, c);
        assert forall|i: int| 0 <= i < w.push(s.last()).len() implies crate::text::is_ascii_char(
            #[trigger] w.push(s.last())[i],
        ) by {
            if i < w.len() {
                assert(w.push(s.last())[i] == w[i]);
            } else {
                assert(s.last() == s[s.len() - 1]);
            }
        }
    }
}

/// The key stored for an ASCII key is ASCII, its own trim and its own upper case, and has
/// the normal form of the key it was stored for.
pub proof fn lemma_stored_key(key: Seq<char>)
    requires
        all_ascii(key),
    ensures
        all_ascii(ascii_stored_key(key)),
        trim(ascii_stored_key(key)) == ascii_stored_key(key),
        ascii_stored_key(key).map_values(|c: char| ascii_upper(c)) == ascii_stored_key(key),
        ascii_normal_key(ascii_stored_key(key)) == ascii_normal_key(key),
        ascii_stored_key(ascii_stored_key(key)) == ascii_stored_key(key),
{
    let up = |c: char| ascii_upper(c);
    let t = trim(key);
    let s = t.map_values(up);
    crate::text::lemma_trim_ascii(key);
    crate::text::lemma_trim_ends(key);
    crate::text::lemma_trim_of_trimmed(t);
    assert forall|c: char| is_white_space(#[trigger] up(c)) == is_white_space(c) by {
        crate::text::lemma_ascii_case_keeps_space(c);
    }
    crate::text::lemma_trim_map(t, up);
    assert forall|i: int| 0 <= i < s.len() implies crate::text::is_ascii_char(#[trigger] s[i]) by {
        crate::text::lemma_ascii_case_keeps_space(t[i]);
    }
    assert(s.map_values(up) =~= s);
}

/// Whether `key` is a valid Pro license key.
pub fn validate_key(key: &str) -> (valid: bool)
    ensures
        valid == key_valid(key@),
        all_ascii(key@) ==> valid == normalized_key_valid(ascii_normal_key(key@)),
        // neither white space around the key, nor the case of its ASCII letters, nor
        // spaces inside it change the verdict
        key_valid(seq![' '] + key@.map_values(|c: char| ascii_lower(c)) + seq![' ']) == valid,
        key_valid(without_char(key@, ' ')) == valid,
{
    let n = normalize_key_text(key);
    validate_normalized_key(n.as_str())
}

/// The key that `generate_key` builds around an upper-cased payload.
pub open spec fn key_for(upper_payload: Seq<char>) -> Seq<char> {
    "AQUERTY-"@ + upper_payload + "-"@ + signature(upper_payload)
}

/// A signed key for `payload`, which is upper-cased first.
pub fn generate_key(payload: &str) -> (key: String)
    ensures
        key@ == key_for(unicode_uppercase(payload@)),
        all_ascii(payload@) ==> key@ == key_for(payload@.map_values(|c: char| ascii_upper(c))),
{
    let upper = to_uppercase(payload);
    let sig = sign_payload(upper.as_str());
    let key = String::from_str("AQUERTY-");
    let key = key.concat(upper.as_str());
    let key = key.concat("-");
    key.concat(sig.as_str())
}

proof fn lemma_signature_shape(payload: Seq<char>)
    ensures
        signature_shape(signature(payload)),
        all_ascii(signature(payload)),
        forall|i: int|
            0 <= i < signature(payload).len() ==> ('0' <= #[trigger] signature(payload)[i] <= '9'
                || 'A' <= signature(payload)[i] <= 'F'),
{
    let b = first_four(hmac_sha256(license_secret(), encode_utf8(payload)));
    lemma_hex_lower_shape(b);
    let h = hex_lower(b);
    let sg = signature(payload);
    assert forall|i: int| 0 <= i < sg.len() implies ('0' <= #[trigger] sg[i] <= '9' || 'A'
        <= sg[i] <= 'F') && is_hex_digit(sg[i]) && crate::text::is_ascii_char(sg[i]) by {
        assert(sg[i] == ascii_upper(h[i]));
    }
}

/// A key generated for a payload of ASCII characters without white space is accepted:
/// it is already in the normal form in which keys are checked (no surrounding white space,
/// no spaces, ASCII upper case), and that normal form is valid.
pub proof fn lemma_generated_key_valid(payload: Seq<char>)
    requires
        all_ascii(payload),
        forall|i: int| 0 <= i < payload.len() ==> !is_white_space(#[trigger] payload[i]),
    ensures
        ({
            let k = key_for(payload.map_values(|c: char| ascii_upper(c)));
            &&& trim(k) == k
            &&& all_ascii(k)
            &&& k.map_values(|c: char| ascii_upper(c)) == k
            &&& without_char(k, ' ') == k
            &&& normalized_key_valid(k)
        }),
{
    reveal_strlit("AQUERTY-");
    reveal_strlit("AQUERTY");
    reveal_strlit("-");
    let u = payload.map_values(|c: char| ascii_upper(c));
    let sg = signature(u);
    let k = key_for(u);
    lemma_signature_shape(u);
    let pre = "AQUERTY-"@;
    let ul = u.len() as int;
    assert(k == pre + u + "-"@ + sg);
    assert(k.len() == 8 + ul + 1 + 8);
    assert forall|i: int| 0 <= i < k.len() implies {
        &&& crate::text::is_ascii_char(#[trigger] k[i])
        &&& k[i] != ' '
        &&& ascii_upper(k[i]) == k[i]
        &&& (i < 7 || 9 + ul <= i ==> k[i] != '-')
    } by {
        if i < 8 {
            assert(k[i] == pre[i]);
        } else if i < 8 + ul {
            assert(k[i] == u[i - 8]);
            assert(u[i - 8] == ascii_upper(payload[i - 8]));
            assert(!is_white_space(payload[i - 8]));
        } else if i == 8 + ul {
            assert(k[i] == '-');
        } else {
            assert(k[i] == sg[i - 9 - ul]);
        }
    }
    assert(k[0] == 'A');
    assert(k.last() == sg[7]);
    assert(trim(k) == k);
    assert(k.map_values(|c: char| ascii_upper(c)) =~= k);
    crate::text::lemma_without_absent_char(k, ' ');
    // the fields of the key
    assert(crate::text::is_first_index(k, '-', 7));
    let f = first_index(k, '-');
    assert(crate::text::is_first_index(k, '-', f));
    if f < 7 {
        assert(k[f] != '-');
    } else if f > 7 {
        assert(k[7] == '-');
    }
    assert(crate::text::is_last_index(k, '-', 8 + ul));
    let l = last_index(k, '-');
    assert(crate::text::is_last_index(k, '-', l));
    if l < 8 + ul {
        assert(k[8 + ul] == '-');
    } else if l > 8 + ul {
        assert(k[l] != '-');
    }
    assert(k.take(7) =~= "AQUERTY"@);
    assert(k.subrange(8, 8 + ul) =~= u);
    assert(k.skip(9 + ul) =~= sg);
    assert(key_fields(k) == Some((u, sg)));
    assert(eq_ignore_ascii_case(sg, sg));
}



/// What the application shows of its license.
pub struct LicenseInfo {
    pub is_pro: bool,
    pub key: Option<String>,
    pub message: String,
}

/// `info` is what the application shows for the stored key `key`: a valid key is kept
/// trimmed and upper-cased; an invalid one is dropped.
pub open spec fn describes_key(info: LicenseInfo, key: Option<Seq<char>>) -> bool {
    match key {
        Some(k) => if key_valid(k) {
            &&& info.is_pro
            &&& info.key matches Some(s) && s@ == unicode_uppercase(trim(k))
            &&& info.message@ == "Licence Pro active"@
        } else {
            &&& !info.is_pro
            &&& info.key is None
            &&& info.message@ == "Clé invalide"@
        },
        None => {
            &&& !info.is_pro
            &&& info.key is None
            &&& info.message@ == "Version gratuite"@
        },
    }
}

/// The license state that an optional stored key gives.
pub fn info_from_key(key: Option<&str>) -> (info: LicenseInfo)
    ensures
        describes_key(
            info,
            match key {
                Some(k) => Some(k@),
                None => None,
            },
        ),
        match key {
            Some(k) => all_ascii(k@) ==> {
                &&& info.is_pro == normalized_key_valid(ascii_normal_key(k@))
                // the stored key is the trimmed ASCII upper case of the key; it is accepted
                // in turn and stored as itself
                &&& info.is_pro ==> (info.key matches Some(s) && s@ == ascii_stored_key(k@)
                    && all_ascii(s@) && normalized_key_valid(ascii_normal_key(s@))
                    && ascii_stored_key(s@) == s@)
            },
            None => true,
        },
{
    match key {
        Some(k) => if validate_key(k) {
            let trimmed = string_of(&trim_chars(&chars_of(k)));
            proof {
                if all_ascii(k@) {
                    crate::text::lemma_trim_ascii(k@);
                    lemma_stored_key(k@);
                }
            }
            LicenseInfo {
                is_pro: true,
                key: Some(to_uppercase(trimmed.as_str())),
                message: String::from_str("Licence Pro active"),
            }
        } else {
            LicenseInfo { is_pro: false, key: None, message: String::from_str("Clé invalide") }
        },
        None => LicenseInfo {
            is_pro: false,
            key: None,
            message: String::from_str("Version gratuite"),
        },
    }
}

} // verus!
