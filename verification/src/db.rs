//! Vault entries, and the text that describes an entry's one-time
//! passwords.

use vstd::prelude::*;
use vstd::utf8::encode_utf8;

use crate::text::{chars_of, is_whitespace, push_range, push_str, white_space, wipe, wipe_chars};

verus! {

/// One vault entry, with the fields the application keeps.
pub struct Entry {
    /// The entry's identifier in the vault, or `None` for an entry that has
    /// not been saved yet.
    pub id: Option<u128>,
    pub name: String,
    pub user: String,
    pub password: String,
    pub url: String,
    pub totp: String,
    pub notes: String,
    pub date_last_modify: String,
}

impl Clone for Entry {
    fn clone(&self) -> (e: Entry)
        ensures
            e == *self,
    {
        Entry {
            id: self.id,
            name: self.name.clone(),
            user: self.user.clone(),
            password: self.password.clone(),
            url: self.url.clone(),
            totp: self.totp.clone(),
            notes: self.notes.clone(),
            date_last_modify: self.date_last_modify.clone(),
        }
    }
}

impl Default for Entry {
    fn default() -> (e: Entry)
        ensures
            e.id is None,
            e.name@.len() == 0,
            e.user@.len() == 0,
            e.password@.len() == 0,
            e.url@.len() == 0,
            e.totp@.len() == 0,
            e.notes@.len() == 0,
            e.date_last_modify@.len() == 0,
    {
        Entry {
            id: None,
            name: String::new(),
            user: String::new(),
            password: String::new(),
            url: String::new(),
            totp: String::new(),
            notes: String::new(),
            date_last_modify: String::new(),
        }
    }
}

/// Wipes every text field of an entry, leaving it blank but for its
/// identifier.
pub fn wipe_entry(e: &mut Entry)
    ensures
        final(e).id == old(e).id,
        final(e).name@.len() == 0,
        final(e).user@.len() == 0,
        final(e).password@.len() == 0,
        final(e).url@.len() == 0,
        final(e).totp@.len() == 0,
        final(e).notes@.len() == 0,
        final(e).date_last_modify@.len() == 0,
{
    wipe(&mut e.name);
    wipe(&mut e.user);
    wipe(&mut e.password);
    wipe(&mut e.url);
    wipe(&mut e.totp);
    wipe(&mut e.notes);
    wipe(&mut e.date_last_modify);
}

/// Empties an optional entry, wiping the entry it held.
pub fn clear_entry(slot: &mut Option<Entry>)
    ensures
        *final(slot) is None,
{
    if let Some(mut e) = slot.take() {
        wipe_entry(&mut e);
    }
}

/// Puts `e` at position `i` of the list, wiping the entry it replaces.
pub fn replace_entry(entries: &mut Vec<Entry>, i: usize, e: Entry)
    requires
        i < old(entries)@.len(),
    ensures
        final(entries)@ == old(entries)@.update(i as int, e),
{
    let mut replaced = entries.remove(i);
    wipe_entry(&mut replaced);
    entries.insert(i, e);
    assert(entries@ =~= old(entries)@.update(i as int, e));
}

/// Removes the entry at position `i` from the list, wiping it.
pub fn remove_entry(entries: &mut Vec<Entry>, i: usize)
    requires
        i < old(entries)@.len(),
    ensures
        final(entries)@ == old(entries)@.remove(i as int),
{
    let mut removed = entries.remove(i);
    wipe_entry(&mut removed);
}

/// Empties a list of entries, wiping each one.
pub fn wipe_entries(entries: &mut Vec<Entry>)
    ensures
        final(entries)@.len() == 0,
{
    while entries.len() > 0
        decreases entries@.len(),
    {
        if let Some(mut e) = entries.pop() {
            wipe_entry(&mut e);
        }
    }
}

// ---------------------------------------------------------------------
// Trimming, splitting and numbers

/// `s` without its leading white space.
pub open spec fn trim_start(s: Seq<char>) -> Seq<char>
    decreases s.len(),
{
    if s.len() > 0 && white_space(s[0]) {
        trim_start(s.drop_first())
    } else {
        s
    }
}

/// `s` without its trailing white space.
pub open spec fn trim_end(s: Seq<char>) -> Seq<char>
    decreases s.len(),
{
    if s.len() > 0 && white_space(s.last()) {
        trim_end(s.drop_last())
    } else {
        s
    }
}

/// `s` without leading and trailing white space, as `str::trim` gives it.
pub open spec fn trimmed(s: Seq<char>) -> Seq<char> {
    trim_end(trim_start(s))
}

/// The position of the first `c` in `s`.
pub open spec fn first_index(s: Seq<char>, c: char) -> Option<int>
    decreases s.len(),
{
    if s.len() == 0 {
        None
    } else {
        match first_index(s.drop_last(), c) {
            Some(i) => Some(i),
            None => if s.last() == c {
                Some(s.len() - 1)
            } else {
                None
            },
        }
    }
}

/// The value of a run of decimal digits.
pub open spec fn digits_value(d: Seq<char>) -> int
    decreases d.len(),
{
    if d.len() == 0 {
        0
    } else {
        digits_value(d.drop_last()) * 10 + (d.last() as int - '0' as int)
    }
}

pub open spec fn all_digits(d: Seq<char>) -> bool {
    forall|i: int| 0 <= i < d.len() ==> '0' <= #[trigger] d[i] <= '9'
}

/// The number `u32::from_str` reads: an optional `+` and then one or more
/// decimal digits, of a value that fits in 32 bits.
pub open spec fn parsed_u32(s: Seq<char>) -> Option<u32> {
    let d = if s.len() > 0 && s[0] == '+' {
        s.drop_first()
    } else {
        s
    };
    if d.len() > 0 && all_digits(d) && digits_value(d) <= u32::MAX {
        Some(digits_value(d) as u32)
    } else {
        None
    }
}

pub open spec fn digit_char(n: int) -> char {
    ((48 + n) as u8) as char
}

/// The decimal representation of `n`, without leading zeroes.
pub open spec fn decimal(n: nat) -> Seq<char>
    decreases n,
{
    if n < 10 {
        seq![digit_char(n as int)]
    } else {
        decimal(n / 10).push(digit_char((n % 10) as int))
    }
}

proof fn lemma_digits_value_grows(d: Seq<char>, i: int)
    requires
        0 <= i <= d.len(),
        all_digits(d),
    ensures
        0 <= digits_value(d.take(i)) <= digits_value(d),
    decreases d.len() - i,
{
    if i < d.len() {
        lemma_digits_value_grows(d, i + 1);
        assert(d.take(i + 1).drop_last() == d.take(i));
        assert('0' <= d[i] <= '9');
    } else {
        assert(d.take(i) == d);
    }
    lemma_digits_value_nonneg(d.take(i));
}

proof fn lemma_digits_value_nonneg(d: Seq<char>)
    requires
        all_digits(d),
    ensures
        digits_value(d) >= 0,
    decreases d.len(),
{
    if d.len() > 0 {
        assert(all_digits(d.drop_last()));
        lemma_digits_value_nonneg(d.drop_last());
        assert('0' <= d[d.len() - 1] <= '9');
    }
}

/// `v[from..to]` without leading and trailing white space, as the bounds of
/// what is left.
fn trim_range(v: &Vec<char>, from: usize, to: usize) -> (r: (usize, usize))
    requires
        from <= to <= v@.len(),
    ensures
        from <= r.0 <= r.1 <= to,
        v@.subrange(r.0 as int, r.1 as int) == trimmed(v@.subrange(from as int, to as int)),
{
    let mut a = from;
    while a < to && is_whitespace(v[a])
        invariant
            from <= a <= to <= v@.len(),
            trim_start(v@.subrange(from as int, to as int)) == trim_start(
                v@.subrange(a as int, to as int),
            ),
        decreases to - a,
    {
        assert(v@.subrange(a as int, to as int).drop_first() == v@.subrange(a + 1, to as int));
        a = a + 1;
    }
    assert(trim_start(v@.subrange(a as int, to as int)) == v@.subrange(a as int, to as int));
    let mut b = to;
    while b > a && is_whitespace(v[b - 1])
        invariant
            from <= a <= b <= to <= v@.len(),
            trim_end(v@.subrange(a as int, to as int)) == trim_end(v@.subrange(a as int, b as int)),
        decreases b - a,
    {
        assert(v@.subrange(a as int, b as int).drop_last() == v@.subrange(a as int, b - 1));
        b = b - 1;
    }
    assert(trim_end(v@.subrange(a as int, b as int)) == v@.subrange(a as int, b as int));
    (a, b)
}

proof fn lemma_first_index_extend(s: Seq<char>, k: int, c: char)
    requires
        0 <= k <= s.len(),
        first_index(s.take(k), c) is Some,
    ensures
        first_index(s, c) == first_index(s.take(k), c),
    decreases s.len() - k,
{
    if k < s.len() {
        assert(s.take(k + 1).drop_last() == s.take(k));
        lemma_first_index_extend(s, k + 1, c);
    } else {
        assert(s.take(k) == s);
    }
}

/// The first position of `c` in `v[from..to]`, counted from `from`.
fn find_char(v: &Vec<char>, from: usize, to: usize, c: char) -> (r: Option<usize>)
    requires
        from <= to <= v@.len(),
    ensures
        match r {
            Some(i) => from <= i < to && first_index(v@.subrange(from as int, to as int), c) == Some(
                i - from,
            ),
            None => first_index(v@.subrange(from as int, to as int), c) is None,
        },
{
    let mut i = from;
    while i < to
        invariant
            from <= i <= to <= v@.len(),
            first_index(v@.subrange(from as int, i as int), c) is None,
        decreases to - i,
    {
        assert(v@.subrange(from as int, i + 1).drop_last() == v@.subrange(from as int, i as int));
        if v[i] == c {
            proof {
                let s = v@.subrange(from as int, to as int);
                assert(s.take(i + 1 - from) == v@.subrange(from as int, i + 1));
                lemma_first_index_extend(s, i + 1 - from, c);
            }
            return Some(i);
        }
        i = i + 1;
    }
    None
}

/// Reads `v[from..to]` as `u32::from_str` does.
pub fn parse_u32(v: &Vec<char>, from: usize, to: usize) -> (r: Option<u32>)
    requires
        from <= to <= v@.len(),
    ensures
        r == parsed_u32(v@.subrange(from as int, to as int)),
{
    let ghost s = v@.subrange(from as int, to as int);
    let start = if from < to && v[from] == '+' {
        from + 1
    } else {
        from
    };
    let ghost d = v@.subrange(start as int, to as int);
    assert(d == if s.len() > 0 && s[0] == '+' {
        s.drop_first()
    } else {
        s
    });
    if start == to {
        return None;
    }
    let mut k = start;
    while k < to
        invariant
            start <= k <= to <= v@.len(),
            d == v@.subrange(start as int, to as int),
            s == v@.subrange(from as int, to as int),
            d == if s.len() > 0 && s[0] == '+' {
                s.drop_first()
            } else {
                s
            },
            forall|j: int| 0 <= j < k - start ==> '0' <= #[trigger] d[j] <= '9',
        decreases to - k,
    {
        if v[k] < '0' || v[k] > '9' {
            assert(d[k - start] == v@[k as int]);
            return None;
        }
        k = k + 1;
    }
    assert(all_digits(d));
    let mut value: u64 = 0;
    let mut k = start;
    while k < to
        invariant
            start <= k <= to <= v@.len(),
            d == v@.subrange(start as int, to as int),
            s == v@.subrange(from as int, to as int),
            d == if s.len() > 0 && s[0] == '+' {
                s.drop_first()
            } else {
                s
            },
            all_digits(d),
            value == digits_value(d.take(k - start)),
            value <= u32::MAX,
        decreases to - k,
    {
        assert(d.take(k + 1 - start).drop_last() == d.take(k - start));
        assert(d.take(k + 1 - start).last() == v@[k as int]);
        let digit = (v[k] as u32 - '0' as u32) as u64;
        value = value * 10 + digit;
        k = k + 1;
        if value > 4294967295 {
            proof {
                lemma_digits_value_grows(d, k - start);
            }
            return None;
        }
    }
    assert(d.take(to - start) == d);
    Some(value as u32)
}

/// Appends the decimal representation of `n`.
pub fn push_decimal(s: &mut String, n: u32)
    ensures
        final(s)@ == old(s)@ + decimal(n as nat),
    decreases n,
{
    if n >= 10 {
        push_decimal(s, n / 10);
    }
    s.push(((48 + n % 10) as u8) as char);
}

/// Appends the decimal representation of a 128-bit `n`.
pub fn push_decimal_wide(s: &mut String, n: u128)
    ensures
        final(s)@ == old(s)@ + decimal(n as nat),
    decreases n,
{
    if n >= 10 {
        push_decimal_wide(s, n / 10);
    }
    s.push(((48 + n % 10) as u8) as char);
}

// ---------------------------------------------------------------------
// Percent-encoding

/// The bytes that percent-encoding leaves as they are.
pub open spec fn unreserved(b: u8) -> bool {
    ('A' as u8 <= b <= 'Z' as u8) || ('a' as u8 <= b <= 'z' as u8) || ('0' as u8 <= b <= '9' as u8)
        || b == '-' as u8 || b == '_' as u8 || b == '.' as u8 || b == '~' as u8
}

/// An upper-case hexadecimal digit.
pub open spec fn hex_digit(n: int) -> char {
    if n < 10 {
        ((48 + n) as u8) as char
    } else {
        ((55 + n) as u8) as char
    }
}

/// One byte, percent-encoded.
pub open spec fn encode_byte(b: u8) -> Seq<char> {
    if unreserved(b) {
        seq![b as char]
    } else {
        seq!['%', hex_digit(b as int / 16), hex_digit(b as int % 16)]
    }
}

/// Bytes, percent-encoded one after the other.
pub open spec fn percent_encoded(bytes: Seq<u8>) -> Seq<char>
    decreases bytes.len(),
{
    if bytes.len() == 0 {
        Seq::empty()
    } else {
        percent_encoded(bytes.drop_last()) + encode_byte(bytes.last())
    }
}

fn hex_char(n: u8) -> (c: char)
    requires
        n < 16,
    ensures
        c == hex_digit(n as int),
{
    if n < 10 {
        (48 + n) as char
    } else {
        (55 + n) as char
    }
}

/// Percent-encodes the UTF-8 bytes of `input`: letters, digits and
/// `-_.~` stay as they are, every other byte becomes `%` and two
/// upper-case hexadecimal digits.
pub fn urlencoding_encode(input: &str) -> (r: String)
    ensures
        r@ == percent_encoded(encode_utf8(input@)),
{
    let bytes = input.as_bytes();
    let mut out = String::new();
    let n = bytes.len();
    let mut i: usize = 0;
    while i < n
        invariant
            n == bytes@.len(),
            bytes@ == encode_utf8(input@),
            i <= n,
            out@ == percent_encoded(bytes@.take(i as int)),
        decreases n - i,
    {
        let b = bytes[i];
        assert(bytes@.take(i + 1).drop_last() == bytes@.take(i as int));
        assert(bytes@.take(i + 1).last() == b);
        if (65 <= b && b <= 90) || (97 <= b && b <= 122) || (48 <= b && b <= 57) || b == 45 || b
            == 95 || b == 46 || b == 126 {
            out.push(b as char);
        } else {
            out.push('%');
            out.push(hex_char(b / 16));
            out.push(hex_char(b % 16));
        }
        i = i + 1;
    }
    assert(bytes@.take(n as int) == bytes@);
    out
}


// ---------------------------------------------------------------------
// One-time passwords

/// The characters of an optional string.
pub open spec fn opt_chars(o: Option<&str>) -> Option<Seq<char>> {
    match o {
        Some(s) => Some(s@),
        None => None,
    }
}

/// The period and digit count in a "period;digits" setting, or 30 seconds
/// and 6 digits when there is no such setting or it does not read as two
/// numbers.
pub open spec fn totp_settings(settings: Option<Seq<char>>) -> (u32, u32) {
    match settings {
        Some(s) => match first_index(s, ';') {
            Some(i) => match (parsed_u32(trimmed(s.take(i))), parsed_u32(trimmed(s.skip(i + 1)))) {
                (Some(p), Some(d)) => (p, d),
                _ => (30, 6),
            },
            None => (30, 6),
        },
        None => (30, 6),
    }
}

/// The `otpauth://` URI for a seed and its settings, labelled with the
/// entry's title and user name.
pub open spec fn totp_uri(
    seed: Seq<char>,
    period: u32,
    digits: u32,
    label: Seq<char>,
    user: Seq<char>,
) -> Seq<char> {
    "otpauth://totp/"@ + percent_encoded(encode_utf8(label + seq![':'] + user)) + "?secret="@ + seed
        + "&period="@ + decimal(period as nat) + "&digits="@ + decimal(digits as nat) + "&issuer="@
        + percent_encoded(encode_utf8(label))
}

/// The one-time password description of an entry: its own OTP value when it
/// has a non-blank one, else a URI built from a non-blank "TOTP Seed" and
/// the "TOTP Settings", else nothing.
pub open spec fn resolved_totp(
    raw_otp: Option<Seq<char>>,
    seed: Option<Seq<char>>,
    settings: Option<Seq<char>>,
    title: Option<Seq<char>>,
    user: Option<Seq<char>>,
) -> Seq<char> {
    if raw_otp is Some && trimmed(raw_otp->0).len() > 0 {
        raw_otp->0
    } else {
        match seed {
            None => Seq::empty(),
            Some(sd) => if trimmed(sd).len() == 0 {
                Seq::empty()
            } else {
                let (p, d) = totp_settings(settings);
                totp_uri(
                    trimmed(sd),
                    p,
                    d,
                    match title {
                        Some(t) => t,
                        None => Seq::empty(),
                    },
                    match user {
                        Some(u) => u,
                        None => Seq::empty(),
                    },
                )
            },
        }
    }
}

fn settings_pair(settings: Option<&str>) -> (r: (u32, u32))
    ensures
        r == totp_settings(opt_chars(settings)),
{
    let s = match settings {
        Some(s) => s,
        None => return (30, 6),
    };
    let mut v = chars_of(s);
    let n = v.len();
    let r = match find_char(&v, 0, n, ';') {
        Some(i) => {
            assert(v@.subrange(0, n as int) == s@);
            assert(v@.subrange(0, i as int) == s@.take(i as int));
            assert(v@.subrange(i + 1, n as int) == s@.skip(i + 1));
            let (pa, pb) = trim_range(&v, 0, i);
            let (da, db) = trim_range(&v, i + 1, n);
            match (parse_u32(&v, pa, pb), parse_u32(&v, da, db)) {
                (Some(p), Some(d)) => (p, d),
                _ => (30, 6),
            }
        },
        None => {
            assert(v@.subrange(0, n as int) == s@);
            (30, 6)
        },
    };
    wipe_chars(&mut v);
    r
}

/// Whether a string is blank: empty once trimmed.
pub fn is_blank(s: &str) -> (r: bool)
    ensures
        r == (trimmed(s@).len() == 0),
{
    let mut v = chars_of(s);
    let n = v.len();
    let (a, b) = trim_range(&v, 0, n);
    assert(v@.subrange(0, n as int) == s@);
    wipe_chars(&mut v);
    a == b
}

/// The trimmed part of a string.
pub(crate) fn trim(s: &str) -> (r: String)
    ensures
        r@ == trimmed(s@),
{
    let mut v = chars_of(s);
    let n = v.len();
    let (a, b) = trim_range(&v, 0, n);
    assert(v@.subrange(0, n as int) == s@);
    let mut r = String::new();
    push_range(&mut r, &v, a, b);
    wipe_chars(&mut v);
    r
}

/// The one-time password description of an entry, from the fields the
/// vault holds for it: its OTP value, a "TOTP Seed" with its "TOTP
/// Settings", and its title and user name.
pub fn resolve_totp(
    raw_otp: Option<&str>,
    seed: Option<&str>,
    settings: Option<&str>,
    title: Option<&str>,
    username: Option<&str>,
) -> (r: String)
    ensures
        r@ == resolved_totp(
            opt_chars(raw_otp),
            opt_chars(seed),
            opt_chars(settings),
            opt_chars(title),
            opt_chars(username),
        ),
{
    if let Some(otp) = raw_otp {
        if !is_blank(otp) {
            let mut r = String::new();
            push_str(&mut r, otp);
            return r;
        }
    }
    let seed = match seed {
        Some(sd) => sd,
        None => return String::new(),
    };
    let seed = trim(seed);
    if seed.as_str().is_empty() {
        return String::new();
    }
    let (period, digits) = settings_pair(settings);
    let label = match title {
        Some(t) => t,
        None => "",
    };
    let user = match username {
        Some(u) => u,
        None => "",
    };
    let mut label_user = String::new();
    push_str(&mut label_user, label);
    label_user.push(':');
    push_str(&mut label_user, user);
    let encoded_label = urlencoding_encode(label_user.as_str());
    let encoded_issuer = urlencoding_encode(label);
    let mut r = String::new();
    push_str(&mut r, "otpauth://totp/");
    push_str(&mut r, encoded_label.as_str());
    push_str(&mut r, "?secret=");
    push_str(&mut r, seed.as_str());
    push_str(&mut r, "&period=");
    push_decimal(&mut r, period);
    push_str(&mut r, "&digits=");
    push_decimal(&mut r, digits);
    push_str(&mut r, "&issuer=");
    push_str(&mut r, encoded_issuer.as_str());
    proof {
        reveal_strlit("");
    }
    assert(label_user@ == label@ + seq![':'] + user@);
    r
}


/// What `keepass` reads from a string as TOTP settings: nothing when it
/// does not read as such, else the period, in seconds, and the number of
/// digits.
pub uninterp spec fn totp_parsed(raw: Seq<char>) -> Option<(u64, u32)>;

/// Whether `keepass` reads a string as TOTP settings.
pub open spec fn totp_parses(raw: Seq<char>) -> bool {
    totp_parsed(raw) is Some
}

/// `<keepass::db::TOTP as FromStr>::from_str`: reads an `otpauth://` URI.
/// Claimed: whether it succeeds and, when it does, the period and digits it
/// read (the parsed value's own public fields), as a function of the text.
#[verifier::external_body]
fn parse_totp(raw: &str) -> (r: Option<(u64, u32)>)
    ensures
        r == totp_parsed(raw@),
{
    match raw.parse::<keepass::db::TOTP>() {
        Ok(t) => Some((t.period, t.digits)),
        Err(_) => None,
    }
}

/// Whether `s` is a one-time code of `digits` digits: that many decimal
/// digits, zero-padded, and a single `0` for no digits at all.
pub open spec fn is_code(s: Seq<char>, digits: u32) -> bool {
    &&& s.len() == if digits == 0 {
        1
    } else {
        digits as int
    }
    &&& forall|i: int| 0 <= i < s.len() ==> '0' <= #[trigger] s[i] <= '9'
}

/// The number of digits TOTP settings ask for (none when they do not read
/// as settings).
pub open spec fn totp_digits(raw: Seq<char>) -> u32 {
    match totp_parsed(raw) {
        Some((_, digits)) => digits,
        None => 0,
    }
}

/// Whether TOTP settings give codes: a period above zero and at most
/// nineteen digits, as many as a 64-bit code holds.
pub open spec fn totp_usable(raw: Seq<char>) -> bool {
    totp_parsed(raw) matches Some((period, digits)) && period > 0 && digits <= 19
}

/// `keepass::db::TOTP::value_now` on the TOTP that `raw` reads as: the
/// code for the current time and how long it stays valid. The call divides
/// the time by the TOTP's period and takes the code modulo ten to the power
/// of its digits, so it is only made on settings with a period above zero
/// and at most nineteen digits. It fails only when the clock reads before
/// 1970, and which code comes out depends on the clock; claimed is what
/// holds of every code: `totp_lite` formats the remainder modulo ten to the
/// power of the digits with zero padding to that many digits, so it is a
/// code of as many digits as the settings ask for.
#[verifier::external_body]
fn totp_value_now(raw: &str) -> (r: Option<(String, std::time::Duration)>)
    requires
        totp_usable(raw@),
    ensures
        r matches Some((code, _)) ==> is_code(code@, totp_digits(raw@)),
{
    match raw.parse::<keepass::db::TOTP>() {
        Ok(totp) => match totp.value_now() {
            Ok(code) => Some((code.code, code.valid_for)),
            Err(_) => None,
        },
        Err(_) => None,
    }
}

/// A one-time code and how long it stays valid.
pub struct TotpCode {
    pub code: String,
    pub valid_for: std::time::Duration,
}


/// The code handed back for what the clock-reading call returned: the same
/// code and validity, or none.
pub fn totp_code_of(value: Option<(String, std::time::Duration)>) -> (r: Option<TotpCode>)
    ensures
        match value {
            Some((code, valid_for)) => r matches Some(t) && t.code == code && t.valid_for
                == valid_for,
            None => r is None,
        },
{
    match value {
        Some((code, valid_for)) => Some(TotpCode { code, valid_for }),
        None => None,
    }
}

/// The current one-time code for a TOTP description, if it is not blank,
/// reads as TOTP settings and those give codes: a code of as many digits as
/// the settings ask for. Which code comes out depends on the clock, and
/// none does when the clock reads before 1970.
pub fn current_totp_code(raw: &str) -> (r: Option<TotpCode>)
    ensures
        r is Some ==> trimmed(raw@).len() > 0 && totp_parses(raw@) && totp_usable(raw@),
        r matches Some(t) ==> (totp_parsed(raw@) matches Some((_, digits)) && is_code(
            t.code@,
            digits,
        )),
        trimmed(raw@).len() == 0 ==> r is None,
        !totp_parses(raw@) ==> r is None,
        !totp_usable(raw@) ==> r is None,
{
    if is_blank(raw) {
        return None;
    }
    let (period, digits) = match parse_totp(raw) {
        Some(t) => t,
        None => return None,
    };
    if period == 0 || digits > 19 {
        return None;
    }
    totp_code_of(totp_value_now(raw))
}

/// The path a vault is first written to before it replaces the file at
/// `path`: the same path with `.tmp` appended.
pub fn sibling_tmp_path(path: &str) -> (r: String)
    ensures
        r@ == path@ + ".tmp"@,
{
    let mut r = String::new();
    push_str(&mut r, path);
    push_str(&mut r, ".tmp");
    r
}

} // verus!
