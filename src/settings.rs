//! The persisted volume setting: the text it is stored as, how that text is
//! read back, and the host scripts that keep it in the host's key/value store.

use vstd::prelude::*;
use vstd::string::StringExecFns;

verus! {

/// The largest volume.
pub const MAX_VOLUME: u32 = 128;

/// The volume used when none is stored.
pub const DEFAULT_VOLUME: u32 = 1;

/// White space as Unicode's `White_Space` property has it, the set that
/// `char::is_whitespace` and `str::trim` use.
pub open spec fn is_space(c: char) -> bool {
    ('\u{9}' <= c && c <= '\u{D}') || c == ' ' || c == '\u{85}' || c == '\u{A0}'
        || c == '\u{1680}' || ('\u{2000}' <= c && c <= '\u{200A}') || c == '\u{2028}'
        || c == '\u{2029}' || c == '\u{202F}' || c == '\u{205F}' || c == '\u{3000}'
}

pub open spec fn is_digit(c: char) -> bool {
    '0' <= c && c <= '9'
}

pub open spec fn digit_value(c: char) -> int {
    (c as int) - ('0' as int)
}

pub open spec fn all_digits(s: Seq<char>) -> bool {
    forall|i: int| 0 <= i < s.len() ==> is_digit(#[trigger] s[i])
}

/// The number that the decimal digits `s` write, most significant first.
pub open spec fn digits_value(s: Seq<char>) -> int
    decreases s.len(),
{
    if s.len() == 0 {
        0
    } else {
        digits_value(s.drop_last()) * 10 + digit_value(s.last())
    }
}

pub open spec fn trim_front(s: Seq<char>) -> Seq<char>
    decreases s.len(),
{
    if s.len() > 0 && is_space(s[0]) {
        trim_front(s.drop_first())
    } else {
        s
    }
}

pub open spec fn trim_back(s: Seq<char>) -> Seq<char>
    decreases s.len(),
{
    if s.len() > 0 && is_space(s.last()) {
        trim_back(s.drop_last())
    } else {
        s
    }
}

/// `s` without its leading and trailing white space.
pub open spec fn trimmed(s: Seq<char>) -> Seq<char> {
    trim_back(trim_front(s))
}

/// `t` without one leading `+`.
pub open spec fn unsigned_part(t: Seq<char>) -> Seq<char> {
    if t.len() > 0 && t[0] == '+' {
        t.drop_first()
    } else {
        t
    }
}

/// The volume that the stored text `s` holds: a decimal number, with an
/// optional `+` and white space around it, of at most `MAX_VOLUME`. Any other
/// text, the empty text included, holds none.
pub open spec fn volume_of_text(s: Seq<char>) -> Option<u32> {
    let d = unsigned_part(trimmed(s));
    if d.len() > 0 && all_digits(d) && digits_value(d) <= MAX_VOLUME {
        Some(digits_value(d) as u32)
    } else {
        None
    }
}

pub open spec fn digit_char(d: int) -> char {
    if d == 0 {
        '0'
    } else if d == 1 {
        '1'
    } else if d == 2 {
        '2'
    } else if d == 3 {
        '3'
    } else if d == 4 {
        '4'
    } else if d == 5 {
        '5'
    } else if d == 6 {
        '6'
    } else if d == 7 {
        '7'
    } else if d == 8 {
        '8'
    } else {
        '9'
    }
}

/// The decimal digits of `n`, most significant first, with no leading zero.
pub open spec fn decimal_text(n: nat) -> Seq<char>
    decreases n,
{
    if n < 10 {
        seq![digit_char(n as int)]
    } else {
        decimal_text(n / 10).push(digit_char((n % 10) as int))
    }
}

fn digit_str(d: u32) -> (s: &'static str)
    requires
        d < 10,
    ensures
        s@ == seq![digit_char(d as int)],
{
    proof {
        reveal_strlit("0");
        reveal_strlit("1");
        reveal_strlit("2");
        reveal_strlit("3");
        reveal_strlit("4");
        reveal_strlit("5");
        reveal_strlit("6");
        reveal_strlit("7");
        reveal_strlit("8");
        reveal_strlit("9");
    }
    match d {
        0 => "0",
        1 => "1",
        2 => "2",
        3 => "3",
        4 => "4",
        5 => "5",
        6 => "6",
        7 => "7",
        8 => "8",
        _ => "9",
    }
}

fn push_decimal(out: &mut String, n: u32)
    ensures
        final(out)@ == old(out)@ + decimal_text(n as nat),
    decreases n,
{
    if n >= 10 {
        push_decimal(out, n / 10);
    }
    let d = digit_str(n % 10);
    out.append(d);
    assert(out@ =~= old(out)@ + decimal_text(n as nat));
}

/// The text that stores `volume`: its decimal digits.
pub fn volume_text(volume: u32) -> (t: String)
    ensures
        t@ == decimal_text(volume as nat),
{
    let mut t = String::new();
    push_decimal(&mut t, volume);
    assert(t@ =~= decimal_text(volume as nat));
    t
}


fn is_space_char(c: char) -> (r: bool)
    ensures
        r == is_space(c),
{
    ('\u{9}' <= c && c <= '\u{D}') || c == ' ' || c == '\u{85}' || c == '\u{A0}'
        || c == '\u{1680}' || ('\u{2000}' <= c && c <= '\u{200A}') || c == '\u{2028}'
        || c == '\u{2029}' || c == '\u{202F}' || c == '\u{205F}' || c == '\u{3000}'
}

proof fn lemma_trim_front_step(s: Seq<char>, i: int)
    requires
        0 <= i < s.len(),
        is_space(s[i]),
    ensures
        trim_front(s.subrange(i, s.len() as int)) == trim_front(s.subrange(i + 1, s.len() as int)),
{
    let sub = s.subrange(i, s.len() as int);
    assert(sub.drop_first() =~= s.subrange(i + 1, s.len() as int));
}

proof fn lemma_trim_back_step(s: Seq<char>, lo: int, j: int)
    requires
        0 <= lo < j <= s.len(),
        is_space(s[j - 1]),
    ensures
        trim_back(s.subrange(lo, j)) == trim_back(s.subrange(lo, j - 1)),
{
    let sub = s.subrange(lo, j);
    assert(sub.drop_last() =~= s.subrange(lo, j - 1));
}

/// Reads the volume that the stored text `text` holds.
pub fn parse_volume(text: &str) -> (r: Option<u32>)
    ensures
        r == volume_of_text(text@),
{
    let n = text.unicode_len();
    let ghost s = text@;
    let mut lo: usize = 0;
    assert(s.subrange(0, n as int) =~= s);
    while lo < n && is_space_char(text.get_char(lo))
        invariant
            n == s.len(),
            s == text@,
            lo <= n,
            trim_front(s) == trim_front(s.subrange(lo as int, n as int)),
        decreases n - lo,
    {
        proof {
            lemma_trim_front_step(s, lo as int);
        }
        lo = lo + 1;
    }
    assert(trim_front(s) == s.subrange(lo as int, n as int));
    let mut hi: usize = n;
    while hi > lo && is_space_char(text.get_char(hi - 1))
        invariant
            n == s.len(),
            s == text@,
            lo <= hi <= n,
            trimmed(s) == trim_back(s.subrange(lo as int, hi as int)),
        decreases hi - lo,
    {
        proof {
            lemma_trim_back_step(s, lo as int, hi as int);
        }
        hi = hi - 1;
    }
    let ghost t = s.subrange(lo as int, hi as int);
    assert(trimmed(s) == t);
    let mut start = lo;
    if start < hi && text.get_char(start) == '+' {
        start = start + 1;
    }
    let ghost d = s.subrange(start as int, hi as int);
    assert(unsigned_part(t) =~= d);
    if start == hi {
        return None;
    }
    // Digits past the largest volume only keep the value above it.
    let mut value: u32 = 0;
    let mut k: usize = start;
    while k < hi
        invariant
            n == s.len(),
            s == text@,
            start <= k <= hi <= n,
            d == s.subrange(start as int, hi as int),
            unsigned_part(trimmed(s)) == d,
            all_digits(s.subrange(start as int, k as int)),
            value == (if digits_value(s.subrange(start as int, k as int)) > MAX_VOLUME {
                MAX_VOLUME + 1
            } else {
                digits_value(s.subrange(start as int, k as int))
            }),
        decreases hi - k,
    {
        let c = text.get_char(k);
        let ghost prefix = s.subrange(start as int, k as int);
        let ghost next = s.subrange(start as int, k as int + 1);
        if !('0' <= c && c <= '9') {
            assert(!all_digits(d)) by {
                assert(d[k - start] == c);
            }
            return None;
        }
        assert(next.drop_last() =~= prefix);
        assert(all_digits(next)) by {
            assert forall|i: int| 0 <= i < next.len() implies is_digit(#[trigger] next[i]) by {
                if i < prefix.len() {
                    assert(next[i] == prefix[i]);
                }
            }
        }
        proof {
            lemma_digits_value_nonneg(prefix);
        }
        let dv = (c as u32) - ('0' as u32);
        if value > MAX_VOLUME {
        } else {
            value = value * 10 + dv;
            if value > MAX_VOLUME {
                value = MAX_VOLUME + 1;
            }
        }
        k = k + 1;
    }
    assert(s.subrange(start as int, k as int) =~= d);
    if value <= MAX_VOLUME {
        Some(value)
    } else {
        None
    }
}

proof fn lemma_digits_value_nonneg(s: Seq<char>)
    requires
        all_digits(s),
    ensures
        digits_value(s) >= 0,
    decreases s.len(),
{
    if s.len() > 0 {
        let rest = s.drop_last();
        assert(all_digits(rest)) by {
            assert forall|i: int| 0 <= i < rest.len() implies is_digit(#[trigger] rest[i]) by {
                assert(rest[i] == s[i]);
            }
        }
        lemma_digits_value_nonneg(rest);
        assert(is_digit(s[s.len() - 1]));
    }
}


proof fn lemma_digit_char(d: int)
    requires
        0 <= d < 10,
    ensures
        is_digit(digit_char(d)),
        digit_value(digit_char(d)) == d,
{
}

proof fn lemma_decimal_text(n: nat)
    ensures
        decimal_text(n).len() > 0,
        all_digits(decimal_text(n)),
        digits_value(decimal_text(n)) == n,
    decreases n,
{
    let t = decimal_text(n);
    lemma_digit_char((n % 10) as int);
    if n < 10 {
        assert(t.drop_last() =~= Seq::<char>::empty());
        assert(digits_value(t) == digits_value(t.drop_last()) * 10 + digit_value(t.last()));
    } else {
        lemma_decimal_text(n / 10);
        let p = decimal_text(n / 10);
        assert(t.drop_last() =~= p);
        assert(digits_value(t) == digits_value(p) * 10 + digit_value(digit_char((n % 10) as int)));
        assert forall|i: int| 0 <= i < t.len() implies is_digit(#[trigger] t[i]) by {
            if i < p.len() {
                assert(t[i] == p[i]);
            }
        }
    }
}

/// Storing a volume and reading it back gives the same volume: the text that
/// `volume_text` writes for any `volume` up to `MAX_VOLUME` is read by
/// `parse_volume` as that volume.
pub proof fn lemma_volume_round_trip(volume: u32)
    requires
        volume <= MAX_VOLUME,
    ensures
        volume_of_text(decimal_text(volume as nat)) == Some(volume),
{
    let t = decimal_text(volume as nat);
    lemma_decimal_text(volume as nat);
    assert(is_digit(t[0]));
    assert(is_digit(t[t.len() - 1]));
    assert(trim_front(t) == t);
    assert(trim_back(t) == t);
    assert(unsigned_part(t) == t);
}

proof fn lemma_trim_front_is_suffix(s: Seq<char>)
    ensures
        trim_front(s).len() <= s.len(),
        trim_front(s) =~= s.subrange(s.len() - trim_front(s).len(), s.len() as int),
        forall|i: int| 0 <= i < s.len() - trim_front(s).len() ==> is_space(#[trigger] s[i]),
    decreases s.len(),
{
    if s.len() > 0 && is_space(s[0]) {
        let rest = s.drop_first();
        lemma_trim_front_is_suffix(rest);
        assert forall|i: int| 0 <= i < s.len() - trim_front(s).len() implies is_space(#[trigger] s[i]) by {
            if i > 0 {
                assert(s[i] == rest[i - 1]);
            }
        }
    }
}

proof fn lemma_trim_back_is_prefix(s: Seq<char>)
    ensures
        trim_back(s).len() <= s.len(),
        trim_back(s) =~= s.subrange(0, trim_back(s).len() as int),
        forall|i: int| trim_back(s).len() <= i < s.len() ==> is_space(#[trigger] s[i]),
    decreases s.len(),
{
    if s.len() > 0 && is_space(s.last()) {
        let rest = s.drop_last();
        lemma_trim_back_is_prefix(rest);
        assert forall|i: int| trim_back(s).len() <= i < s.len() implies is_space(#[trigger] s[i]) by {
            if i < s.len() - 1 {
                assert(s[i] == rest[i]);
            }
        }
    }
}

/// Text with no decimal digit in it, the empty text included, holds no volume.
pub proof fn lemma_volume_miss(s: Seq<char>)
    requires
        forall|i: int| 0 <= i < s.len() ==> !is_digit(#[trigger] s[i]),
    ensures
        volume_of_text(s) is None,
{
    let f = trim_front(s);
    let t = trimmed(s);
    let d = unsigned_part(t);
    lemma_trim_front_is_suffix(s);
    lemma_trim_back_is_prefix(f);
    if d.len() > 0 && all_digits(d) {
        let k: int = if t.len() > 0 && t[0] == '+' { 1 } else { 0 };
        assert(d[0] == t[k]);
        assert(t[k] == f[k]);
        assert(f[k] == s[s.len() - f.len() + k]);
        assert(is_digit(d[0]));
    }
}


/// Text with a character that is neither a decimal digit, nor white space,
/// nor `+` holds no volume.
pub proof fn lemma_volume_garbage(s: Seq<char>, k: int)
    requires
        0 <= k < s.len(),
        !is_digit(s[k]),
        !is_space(s[k]),
        s[k] != '+',
    ensures
        volume_of_text(s) is None,
{
    let f = trim_front(s);
    let t = trimmed(s);
    let d = unsigned_part(t);
    lemma_trim_front_is_suffix(s);
    lemma_trim_back_is_prefix(f);
    let off = s.len() - f.len();
    assert(off <= k) by {
        if k < off {
            assert(is_space(s[k]));
        }
    }
    assert(f[k - off] == s[k]);
    assert(k - off < t.len()) by {
        if k - off >= t.len() {
            assert(is_space(f[k - off]));
        }
    }
    assert(t[k - off] == s[k]);
    let plus: int = if t.len() > 0 && t[0] == '+' { 1 } else { 0 };
    assert(k - off >= plus);
    assert(d[k - off - plus] == s[k]);
    assert(!all_digits(d));
}

/// The key under which the host keeps the volume.
pub const VOLUME_KEY: &'static str = "volume";

pub open spec fn is_key_char(c: char) -> bool {
    ('a' <= c && c <= 'z') || ('A' <= c && c <= 'Z') || ('0' <= c && c <= '9') || c == '_'
}

/// A key that can stand between single quotes in a host script as it is: ASCII
/// letters, digits and `_`, at least one.
pub open spec fn valid_key(k: Seq<char>) -> bool {
    k.len() > 0 && forall|i: int| 0 <= i < k.len() ==> is_key_char(#[trigger] k[i])
}

pub fn is_valid_key(key: &str) -> (r: bool)
    ensures
        r == valid_key(key@),
{
    let n = key.unicode_len();
    if n == 0 {
        return false;
    }
    let mut i: usize = 0;
    while i < n
        invariant
            n == key@.len(),
            i <= n,
            forall|j: int| 0 <= j < i ==> is_key_char(#[trigger] key@[j]),
        decreases n - i,
    {
        let c = key.get_char(i);
        if !(('a' <= c && c <= 'z') || ('A' <= c && c <= 'Z') || ('0' <= c && c <= '9') || c == '_') {
            return false;
        }
        i = i + 1;
    }
    true
}

/// The host script whose value is the text stored under `key`; none where the
/// key is not valid.
pub fn read_script(key: &str) -> (r: Option<String>)
    ensures
        valid_key(key@) <==> r is Some,
        r matches Some(script) ==> script@ == "localStorage.getItem('"@ + key@ + "')"@,
{
    if !is_valid_key(key) {
        return None;
    }
    let mut script = String::from_str("localStorage.getItem('");
    script.append(key);
    script.append("')");
    Some(script)
}

/// The host script that stores the text of `volume` under `key`; none where the
/// key is not valid.
pub fn write_script(key: &str, volume: u32) -> (r: Option<String>)
    ensures
        valid_key(key@) <==> r is Some,
        r matches Some(script) ==> script@ == "localStorage.setItem('"@ + key@ + "', '"@
            + decimal_text(volume as nat) + "')"@,
{
    if !is_valid_key(key) {
        return None;
    }
    let mut script = String::from_str("localStorage.setItem('");
    script.append(key);
    script.append("', '");
    push_decimal(&mut script, volume);
    script.append("')");
    Some(script)
}

} // verus!
