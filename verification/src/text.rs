//! Text primitives: ASCII case folding, substring search, trimming, and the
//! decimal notation of integers.
use vstd::prelude::*;
use vstd::slice::slice_subrange;
use vstd::string::{StrSliceExecFns, StringExecFns};
use vstd::utf8::{decode_utf8, valid_utf8};

verus! {

// ---------------------------------------------------------------------------
// Specifications
// ---------------------------------------------------------------------------

/// `c` with an ASCII capital replaced by its small letter.
pub open spec fn lower_char(c: char) -> char {
    if 'A' <= c && c <= 'Z' {
        (c as u8 + 32) as u8 as char
    } else {
        c
    }
}

/// `s` with every ASCII capital replaced by its small letter.
pub open spec fn lowered(s: Seq<char>) -> Seq<char> {
    Seq::new(s.len(), |i: int| lower_char(s[i]))
}

/// `needle` stands in `text` from position `at` on.
pub open spec fn occurs_at(text: Seq<char>, needle: Seq<char>, at: int) -> bool {
    &&& 0 <= at
    &&& at + needle.len() <= text.len()
    &&& text.subrange(at, at + needle.len()) == needle
}

/// `needle` stands somewhere in `text`.
pub open spec fn occurs(text: Seq<char>, needle: Seq<char>) -> bool {
    exists|at: int| occurs_at(text, needle, at)
}

/// What follows `prefix` in `s`, if `s` starts with it.
pub open spec fn after_prefix(s: Seq<char>, prefix: Seq<char>) -> Option<Seq<char>> {
    if prefix.len() <= s.len() && s.take(prefix.len() as int) == prefix {
        Some(s.skip(prefix.len() as int))
    } else {
        None
    }
}

/// The Unicode property `White_Space`.
pub open spec fn is_space(c: char) -> bool {
    let v = c as u32;
    ||| 0x09 <= v <= 0x0d
    ||| v == 0x20
    ||| v == 0x85
    ||| v == 0xa0
    ||| v == 0x1680
    ||| 0x2000 <= v <= 0x200a
    ||| v == 0x2028
    ||| v == 0x2029
    ||| v == 0x202f
    ||| v == 0x205f
    ||| v == 0x3000
}

/// `s` without its leading white space.
pub open spec fn trimmed_start(s: Seq<char>) -> Seq<char>
    decreases s.len(),
{
    if s.len() > 0 && is_space(s[0]) {
        trimmed_start(s.skip(1))
    } else {
        s
    }
}

/// `s` without its trailing white space.
pub open spec fn trimmed_end(s: Seq<char>) -> Seq<char>
    decreases s.len(),
{
    if s.len() > 0 && is_space(s.last()) {
        trimmed_end(s.drop_last())
    } else {
        s
    }
}

/// `s` without leading and trailing white space.
pub open spec fn trimmed(s: Seq<char>) -> Seq<char> {
    trimmed_end(trimmed_start(s))
}

/// `c` is one of the ten ASCII digits.
pub open spec fn is_digit(c: char) -> bool {
    '0' <= c && c <= '9'
}

/// `s` is one digit or more, and nothing else.
pub open spec fn all_digits(s: Seq<char>) -> bool {
    &&& s.len() > 0
    &&& forall|i: int| 0 <= i < s.len() ==> is_digit(#[trigger] s[i])
}

/// The number that the digits `s` denote.
pub open spec fn digits_value(s: Seq<char>) -> int
    decreases s.len(),
{
    if s.len() == 0 {
        0
    } else {
        digits_value(s.drop_last()) * 10 + (s.last() as u32 - '0' as u32)
    }
}

/// The number that `s` denotes: digits, after at most one sign.
pub open spec fn signed_value(s: Seq<char>) -> Option<int> {
    let negative = s.len() > 0 && s[0] == '-';
    let digits = if s.len() > 0 && (s[0] == '-' || s[0] == '+') {
        s.skip(1)
    } else {
        s
    };
    if all_digits(digits) {
        Some(
            if negative {
                -digits_value(digits)
            } else {
                digits_value(digits)
            },
        )
    } else {
        None
    }
}

/// The `i32` that `s` denotes, if it denotes a number in range.
pub open spec fn i32_value(s: Seq<char>) -> Option<i32> {
    match signed_value(s) {
        Some(v) => if i32::MIN <= v <= i32::MAX {
            Some(v as i32)
        } else {
            None
        },
        None => None,
    }
}

/// The digit for `d`.
pub open spec fn digit_char(d: nat) -> char {
    ('0' as u32 + d) as char
}

/// The decimal notation of `n`.
pub open spec fn decimal(n: nat) -> Seq<char>
    decreases n,
{
    if n < 10 {
        seq![digit_char(n)]
    } else {
        decimal(n / 10).push(digit_char(n % 10))
    }
}

/// The decimal notation of `n`, with a minus sign where it is negative.
pub open spec fn signed_decimal(n: int) -> Seq<char> {
    if n < 0 {
        seq!['-'] + decimal((-n) as nat)
    } else {
        decimal(n as nat)
    }
}

// ---------------------------------------------------------------------------
// Characters and comparison
// ---------------------------------------------------------------------------

/// The characters of `s`, in order.
pub fn characters(s: &str) -> (chars: Vec<char>)
    ensures
        chars@ == s@,
{
    let mut chars: Vec<char> = Vec::new();
    for c in it: s.chars()
        invariant
            it.seq() == s@,
            chars@ == s@.take(it.index() as int),
    {
        chars.push(c);
    }
    chars
}

/// Whether the two sequences are the same.
pub fn same_chars(a: &[char], b: &[char]) -> (same: bool)
    ensures
        same == (a@ == b@),
{
    if a.len() != b.len() {
        return false;
    }
    let mut i: usize = 0;
    while i < a.len()
        invariant
            i <= a.len(),
            a.len() == b.len(),
            forall|j: int| 0 <= j < i ==> a@[j] == b@[j],
        decreases a.len() - i,
    {
        if a[i] != b[i] {
            return false;
        }
        i = i + 1;
    }
    assert(a@ =~= b@);
    true
}

/// Whether the two texts are the same.
pub fn same_text(a: &str, b: &str) -> (same: bool)
    ensures
        same == (a@ == b@),
{
    let x = characters(a);
    let y = characters(b);
    same_chars(x.as_slice(), y.as_slice())
}

fn lower(c: char) -> (r: char)
    ensures
        r == lower_char(c),
{
    if 'A' <= c && c <= 'Z' {
        (c as u8 + 32) as char
    } else {
        c
    }
}

/// The characters of `s` with every ASCII capital made small.
pub fn lowered_characters(s: &str) -> (chars: Vec<char>)
    ensures
        chars@ == lowered(s@),
{
    let mut chars: Vec<char> = Vec::new();
    for c in it: s.chars()
        invariant
            it.seq() == s@,
            chars@ == lowered(s@).take(it.index() as int),
    {
        chars.push(lower(c));
    }
    chars
}

/// Whether the two texts are the same but for the case of ASCII letters.
pub fn eq_ignore_ascii_case(a: &str, b: &str) -> (same: bool)
    ensures
        same == (lowered(a@) == lowered(b@)),
{
    let x = lowered_characters(a);
    let y = lowered_characters(b);
    same_chars(x.as_slice(), y.as_slice())
}

fn stands_at(text: &[char], needle: &[char], at: usize) -> (r: bool)
    requires
        at + needle.len() <= text.len(),
    ensures
        r == occurs_at(text@, needle@, at as int),
{
    let part = slice_subrange(text, at, at + needle.len());
    same_chars(part, needle)
}

/// Whether `needle` stands somewhere in `text`.
pub fn contains(text: &[char], needle: &[char]) -> (r: bool)
    ensures
        r == occurs(text@, needle@),
{
    if needle.len() > text.len() {
        return false;
    }
    let last: usize = text.len() - needle.len();
    let mut at: usize = 0;
    while at <= last
        invariant
            at <= last + 1,
            last + needle.len() == text.len(),
            forall|k: int| 0 <= k < at ==> !occurs_at(text@, needle@, k),
        decreases last + 1 - at,
    {
        if stands_at(text, needle, at) {
            return true;
        }
        if at == last {
            assert forall|k: int| !occurs_at(text@, needle@, k) by {}
            return false;
        }
        at = at + 1;
    }
    false
}

/// Whether `needle` is not empty and stands somewhere in `text`, whatever the
/// case of ASCII letters.
pub fn contains_case_insensitive(text: &str, needle: &str) -> (r: bool)
    ensures
        r == (needle@.len() > 0 && occurs(lowered(text@), lowered(needle@))),
{
    if needle.is_empty() {
        return false;
    }
    let t = lowered_characters(text);
    let n = lowered_characters(needle);
    contains(t.as_slice(), n.as_slice())
}

/// What follows `prefix` in `s`, if `s` starts with it.
pub fn strip_prefix<'a>(s: &'a str, prefix: &str) -> (r: Option<&'a str>)
    ensures
        match r {
            Some(rest) => after_prefix(s@, prefix@) == Some(rest@),
            None => after_prefix(s@, prefix@) is None,
        },
{
    let chars = characters(s);
    let wanted = characters(prefix);
    if wanted.len() > chars.len() {
        return None;
    }
    let start = slice_subrange(chars.as_slice(), 0, wanted.len());
    assert(start@ =~= s@.take(prefix@.len() as int));
    if same_chars(start, wanted.as_slice()) {
        let rest = s.substring_char(wanted.len(), chars.len());
        assert(rest@ =~= s@.skip(prefix@.len() as int));
        Some(rest)
    } else {
        None
    }
}

// ---------------------------------------------------------------------------
// Trimming
// ---------------------------------------------------------------------------

fn space(c: char) -> (r: bool)
    ensures
        r == is_space(c),
{
    let v = c as u32;
    (0x09 <= v && v <= 0x0d) || v == 0x20 || v == 0x85 || v == 0xa0 || v == 0x1680 || (0x2000 <= v
        && v <= 0x200a) || v == 0x2028 || v == 0x2029 || v == 0x202f || v == 0x205f || v == 0x3000
}

/// `s` without leading and trailing white space.
pub fn trim(s: &[char]) -> (r: &[char])
    ensures
        r@ == trimmed(s@),
{
    let mut start: usize = 0;
    assert(s@.skip(0) =~= s@);
    while start < s.len() && space(s[start])
        invariant
            start <= s.len(),
            trimmed_start(s@.skip(start as int)) == trimmed_start(s@),
        decreases s.len() - start,
    {
        assert(s@.skip(start as int).skip(1) =~= s@.skip(start + 1));
        start = start + 1;
    }
    assert(trimmed_start(s@) == s@.skip(start as int));
    let mut end: usize = s.len();
    assert(s@.subrange(start as int, end as int) =~= s@.skip(start as int));
    while start < end && space(s[end - 1])
        invariant
            start <= end <= s.len(),
            trimmed_end(s@.subrange(start as int, end as int)) == trimmed(s@),
        decreases end - start,
    {
        assert(s@.subrange(start as int, end as int).drop_last() =~= s@.subrange(
            start as int,
            end - 1,
        ));
        end = end - 1;
    }
    slice_subrange(s, start, end)
}

// ---------------------------------------------------------------------------
// Decimal notation
// ---------------------------------------------------------------------------

proof fn digits_value_is_natural(s: Seq<char>)
    requires
        forall|i: int| 0 <= i < s.len() ==> is_digit(#[trigger] s[i]),
    ensures
        digits_value(s) >= 0,
    decreases s.len(),
{
    if s.len() > 0 {
        digits_value_is_natural(s.drop_last());
    }
}

/// The value of `digits`, if they are digits and it is no larger than the
/// magnitude of the least `i32`.
fn bounded_value(digits: &[char]) -> (r: Option<i64>)
    ensures
        r == (if all_digits(digits@) && digits_value(digits@) <= 0x8000_0000 {
            Some(digits_value(digits@) as i64)
        } else {
            None
        }),
{
    if digits.len() == 0 {
        return None;
    }
    let mut value: i64 = 0;
    let mut beyond: bool = false;
    let mut i: usize = 0;
    while i < digits.len()
        invariant
            i <= digits.len(),
            forall|j: int| 0 <= j < i ==> is_digit(#[trigger] digits@[j]),
            0 <= value <= 0x8000_0000,
            beyond == (digits_value(digits@.take(i as int)) > 0x8000_0000),
            !beyond ==> value == digits_value(digits@.take(i as int)),
        decreases digits.len() - i,
    {
        let c = digits[i];
        if !('0' <= c && c <= '9') {
            assert(!is_digit(digits@[i as int]));
            return None;
        }
        proof {
            assert(digits@.take(i + 1).drop_last() =~= digits@.take(i as int));
            digits_value_is_natural(digits@.take(i as int));
        }
        if !beyond {
            let next: i64 = value * 10 + (c as u32 - '0' as u32) as i64;
            if next > 0x8000_0000 {
                beyond = true;
            } else {
                value = next;
            }
        }
        i = i + 1;
    }
    assert(digits@.take(i as int) =~= digits@);
    if beyond {
        None
    } else {
        Some(value)
    }
}

/// The `i32` that `s` denotes in decimal notation, if it does.
pub fn parse_i32(s: &[char]) -> (r: Option<i32>)
    ensures
        r == i32_value(s@),
{
    let negative = s.len() > 0 && s[0] == '-';
    let signed = s.len() > 0 && (s[0] == '-' || s[0] == '+');
    let digits = if signed {
        slice_subrange(s, 1, s.len())
    } else {
        s
    };
    proof {
        assert(signed ==> digits@ =~= s@.skip(1));
        if all_digits(digits@) {
            digits_value_is_natural(digits@);
        }
    }
    match bounded_value(digits) {
        Some(v) => {
            if negative {
                Some((-v) as i32)
            } else if v <= 0x7fff_ffff {
                Some(v as i32)
            } else {
                None
            }
        },
        None => None,
    }
}

fn digit_text(d: u32) -> (r: &'static str)
    requires
        d < 10,
    ensures
        r@ == seq![digit_char(d as nat)],
{
    proof {
        reveal_strlit("0");
        reveal_strlit("1");
        reveal_strlit("2");
        reveal_strlit("3");
        reveal_strlit("4");
        reveal_strlit("5");
        reveal_strlit("6");
        reveal_strlit("7");
        reveal_strlit("8");
        reveal_strlit("9");
    }
    match d {
        0 => "0",
        1 => "1",
        2 => "2",
        3 => "3",
        4 => "4",
        5 => "5",
        6 => "6",
        7 => "7",
        8 => "8",
        _ => "9",
    }
}

fn natural_text(n: u32) -> (r: String)
    ensures
        r@ == decimal(n as nat),
    decreases n,
{
    if n < 10 {
        digit_text(n).to_owned()
    } else {
        let mut text = natural_text(n / 10);
        text.append(digit_text(n % 10));
        text
    }
}

/// The decimal notation of `n`.
pub fn integer_text(n: i32) -> (r: String)
    ensures
        r@ == signed_decimal(n as int),
{
    if n < 0 {
        proof {
            reveal_strlit("-");
        }
        let mut text: String = "-".to_owned();
        let magnitude = natural_text((-(n as i64)) as u32);
        text.append(magnitude.as_str());
        assert("-"@ =~= seq!['-']);
        text
    } else {
        natural_text(n as u32)
    }
}

// ---------------------------------------------------------------------------
// UTF-8
// ---------------------------------------------------------------------------

/// The text that `bytes` encode in UTF-8, by `core::str::from_utf8`.
///
/// Taken on trust: there is one exactly where the bytes are well-formed UTF-8,
/// and it is what they decode to.
#[verifier::external_body]
pub(crate) fn utf8_text(bytes: &[u8]) -> (r: Option<&str>)
    ensures
        r is Some <==> valid_utf8(bytes@),
        r matches Some(s) ==> s@ == decode_utf8(bytes@),
{
    core::str::from_utf8(bytes).ok()
}

/// The text that `String::from_utf8_lossy` makes of `bytes`.
pub uninterp spec fn lossy_text(bytes: Seq<u8>) -> Seq<char>;

/// The text that `bytes` encode in UTF-8, ill-formed parts replaced, by
/// `String::from_utf8_lossy`.
///
/// Taken on trust: it depends on the bytes alone, and it is what they decode to
/// where they are well-formed. Where ill-formed parts begin and end is left
/// unsaid.
#[verifier::external_body]
pub(crate) fn utf8_text_lossy(bytes: &[u8]) -> (r: String)
    ensures
        r@ == lossy_text(bytes@),
        valid_utf8(bytes@) ==> r@ == decode_utf8(bytes@),
{
    String::from_utf8_lossy(bytes).into_owned()
}

// ---------------------------------------------------------------------------
// Laws
// ---------------------------------------------------------------------------

/// Small letters stay as they are.
pub proof fn lowering_is_idempotent(s: Seq<char>)
    ensures
        lowered(lowered(s)) == lowered(s),
{
    assert(lowered(lowered(s)) =~= lowered(s));
}

/// What stands in a text stands in any longer text around it.
pub proof fn occurrence_survives_extension(
    before: Seq<char>,
    text: Seq<char>,
    after: Seq<char>,
    needle: Seq<char>,
)
    requires
        occurs(text, needle),
    ensures
        occurs(before + text + after, needle),
{
    let at = choose|at: int| occurs_at(text, needle, at);
    let whole = before + text + after;
    assert(whole.subrange(before.len() + at, before.len() + at + needle.len()) =~= text.subrange(
        at,
        at + needle.len(),
    ));
    assert(occurs_at(whole, needle, before.len() + at));
}

} // verus!
