//! What the text primitives come to, said of their arguments and results.
use crate::text::{
    after_prefix, all_digits, decimal, digits_value, i32_value, is_digit, is_space, lowered,
    occurs, occurs_at, signed_decimal, trimmed, trimmed_end, trimmed_start,
};
use crate::text::{
    characters, contains, contains_case_insensitive, eq_ignore_ascii_case, integer_text,
    lowered_characters, parse_i32, same_chars, same_text, strip_prefix, trim,
};
use vstd::arithmetic::power::pow;
use vstd::prelude::*;

verus! {

// ---------------------------------------------------------------------------
// Case
// ---------------------------------------------------------------------------

/// `a` and `b` are the same character, or one letter from A to Z in its two cases.
pub open spec fn same_letter(a: char, b: char) -> bool {
    ||| a == b
    ||| 65 <= a as int <= 90 && b as int == a as int + 32
    ||| 65 <= b as int <= 90 && a as int == b as int + 32
}

/// `a` and `b` are the same text but for the case of the letters from A to Z.
pub open spec fn same_letters(a: Seq<char>, b: Seq<char>) -> bool {
    &&& a.len() == b.len()
    &&& forall|i: int| 0 <= i < a.len() ==> same_letter(#[trigger] a[i], b[i])
}

/// To lower a text adds 32 to the codes from 65 to 90, and changes nothing else.
pub proof fn lowering_changes_capitals_only(s: Seq<char>, i: int)
    requires
        0 <= i < s.len(),
    ensures
        lowered(s).len() == s.len(),
        65 <= s[i] as int <= 90 ==> lowered(s)[i] as int == s[i] as int + 32,
        !(65 <= s[i] as int <= 90) ==> lowered(s)[i] == s[i],
{
}

/// Two texts are the same once lowered exactly where they differ in nothing but
/// the case of letters from A to Z.
pub proof fn lowering_forgets_case_only(a: Seq<char>, b: Seq<char>)
    ensures
        lowered(a) == lowered(b) <==> same_letters(a, b),
{
    if lowered(a) == lowered(b) {
        assert(lowered(a).len() == a.len() && lowered(b).len() == b.len());
        assert forall|i: int| 0 <= i < a.len() implies same_letter(#[trigger] a[i], b[i]) by {
            lowering_changes_capitals_only(a, i);
            lowering_changes_capitals_only(b, i);
            assert(lowered(a)[i] == lowered(b)[i]);
        }
    }
    if same_letters(a, b) {
        assert forall|i: int| 0 <= i < a.len() implies lowered(a)[i] == lowered(b)[i] by {
            assert(same_letter(a[i], b[i]));
            lowering_changes_capitals_only(a, i);
            lowering_changes_capitals_only(b, i);
        }
        assert(lowered(a) =~= lowered(b));
    }
}

/// Texts are compared character by character.
pub proof fn comparison_is_exact(
    a: &str,
    b: &str,
    texts: bool,
    x: &[char],
    y: &[char],
    slices: bool,
    chars: Vec<char>,
)
    requires
        call_ensures(same_text, (a, b), texts),
        call_ensures(same_chars, (x, y), slices),
        call_ensures(characters, (a,), chars),
    ensures
        texts <==> a@.len() == b@.len() && forall|i: int|
            0 <= i < a@.len() ==> #[trigger] a@[i] == b@[i],
        slices <==> x@.len() == y@.len() && forall|i: int|
            0 <= i < x@.len() ==> #[trigger] x@[i] == y@[i],
        chars@ == a@,
{
    if a@.len() == b@.len() && forall|i: int| 0 <= i < a@.len() ==> #[trigger] a@[i] == b@[i] {
        assert(a@ =~= b@);
    }
    if x@.len() == y@.len() && forall|i: int| 0 <= i < x@.len() ==> #[trigger] x@[i] == y@[i] {
        assert(x@ =~= y@);
    }
}

/// The comparison that ignores case takes two texts for the same exactly where
/// they differ in nothing but the case of letters from A to Z.
pub proof fn comparison_ignores_case_only(a: &str, b: &str, same: bool, chars: Vec<char>)
    requires
        call_ensures(eq_ignore_ascii_case, (a, b), same),
        call_ensures(lowered_characters, (a,), chars),
    ensures
        same <==> same_letters(a@, b@),
        same_letters(chars@, a@),
        forall|i: int| 0 <= i < chars@.len() ==> !(65 <= #[trigger] chars@[i] as int <= 90),
{
    lowering_forgets_case_only(a@, b@);
    assert forall|i: int| 0 <= i < a@.len() implies same_letter(#[trigger] chars@[i], a@[i]) && !(65
        <= chars@[i] as int <= 90) by {
        lowering_changes_capitals_only(a@, i);
    }
}

// ---------------------------------------------------------------------------
// Parts
// ---------------------------------------------------------------------------

/// What occurs in a text is a part of it, with something before it and something
/// after it, and nothing else occurs.
pub proof fn occurrence_is_a_part(text: Seq<char>, needle: Seq<char>)
    ensures
        occurs(text, needle) <==> exists|before: Seq<char>, after: Seq<char>|
            text == #[trigger] (before + needle + after),
{
    if occurs(text, needle) {
        let at = choose|at: int| occurs_at(text, needle, at);
        let before = text.take(at);
        let after = text.skip(at + needle.len());
        assert(text =~= before + needle + after);
    }
    if exists|before: Seq<char>, after: Seq<char>| text == #[trigger] (before + needle + after) {
        let (before, after) = choose|before: Seq<char>, after: Seq<char>|
            text == #[trigger] (before + needle + after);
        let at = before.len() as int;
        assert(text.subrange(at, at + needle.len()) =~= needle);
        assert(occurs_at(text, needle, at));
    }
}

/// A text is searched for a part of it.
pub proof fn search_finds_parts(text: &[char], needle: &[char], found: bool)
    requires
        call_ensures(contains, (text, needle), found),
    ensures
        found <==> exists|before: Seq<char>, after: Seq<char>|
            text@ == #[trigger] (before + needle@ + after),
{
    occurrence_is_a_part(text@, needle@);
}

/// The search that ignores case finds the needle exactly where a part of the text
/// differs from it in nothing but the case of letters from A to Z; it finds no
/// empty needle.
pub proof fn search_ignores_case_only(text: &str, needle: &str, found: bool)
    requires
        call_ensures(contains_case_insensitive, (text, needle), found),
    ensures
        found <==> needle@.len() > 0 && exists|at: int|
            0 <= at <= text@.len() - needle@.len() && same_letters(
                #[trigger] text@.subrange(at, at + needle@.len()),
                needle@,
            ),
{
    lowered_occurrence(text@, needle@);
}

/// A lowered needle occurs in a lowered text where it occurs but for the case.
pub proof fn lowered_occurrence(text: Seq<char>, needle: Seq<char>)
    ensures
        occurs(lowered(text), lowered(needle)) <==> exists|at: int|
            0 <= at <= text.len() - needle.len() && same_letters(
                #[trigger] text.subrange(at, at + needle.len()),
                needle,
            ),
{
    assert(lowered(text).len() == text.len() && lowered(needle).len() == needle.len());
    if occurs(lowered(text), lowered(needle)) {
        let at = choose|at: int| occurs_at(lowered(text), lowered(needle), at);
        let part = text.subrange(at, at + needle.len());
        assert(lowered(part) =~= lowered(text).subrange(at, at + needle.len()));
        lowering_forgets_case_only(part, needle);
    }
    if exists|at: int|
        0 <= at <= text.len() - needle.len() && same_letters(
            #[trigger] text.subrange(at, at + needle.len()),
            needle,
        ) {
        let at = choose|at: int|
            0 <= at <= text.len() - needle.len() && same_letters(
                #[trigger] text.subrange(at, at + needle.len()),
                needle,
            );
        let part = text.subrange(at, at + needle.len());
        lowering_forgets_case_only(part, needle);
        assert(lowered(part) =~= lowered(text).subrange(at, at + needle.len()));
        assert(occurs_at(lowered(text), lowered(needle), at));
    }
}

/// A prefix followed by a text leaves that text; where something is left, the
/// whole was the prefix followed by it.
pub proof fn prefix_is_taken_off(s: Seq<char>, prefix: Seq<char>, rest: Seq<char>)
    ensures
        after_prefix(s, prefix) == Some(rest) <==> s == prefix + rest,
{
    if s == prefix + rest {
        assert(s.take(prefix.len() as int) =~= prefix);
        assert(s.skip(prefix.len() as int) =~= rest);
    }
    if after_prefix(s, prefix) == Some(rest) {
        assert(s =~= s.take(prefix.len() as int) + s.skip(prefix.len() as int));
    }
}

/// What is left of a text after a prefix, if it starts with it.
pub proof fn stripped_prefix_and_rest_make_the_text(s: &str, prefix: &str, r: Option<&str>)
    requires
        call_ensures(strip_prefix, (s, prefix), r),
    ensures
        r matches Some(rest) ==> s@ == prefix@ + rest@,
        r is None ==> forall|rest: Seq<char>| s@ != #[trigger] (prefix@ + rest),
{
    if let Some(rest) = r {
        prefix_is_taken_off(s@, prefix@, rest@);
    } else {
        assert forall|rest: Seq<char>| s@ != #[trigger] (prefix@ + rest) by {
            prefix_is_taken_off(s@, prefix@, rest);
        }
    }
}

// ---------------------------------------------------------------------------
// White space
// ---------------------------------------------------------------------------

/// `c` is one of the twenty-five characters that Unicode counts as white space.
pub open spec fn is_white_space(c: char) -> bool {
    seq![
        0x9int, 0xa, 0xb, 0xc, 0xd, 0x20, 0x85, 0xa0, 0x1680, 0x2000, 0x2001, 0x2002, 0x2003,
        0x2004, 0x2005, 0x2006, 0x2007, 0x2008, 0x2009, 0x200a, 0x2028, 0x2029, 0x202f, 0x205f,
        0x3000,
    ].contains(c as int)
}

/// `s` is white space, or empty.
pub open spec fn is_blank(s: Seq<char>) -> bool {
    forall|i: int| 0 <= i < s.len() ==> is_white_space(#[trigger] s[i])
}

/// `s` neither starts nor ends with white space.
pub open spec fn is_trim(s: Seq<char>) -> bool {
    s.len() > 0 ==> !is_white_space(s[0]) && !is_white_space(s.last())
}

/// The characters that count as white space are these and no others.
pub proof fn white_space_is_listed(c: char)
    ensures
        is_space(c) <==> is_white_space(c),
{
    let all = seq![
        0x9int, 0xa, 0xb, 0xc, 0xd, 0x20, 0x85, 0xa0, 0x1680, 0x2000, 0x2001, 0x2002, 0x2003,
        0x2004, 0x2005, 0x2006, 0x2007, 0x2008, 0x2009, 0x200a, 0x2028, 0x2029, 0x202f, 0x205f,
        0x3000,
    ];
    let v = c as int;
    assert(all[0] == 0x9 && all[1] == 0xa && all[2] == 0xb && all[3] == 0xc && all[4] == 0xd);
    assert(all[5] == 0x20 && all[6] == 0x85 && all[7] == 0xa0 && all[8] == 0x1680);
    assert(all[9] == 0x2000 && all[10] == 0x2001 && all[11] == 0x2002 && all[12] == 0x2003);
    assert(all[13] == 0x2004 && all[14] == 0x2005 && all[15] == 0x2006 && all[16] == 0x2007);
    assert(all[17] == 0x2008 && all[18] == 0x2009 && all[19] == 0x200a && all[20] == 0x2028);
    assert(all[21] == 0x2029 && all[22] == 0x202f && all[23] == 0x205f && all[24] == 0x3000);
}

proof fn start_is_trimmed(s: Seq<char>) -> (before: Seq<char>)
    ensures
        is_blank(before),
        s == before + trimmed_start(s),
        trimmed_start(s).len() > 0 ==> !is_white_space(trimmed_start(s)[0]),
    decreases s.len(),
{
    if s.len() > 0 {
        white_space_is_listed(s[0]);
    }
    if s.len() > 0 && is_space(s[0]) {
        let rest = start_is_trimmed(s.skip(1));
        let before = seq![s[0]] + rest;
        let left = trimmed_start(s.skip(1));
        assert(s =~= seq![s[0]] + s.skip(1));
        assert(seq![s[0]] + (rest + left) =~= before + left);
        before
    } else {
        assert(s =~= Seq::empty() + trimmed_start(s));
        Seq::empty()
    }
}

proof fn end_is_trimmed(s: Seq<char>) -> (after: Seq<char>)
    ensures
        is_blank(after),
        s == trimmed_end(s) + after,
        trimmed_end(s).len() > 0 ==> !is_white_space(trimmed_end(s).last()),
    decreases s.len(),
{
    if s.len() > 0 {
        white_space_is_listed(s.last());
    }
    if s.len() > 0 && is_space(s.last()) {
        let rest = end_is_trimmed(s.drop_last());
        let after = rest.push(s.last());
        let left = trimmed_end(s.drop_last());
        assert(s =~= s.drop_last().push(s.last()));
        assert((left + rest).push(s.last()) =~= left + after);
        after
    } else {
        assert(s =~= trimmed_end(s) + Seq::empty());
        Seq::empty()
    }
}

/// What is taken off a text when it is trimmed is white space, and what is left
/// neither starts nor ends with any.
pub proof fn trimming_takes_off_white_space(s: Seq<char>)
    ensures
        is_trim(trimmed(s)),
        exists|before: Seq<char>, after: Seq<char>|
            is_blank(before) && is_blank(after) && s == #[trigger] (before + trimmed(s) + after),
{
    let before = start_is_trimmed(s);
    let left = trimmed_start(s);
    let after = end_is_trimmed(left);
    assert(s =~= before + trimmed(s) + after);
    if trimmed(s).len() > 0 {
        assert(left[0] == trimmed(s)[0]);
    }
}

proof fn blank_start_is_trimmed(before: Seq<char>, s: Seq<char>)
    requires
        is_blank(before),
    ensures
        trimmed_start(before + s) == trimmed_start(s),
    decreases before.len(),
{
    if before.len() == 0 {
        assert(before + s =~= s);
    } else {
        white_space_is_listed(before[0]);
        assert((before + s).skip(1) =~= before.skip(1) + s);
        blank_start_is_trimmed(before.skip(1), s);
    }
}

proof fn blank_end_is_trimmed(s: Seq<char>, after: Seq<char>)
    requires
        is_blank(after),
    ensures
        trimmed_end(s + after) == trimmed_end(s),
    decreases after.len(),
{
    if after.len() == 0 {
        assert(s + after =~= s);
    } else {
        white_space_is_listed(after.last());
        assert((s + after).drop_last() =~= s + after.drop_last());
        blank_end_is_trimmed(s, after.drop_last());
    }
}

/// White space before and after a text that neither starts nor ends with any is
/// what is taken off.
pub proof fn trimming_finds_the_text(before: Seq<char>, s: Seq<char>, after: Seq<char>)
    requires
        is_blank(before),
        is_blank(after),
        is_trim(s),
    ensures
        trimmed(before + s + after) == s,
{
    assert(before + s + after =~= before + (s + after));
    blank_start_is_trimmed(before, s + after);
    if s.len() == 0 {
        assert(s + after =~= after + Seq::empty());
        blank_start_is_trimmed(after, Seq::empty());
    } else {
        white_space_is_listed(s[0]);
        white_space_is_listed(s.last());
        assert((s + after)[0] == s[0]);
        assert(trimmed_start(s + after) == s + after);
        blank_end_is_trimmed(s, after);
    }
}

/// What is taken off a text when it is trimmed is white space, and what is left
/// neither starts nor ends with any.
pub proof fn trim_takes_off_white_space(s: &[char], r: &[char])
    requires
        call_ensures(trim, (s,), r),
    ensures
        is_trim(r@),
        exists|before: Seq<char>, after: Seq<char>|
            is_blank(before) && is_blank(after) && s@ == #[trigger] (before + r@ + after),
{
    trimming_takes_off_white_space(s@);
}

// ---------------------------------------------------------------------------
// Numbers
// ---------------------------------------------------------------------------

/// `s` is made of the characters from 0 to 9, at least one.
pub open spec fn is_digits(s: Seq<char>) -> bool {
    &&& s.len() > 0
    &&& forall|i: int| 0 <= i < s.len() ==> 48 <= #[trigger] s[i] as int <= 57
}

/// The digits of `s`, each times the power of ten of its place.
pub open spec fn weighed(s: Seq<char>) -> int
    decreases s.len(),
{
    if s.len() == 0 {
        0
    } else {
        (s[0] as int - 48) * pow(10, (s.len() - 1) as nat) + weighed(s.skip(1))
    }
}

/// `s` is a sign or none, and digits, which make the number `v`.
pub open spec fn denotes(s: Seq<char>, v: int) -> bool {
    ||| is_digits(s) && v == weighed(s)
    ||| s.len() > 0 && s[0] == '+' && is_digits(s.skip(1)) && v == weighed(s.skip(1))
    ||| s.len() > 0 && s[0] == '-' && is_digits(s.skip(1)) && v == -weighed(s.skip(1))
}

/// `s` is the number `v` as it is usually written: with a sign only where it is
/// negative, and without a needless zero in front.
pub open spec fn writes(s: Seq<char>, v: int) -> bool {
    &&& denotes(s, v)
    &&& s.len() > 0 && s[0] != '+'
    &&& v < 0 <==> s[0] == '-'
    &&& s[0] == '0' ==> s.len() == 1
    &&& s[0] == '-' ==> s[1] != '0'
}

proof fn weighed_push(s: Seq<char>, c: char)
    ensures
        weighed(s.push(c)) == weighed(s) * 10 + (c as int - 48),
    decreases s.len(),
{
    reveal(pow);
    let all = s.push(c);
    if s.len() == 0 {
        assert(all.skip(1) =~= Seq::empty());
        assert(weighed(all.skip(1)) == 0);
        assert(pow(10, 0) == 1);
    } else {
        assert(all.skip(1) =~= s.skip(1).push(c));
        weighed_push(s.skip(1), c);
        let d = s[0] as int - 48;
        let p = pow(10, (s.len() - 1) as nat);
        assert(pow(10, s.len()) == 10 * p);
        assert(d * (10 * p) == (d * p) * 10) by (nonlinear_arith);
    }
}

proof fn code_has_32_bits(c: char)
    ensures
        c as u32 == c as int,
{
}

proof fn digits_are_weighed(s: Seq<char>)
    ensures
        digits_value(s) == weighed(s),
    decreases s.len(),
{
    if s.len() > 0 {
        digits_are_weighed(s.drop_last());
        weighed_push(s.drop_last(), s.last());
        assert(s.drop_last().push(s.last()) =~= s);
        code_has_32_bits(s.last());
    }
}

proof fn digits_are_listed(s: Seq<char>)
    ensures
        all_digits(s) <==> is_digits(s),
{
    if all_digits(s) {
        assert forall|i: int| 0 <= i < s.len() implies 48 <= #[trigger] s[i] as int <= 57 by {
            assert(is_digit(s[i]));
        }
    }
    if is_digits(s) {
        assert forall|i: int| 0 <= i < s.len() implies is_digit(#[trigger] s[i]) by {
            assert(48 <= s[i] as int <= 57);
        }
    }
}

/// A text is read as the number that its digits and its sign make, where that
/// number has 32 bits, and as no number otherwise.
pub proof fn number_is_what_is_denoted(s: Seq<char>, v: i32)
    ensures
        i32_value(s) == Some(v) <==> denotes(s, v as int),
{
    digits_are_listed(s);
    digits_are_weighed(s);
    if s.len() > 0 {
        digits_are_listed(s.skip(1));
        digits_are_weighed(s.skip(1));
        assert(is_digits(s) ==> 48 <= s[0] as int <= 57);
    }
}

/// A text is read as the number that its digits and its sign make, where that
/// number has 32 bits, and as no number otherwise.
pub proof fn parser_reads_what_is_denoted(s: &[char], r: Option<i32>)
    requires
        call_ensures(parse_i32, (s,), r),
    ensures
        r matches Some(v) ==> denotes(s@, v as int),
        r is None ==> forall|v: int|
            -0x8000_0000 <= v <= 0x7fff_ffff ==> !#[trigger] denotes(s@, v),
{
    if let Some(v) = r {
        number_is_what_is_denoted(s@, v);
    } else {
        assert forall|v: int| -0x8000_0000 <= v <= 0x7fff_ffff implies !#[trigger] denotes(
            s@,
            v,
        ) by {
            number_is_what_is_denoted(s@, v as i32);
        }
    }
}

proof fn decimal_is_canonical(n: nat)
    ensures
        is_digits(decimal(n)),
        weighed(decimal(n)) == n,
        n > 0 ==> decimal(n)[0] != '0',
        n == 0 ==> decimal(n).len() == 1,
    decreases n,
{
    if n < 10 {
        let s = decimal(n);
        assert(s =~= Seq::<char>::empty().push(s[0]));
        weighed_push(Seq::empty(), s[0]);
    } else {
        decimal_is_canonical(n / 10);
        weighed_push(decimal(n / 10), decimal(n).last());
        let s = decimal(n / 10);
        assert(decimal(n)[0] == s[0]);
        assert forall|i: int| 0 <= i < decimal(n).len() implies 48 <= #[trigger] decimal(
            n,
        )[i] as int <= 57 by {
            if i < s.len() {
                assert(decimal(n)[i] == s[i]);
            }
        }
    }
}

/// A number is written in the usual way.
pub proof fn number_is_written_as_usual(v: int)
    ensures
        writes(signed_decimal(v), v),
        is_trim(signed_decimal(v)),
{
    let s = signed_decimal(v);
    if v < 0 {
        let digits = decimal((-v) as nat);
        decimal_is_canonical((-v) as nat);
        assert(s.skip(1) =~= digits);
        assert(s[1] == digits[0]);
        white_space_is_listed('-');
        white_space_is_listed(s.last());
        assert(s.last() == digits.last());
        assert(48 <= digits[digits.len() - 1] as int <= 57);
    } else {
        decimal_is_canonical(v as nat);
        assert(48 <= s[0] as int <= 57);
        assert(48 <= s[s.len() - 1] as int <= 57);
        white_space_is_listed(s[0]);
        white_space_is_listed(s.last());
    }
}

/// A number is written in the usual way, and read back as it was.
pub proof fn written_number_is_read_back(n: i32, text: String, s: &[char], r: Option<i32>)
    requires
        call_ensures(integer_text, (n,), text),
        call_ensures(parse_i32, (s,), r),
        s@ == text@,
    ensures
        writes(text@, n as int),
        r == Some(n),
{
    number_is_written_as_usual(n as int);
    number_is_what_is_denoted(text@, n);
}

} // verus!
