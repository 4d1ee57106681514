//! What the options file and the user's answers come to, said of their text.
use crate::bytes::first_of;
use crate::bytes_laws::first_is_first;
use crate::options::{
    after_line, after_lines, entered_key, first_colon, key_code, line_key, lines, second_field,
    without_return,
};
use crate::options::{
    detected_keys, must_prompt, parse_options, prompt_key, settled_keys, KeyBindings,
};
use crate::text::{occurs, signed_decimal, trimmed};
use crate::text_laws::{
    denotes, is_blank, is_digits, is_trim, number_is_what_is_denoted, number_is_written_as_usual,
    trimming_finds_the_text, trimming_takes_off_white_space, white_space_is_listed,
};
use vstd::prelude::*;
use vstd::utf8::{decode_utf8, valid_utf8};

verus! {

// ---------------------------------------------------------------------------
// Numbers
// ---------------------------------------------------------------------------

/// `s` is `t` with white space, or nothing, before and after it.
pub open spec fn surrounds(s: Seq<char>, before: Seq<char>, t: Seq<char>, after: Seq<char>) -> bool {
    is_blank(before) && is_blank(after) && s == before + t + after
}

/// `s` is the number `v`, with white space, or nothing, before and after it.
pub open spec fn says(s: Seq<char>, v: int) -> bool {
    exists|before: Seq<char>, t: Seq<char>, after: Seq<char>| #[trigger]
        surrounds(s, before, t, after) && denotes(t, v)
}

proof fn number_has_no_space_around(t: Seq<char>, v: int)
    requires
        denotes(t, v),
    ensures
        is_trim(t),
{
    white_space_is_listed(t[0]);
    white_space_is_listed(t.last());
    if is_digits(t) {
        assert(48 <= t[0] as int <= 57);
        assert(48 <= t[t.len() - 1] as int <= 57);
    } else {
        let digits = t.skip(1);
        assert(is_digits(digits));
        assert(48 <= digits[digits.len() - 1] as int <= 57);
        assert(t.last() == digits[digits.len() - 1]);
    }
}

/// A text is a key code exactly where it is a number other than zero, of 32 bits,
/// with white space at most around it; and the code is that number.
pub proof fn key_code_is_the_number(s: Seq<char>, v: i32)
    ensures
        key_code(s) == Some(v) <==> v != 0 && says(s, v as int),
{
    number_is_what_is_denoted(trimmed(s), v);
    if key_code(s) == Some(v) {
        trimming_takes_off_white_space(s);
        let (before, after) = choose|before: Seq<char>, after: Seq<char>|
            is_blank(before) && is_blank(after) && s == #[trigger] (before + trimmed(s) + after);
        assert(surrounds(s, before, trimmed(s), after));
    }
    if says(s, v as int) {
        let (before, t, after) = choose|before: Seq<char>, t: Seq<char>, after: Seq<char>|
            #[trigger] surrounds(s, before, t, after) && denotes(t, v as int);
        number_has_no_space_around(t, v as int);
        trimming_finds_the_text(before, t, after);
    }
}

// ---------------------------------------------------------------------------
// The user's answer
// ---------------------------------------------------------------------------

/// A number other than zero that the user enters is the key, whatever the default;
/// where the user enters anything else, or nothing can be read, the default is.
pub proof fn entered_number_is_the_key(input: Option<&str>, default_value: i32, r: i32, v: i32)
    requires
        call_ensures(prompt_key, (input, default_value), r),
    ensures
        input matches Some(s) ==> v != 0 && says(s@, v as int) ==> r == v,
        input matches Some(s) ==> r != default_value ==> r != 0 && says(s@, r as int),
        input is None ==> r == default_value,
{
    if let Some(s) = input {
        key_code_is_the_number(s@, v);
        key_code_is_the_number(s@, r);
    }
}

/// A number other than zero, as it is usually written and with white space at most
/// around it, is taken as it is, whatever the default.
pub proof fn written_number_is_taken(
    before: Seq<char>,
    v: i32,
    after: Seq<char>,
    default_value: i32,
)
    requires
        v != 0,
        is_blank(before),
        is_blank(after),
    ensures
        entered_key(Some(before + signed_decimal(v as int) + after), default_value) == v,
{
    let t = signed_decimal(v as int);
    number_is_written_as_usual(v as int);
    assert(surrounds(before + t + after, before, t, after));
    key_code_is_the_number(before + t + after, v);
}

/// The default makes a difference only where it is what comes back.
pub proof fn default_is_all_or_nothing(
    input: Option<&str>,
    one: i32,
    other: i32,
    r_one: i32,
    r_other: i32,
)
    requires
        call_ensures(prompt_key, (input, one), r_one),
        call_ensures(prompt_key, (input, other), r_other),
    ensures
        r_one == r_other || (r_one == one && r_other == other),
{
}

// ---------------------------------------------------------------------------
// Lines
// ---------------------------------------------------------------------------

proof fn first_feed_ends_the_line(line: Seq<u8>, rest: Seq<u8>)
    requires
        !line.contains(0x0au8),
    ensures
        first_of(line + seq![0x0au8] + rest, 0x0a) == line.len(),
        (line + seq![0x0au8] + rest).take(line.len() as int) == line,
        (line + seq![0x0au8] + rest).skip(line.len() as int + 1) == rest,
{
    let all = line + seq![0x0au8] + rest;
    first_is_first(all, 0x0a);
    let end = first_of(all, 0x0a) as int;
    assert(all[line.len() as int] == 0x0a);
    if end < line.len() {
        assert(all[end] == line[end]);
        assert(line.contains(line[end]));
    }
    assert(all.take(line.len() as int) =~= line);
    assert(all.skip(line.len() as int + 1) =~= rest);
}

/// A line ends at a line feed, which is no part of it and neither is a carriage
/// return before it.
pub proof fn line_feed_ends_a_line(line: Seq<u8>, rest: Seq<u8>, complete: bool)
    requires
        !line.contains(0x0au8),
    ensures
        line.len() == 0 || line.last() != 0x0d ==> lines(line + seq![0x0au8] + rest, complete)
            == seq![line] + lines(rest, complete),
        lines(line + seq![0x0du8, 0x0au8] + rest, complete) == seq![line] + lines(rest, complete),
{
    first_feed_ends_the_line(line, rest);
    let returned = line.push(0x0d);
    assert forall|i: int| 0 <= i < returned.len() implies returned[i] != 0x0a by {
        if i < line.len() {
            assert(line.contains(line[i]));
        }
    }
    first_feed_ends_the_line(returned, rest);
    assert(line + seq![0x0du8, 0x0au8] + rest =~= returned + seq![0x0au8] + rest);
    assert(without_return(returned) =~= line);
}

/// What follows the last line feed is a line where all of the file is there, and
/// is none where it is not; nothing is no line.
pub proof fn last_line_needs_no_feed(line: Seq<u8>, complete: bool)
    requires
        !line.contains(0x0au8),
    ensures
        lines(line, complete) == (if complete && line.len() > 0 {
            seq![line]
        } else {
            Seq::empty()
        }),
{
    first_is_first(line, 0x0a);
    let end = first_of(line, 0x0a) as int;
    if end < line.len() {
        assert(line.contains(line[end]));
    }
}

// ---------------------------------------------------------------------------
// One line
// ---------------------------------------------------------------------------

/// `line` is `name`, a colon, `field`, and then nothing or another colon and
/// more; there is no colon in the first two.
pub open spec fn has_field(
    line: Seq<char>,
    name: Seq<char>,
    field: Seq<char>,
    rest: Seq<char>,
) -> bool {
    &&& line == name + seq![':'] + field + rest
    &&& !name.contains(':')
    &&& !field.contains(':')
    &&& rest.len() == 0 || rest[0] == ':'
}

/// `line` says the number `v`, other than zero and of 32 bits, after its first
/// colon and before its second, if there is one.
pub open spec fn line_says(line: Seq<char>, v: int) -> bool {
    &&& v != 0
    &&& -0x8000_0000 <= v <= 0x7fff_ffff
    &&& exists|name: Seq<char>, field: Seq<char>, rest: Seq<char>| #[trigger]
        has_field(line, name, field, rest) && says(field, v)
}

proof fn first_colon_is_first(line: Seq<char>)
    ensures
        first_colon(line) <= line.len(),
        forall|i: int| 0 <= i < first_colon(line) ==> #[trigger] line[i] != ':',
        first_colon(line) < line.len() ==> line[first_colon(line) as int] == ':',
    decreases line.len(),
{
    if line.len() > 0 && line[0] != ':' {
        first_colon_is_first(line.skip(1));
        assert forall|i: int| 0 <= i < first_colon(line) implies #[trigger] line[i] != ':' by {
            if i > 0 {
                assert(line.skip(1)[i - 1] == line[i]);
            }
        }
    }
}

proof fn colon_is_found(name: Seq<char>, rest: Seq<char>)
    requires
        !name.contains(':'),
        rest.len() == 0 || rest[0] == ':',
    ensures
        first_colon(name + rest) == name.len(),
{
    let all = name + rest;
    first_colon_is_first(all);
    let at = first_colon(all) as int;
    if at < name.len() {
        assert(all[at] == name[at]);
        assert(name.contains(name[at]));
    }
    if rest.len() > 0 {
        assert(all[name.len() as int] == ':');
    }
}

proof fn field_is_found(line: Seq<char>, name: Seq<char>, field: Seq<char>, rest: Seq<char>)
    requires
        has_field(line, name, field, rest),
    ensures
        second_field(line) == Some(field),
{
    let after = field + rest;
    assert(line =~= name + (seq![':'] + after));
    colon_is_found(name, seq![':'] + after);
    assert(line.skip(name.len() as int + 1) =~= after);
    colon_is_found(field, rest);
    assert(after.take(field.len() as int) =~= field);
}

proof fn field_is_there(line: Seq<char>)
    requires
        second_field(line) is Some,
    ensures
        exists|name: Seq<char>, rest: Seq<char>| #[trigger]
            has_field(line, name, second_field(line)->0, rest),
{
    first_colon_is_first(line);
    let colon = first_colon(line) as int;
    let name = line.take(colon);
    let after = line.skip(colon + 1);
    first_colon_is_first(after);
    let end = first_colon(after) as int;
    let field = after.take(end);
    let rest = after.skip(end);
    assert(line =~= name + seq![':'] + field + rest);
    assert(has_field(line, name, field, rest));
    assert(second_field(line)->0 == field);
}

/// The key that a line sets is the number that it says after its first colon, and
/// a line that says none sets none.
pub proof fn line_sets_the_number_it_says(line: Seq<char>, v: i32)
    ensures
        line_key(line) == Some(v) <==> line_says(line, v as int),
{
    if line_key(line) == Some(v) {
        field_is_there(line);
        key_code_is_the_number(second_field(line)->0, v);
    }
    if line_says(line, v as int) {
        let (name, field, rest) = choose|name: Seq<char>, field: Seq<char>, rest: Seq<char>|
            #[trigger] has_field(line, name, field, rest) && says(field, v as int);
        field_is_found(line, name, field, rest);
        key_code_is_the_number(field, v);
    }
}

/// A line in which neither `keyboard_type_0_key.forward` nor
/// `keyboard_type_0_key.sprint` occurs changes nothing. One in which the first
/// occurs sets the forward key, if it says a number, and leaves the sprint key;
/// one in which only the second occurs does the converse.
pub proof fn line_sets_the_key_it_names(keys: (Option<i32>, Option<i32>), line: Seq<char>, v: i32)
    ensures
        ({
            let forward = occurs(line, "keyboard_type_0_key.forward"@);
            let sprint = occurs(line, "keyboard_type_0_key.sprint"@);
            let r = after_line(keys, line);
            &&& !forward && !sprint ==> r == keys
            &&& forward ==> r.1 == keys.1
            &&& !forward ==> r.0 == keys.0
            &&& forward && line_says(line, v as int) ==> r.0 == Some(v)
            &&& !forward && sprint && line_says(line, v as int) ==> r.1 == Some(v)
            &&& r.0 != keys.0 ==> r.0 is Some && line_says(line, r.0->0 as int)
            &&& r.1 != keys.1 ==> r.1 is Some && line_says(line, r.1->0 as int)
        }),
{
    line_sets_the_number_it_says(line, v);
    if let Some(w) = line_key(line) {
        line_sets_the_number_it_says(line, w);
    }
}

// ---------------------------------------------------------------------------
// The file
// ---------------------------------------------------------------------------

/// `line` is text in which `keyboard_type_0_key.forward` occurs, and says `v`.
pub open spec fn sets_forward(line: Seq<u8>, v: int) -> bool {
    &&& valid_utf8(line)
    &&& occurs(decode_utf8(line), "keyboard_type_0_key.forward"@)
    &&& line_says(decode_utf8(line), v)
}

/// `line` is text in which `keyboard_type_0_key.sprint` occurs and
/// `keyboard_type_0_key.forward` does not, and says `v`.
pub open spec fn sets_sprint(line: Seq<u8>, v: int) -> bool {
    &&& valid_utf8(line)
    &&& occurs(decode_utf8(line), "keyboard_type_0_key.sprint"@)
    &&& !occurs(decode_utf8(line), "keyboard_type_0_key.forward"@)
    &&& line_says(decode_utf8(line), v)
}

/// Line `i` and all before it are text.
pub open spec fn is_read(all: Seq<Seq<u8>>, i: int) -> bool {
    0 <= i < all.len() && forall|j: int| 0 <= j <= i ==> valid_utf8(#[trigger] all[j])
}

/// Line `i` sets the forward key to `v`, and no later one sets it.
pub open spec fn sets_forward_last(all: Seq<Seq<u8>>, i: int, v: int) -> bool {
    &&& is_read(all, i) && sets_forward(all[i], v)
    &&& forall|j: int, w: int|
        i < j && #[trigger] is_read(all, j) ==> !#[trigger] sets_forward(all[j], w)
}

/// Line `i` sets the sprint key to `v`, and no later one sets it.
pub open spec fn sets_sprint_last(all: Seq<Seq<u8>>, i: int, v: int) -> bool {
    &&& is_read(all, i) && sets_sprint(all[i], v)
    &&& forall|j: int, w: int|
        i < j && #[trigger] is_read(all, j) ==> !#[trigger] sets_sprint(all[j], w)
}

proof fn read_from_the_second_on(all: Seq<Seq<u8>>, i: int)
    requires
        all.len() > 0,
        valid_utf8(all[0]),
    ensures
        is_read(all.skip(1), i) ==> is_read(all, i + 1),
        i > 0 && is_read(all, i) ==> is_read(all.skip(1), i - 1),
{
    let rest = all.skip(1);
    if is_read(rest, i) {
        assert forall|j: int| 0 <= j <= i + 1 implies valid_utf8(#[trigger] all[j]) by {
            if j > 0 {
                assert(rest[j - 1] == all[j]);
            }
        }
    }
    if i > 0 && is_read(all, i) {
        assert forall|j: int| 0 <= j <= i - 1 implies valid_utf8(#[trigger] rest[j]) by {
            assert(rest[j] == all[j + 1]);
        }
    }
}

proof fn last_forward_line_counts(keys: (Option<i32>, Option<i32>), all: Seq<Seq<u8>>)
    ensures
        ({
            let r = after_lines(keys, all).0;
            ||| r is Some && exists|i: int| #[trigger] sets_forward_last(all, i, r->0 as int)
            ||| r == keys.0 && forall|i: int, w: int|
                #[trigger] is_read(all, i) ==> !#[trigger] sets_forward(all[i], w)
        }),
    decreases all.len(),
{
    if all.len() > 0 && valid_utf8(all[0]) {
        let rest = all.skip(1);
        let text = decode_utf8(all[0]);
        let next = after_line(keys, text);
        last_forward_line_counts(next, rest);
        let r = after_lines(keys, all).0;
        if r is Some && exists|i: int| #[trigger] sets_forward_last(rest, i, r->0 as int) {
            let i = choose|i: int| #[trigger] sets_forward_last(rest, i, r->0 as int);
            read_from_the_second_on(all, i);
            assert(rest[i] == all[i + 1]);
            assert forall|j: int, w: int| i + 1 < j && #[trigger] is_read(
                all,
                j,
            ) implies !#[trigger] sets_forward(all[j], w) by {
                read_from_the_second_on(all, j);
                assert(rest[j - 1] == all[j]);
                assert(is_read(rest, j - 1));
                assert(!sets_forward(rest[j - 1], w));
            }
            assert(sets_forward_last(all, i + 1, r->0 as int));
        } else {
            assert(r == next.0);
            assert forall|j: int, w: int| 0 < j && #[trigger] is_read(
                all,
                j,
            ) implies !#[trigger] sets_forward(all[j], w) by {
                read_from_the_second_on(all, j);
                assert(rest[j - 1] == all[j]);
                assert(is_read(rest, j - 1));
                assert(!sets_forward(rest[j - 1], w));
            }
            match line_key(text) {
                Some(v) => {
                    line_sets_the_key_it_names(keys, text, v);
                    line_sets_the_number_it_says(text, v);
                    if occurs(text, "keyboard_type_0_key.forward"@) {
                        assert(is_read(all, 0));
                        assert(sets_forward_last(all, 0, v as int));
                    }
                },
                None => {
                    line_sets_the_key_it_names(keys, text, 0);
                    assert forall|w: int| !#[trigger] line_says(text, w) by {
                        if line_says(text, w) {
                            line_sets_the_number_it_says(text, w as i32);
                        }
                    }
                    if next.0 != keys.0 {
                        line_sets_the_number_it_says(text, next.0->0);
                    }
                },
            }
        }
    } else {
        assert forall|i: int| !#[trigger] is_read(all, i) by {
            if is_read(all, i) {
                assert(valid_utf8(all[0]));
            }
        }
    }
}

proof fn last_sprint_line_counts(keys: (Option<i32>, Option<i32>), all: Seq<Seq<u8>>)
    ensures
        ({
            let r = after_lines(keys, all).1;
            ||| r is Some && exists|i: int| #[trigger] sets_sprint_last(all, i, r->0 as int)
            ||| r == keys.1 && forall|i: int, w: int|
                #[trigger] is_read(all, i) ==> !#[trigger] sets_sprint(all[i], w)
        }),
    decreases all.len(),
{
    if all.len() > 0 && valid_utf8(all[0]) {
        let rest = all.skip(1);
        let text = decode_utf8(all[0]);
        let next = after_line(keys, text);
        last_sprint_line_counts(next, rest);
        let r = after_lines(keys, all).1;
        if r is Some && exists|i: int| #[trigger] sets_sprint_last(rest, i, r->0 as int) {
            let i = choose|i: int| #[trigger] sets_sprint_last(rest, i, r->0 as int);
            read_from_the_second_on(all, i);
            assert(rest[i] == all[i + 1]);
            assert forall|j: int, w: int| i + 1 < j && #[trigger] is_read(
                all,
                j,
            ) implies !#[trigger] sets_sprint(all[j], w) by {
                read_from_the_second_on(all, j);
                assert(rest[j - 1] == all[j]);
                assert(is_read(rest, j - 1));
                assert(!sets_sprint(rest[j - 1], w));
            }
            assert(sets_sprint_last(all, i + 1, r->0 as int));
        } else {
            assert(r == next.1);
            assert forall|j: int, w: int| 0 < j && #[trigger] is_read(
                all,
                j,
            ) implies !#[trigger] sets_sprint(all[j], w) by {
                read_from_the_second_on(all, j);
                assert(rest[j - 1] == all[j]);
                assert(is_read(rest, j - 1));
                assert(!sets_sprint(rest[j - 1], w));
            }
            match line_key(text) {
                Some(v) => {
                    line_sets_the_key_it_names(keys, text, v);
                    line_sets_the_number_it_says(text, v);
                    if occurs(text, "keyboard_type_0_key.sprint"@) && !occurs(
                        text,
                        "keyboard_type_0_key.forward"@,
                    ) {
                        assert(is_read(all, 0));
                        assert(sets_sprint_last(all, 0, v as int));
                    }
                },
                None => {
                    line_sets_the_key_it_names(keys, text, 0);
                    assert forall|w: int| !#[trigger] line_says(text, w) by {
                        if line_says(text, w) {
                            line_sets_the_number_it_says(text, w as i32);
                        }
                    }
                    if next.1 != keys.1 {
                        line_sets_the_number_it_says(text, next.1->0);
                    }
                },
            }
        }
    } else {
        assert forall|i: int| !#[trigger] is_read(all, i) by {
            if is_read(all, i) {
                assert(valid_utf8(all[0]));
            }
        }
    }
}

/// The forward key is the number of the last line that is read in which
/// `keyboard_type_0_key.forward` occurs and which says a number other than zero;
/// the sprint key is that of the last in which `keyboard_type_0_key.sprint` occurs
/// and the other does not. Without such a line there is none.
pub proof fn last_line_that_names_a_key_counts(
    contents: &[u8],
    complete: bool,
    r: (Option<i32>, Option<i32>),
)
    requires
        call_ensures(parse_options, (contents, complete), r),
    ensures
        ({
            let all = lines(contents@, complete);
            &&& r.0 matches Some(v) ==> exists|i: int| #[trigger]
                sets_forward_last(all, i, v as int)
            &&& r.0 is None ==> forall|i: int, w: int|
                #[trigger] is_read(all, i) ==> !#[trigger] sets_forward(all[i], w)
            &&& r.1 matches Some(v) ==> exists|i: int| #[trigger]
                sets_sprint_last(all, i, v as int)
            &&& r.1 is None ==> forall|i: int, w: int|
                #[trigger] is_read(all, i) ==> !#[trigger] sets_sprint(all[i], w)
        }),
{
    last_forward_line_counts((None, None), lines(contents@, complete));
    last_sprint_line_counts((None, None), lines(contents@, complete));
}

// ---------------------------------------------------------------------------
// The keys that are used
// ---------------------------------------------------------------------------

/// A key of the file is used as it is, and 87 and 17 stand in for those that it
/// lacks; the user is asked exactly where it lacks one.
pub proof fn missing_keys_are_asked_for(
    file: (Option<i32>, Option<i32>),
    keys: KeyBindings,
    ask: bool,
)
    requires
        call_ensures(detected_keys, (file,), keys),
        call_ensures(must_prompt, (file,), ask),
    ensures
        file.0 matches Some(v) ==> keys.forward == v,
        file.0 is None ==> keys.forward == 87,
        file.1 matches Some(v) ==> keys.sprint == v,
        file.1 is None ==> keys.sprint == 17,
        !ask ==> file.0 == Some(keys.forward) && file.1 == Some(keys.sprint),
        ask ==> file.0 is None || file.1 is None,
{
}

/// A key other than zero is used as it is; 87 and 17 are used in place of zeros.
pub proof fn zero_is_no_key(keys: KeyBindings, r: KeyBindings)
    requires
        call_ensures(settled_keys, (keys,), r),
    ensures
        keys.forward != 0 ==> r.forward == keys.forward,
        keys.forward == 0 ==> r.forward == 87,
        keys.sprint != 0 ==> r.sprint == keys.sprint,
        keys.sprint == 0 ==> r.sprint == 17,
{
}

} // verus!
