//! The game's options file, and the two keys that are read from it.
use crate::bytes::find_byte;
use crate::bytes::first_of;
use crate::text::{characters, contains, parse_i32, trim, utf8_text};
use crate::text::{i32_value, occurs, trimmed};
use vstd::prelude::*;
use vstd::slice::slice_subrange;
use vstd::utf8::{decode_utf8, valid_utf8};

verus! {

/// The forward key where nothing else is known: W.
pub const DEFAULT_FORWARD_KEY: i32 = 87;

/// The sprint key where nothing else is known: Control.
pub const DEFAULT_SPRINT_KEY: i32 = 17;

// ---------------------------------------------------------------------------
// Specifications
// ---------------------------------------------------------------------------

/// `line` without a carriage return at its end.
pub open spec fn without_return(line: Seq<u8>) -> Seq<u8> {
    if line.len() > 0 && line.last() == 0x0d {
        line.drop_last()
    } else {
        line
    }
}

/// The lines of `contents`. A last line without a line feed counts only where
/// `contents` are complete.
pub open spec fn lines(contents: Seq<u8>, complete: bool) -> Seq<Seq<u8>>
    decreases contents.len(),
{
    let end = first_of(contents, 0x0a) as int;
    if contents.len() == 0 {
        Seq::empty()
    } else if end < contents.len() {
        seq![without_return(contents.take(end))] + lines(contents.skip(end + 1), complete)
    } else if complete {
        seq![contents]
    } else {
        Seq::empty()
    }
}

/// Where the first colon of `line` stands; its length where there is none.
pub open spec fn first_colon(line: Seq<char>) -> nat
    decreases line.len(),
{
    if line.len() == 0 || line[0] == ':' {
        0
    } else {
        1 + first_colon(line.skip(1))
    }
}

/// What stands between the first colon of `line` and the second, or the end.
pub open spec fn second_field(line: Seq<char>) -> Option<Seq<char>> {
    let colon = first_colon(line) as int;
    if colon < line.len() {
        let rest = line.skip(colon + 1);
        Some(rest.take(first_colon(rest) as int))
    } else {
        None
    }
}

/// The key code that `s` denotes: a number other than zero.
pub open spec fn key_code(s: Seq<char>) -> Option<i32> {
    match i32_value(trimmed(s)) {
        Some(v) => if v != 0 {
            Some(v)
        } else {
            None
        },
        None => None,
    }
}

/// The key code that `line` sets.
pub open spec fn line_key(line: Seq<char>) -> Option<i32> {
    match second_field(line) {
        Some(field) => key_code(field),
        None => None,
    }
}

/// `new_key` where there is one, else `old_key`.
pub open spec fn replaced(old_key: Option<i32>, new_key: Option<i32>) -> Option<i32> {
    match new_key {
        Some(_) => new_key,
        None => old_key,
    }
}

/// The forward and the sprint key once `line` has been read.
pub open spec fn after_line(keys: (Option<i32>, Option<i32>), line: Seq<char>) -> (
    Option<i32>,
    Option<i32>,
) {
    if occurs(line, "keyboard_type_0_key.forward"@) {
        (replaced(keys.0, line_key(line)), keys.1)
    } else if occurs(line, "keyboard_type_0_key.sprint"@) {
        (keys.0, replaced(keys.1, line_key(line)))
    } else {
        keys
    }
}

/// The forward and the sprint key once `all` have been read, up to the first
/// line that is no text.
pub open spec fn after_lines(keys: (Option<i32>, Option<i32>), all: Seq<Seq<u8>>) -> (
    Option<i32>,
    Option<i32>,
)
    decreases all.len(),
{
    if all.len() == 0 || !valid_utf8(all[0]) {
        keys
    } else {
        after_lines(after_line(keys, decode_utf8(all[0])), all.skip(1))
    }
}

// ---------------------------------------------------------------------------
// Reading the file
// ---------------------------------------------------------------------------

fn find_colon(line: &[char]) -> (r: usize)
    ensures
        r == first_colon(line@),
        r <= line.len(),
{
    let mut i: usize = 0;
    assert(line@.skip(0) =~= line@);
    while i < line.len() && line[i] != ':'
        invariant
            i <= line.len(),
            i + first_colon(line@.skip(i as int)) == first_colon(line@),
        decreases line.len() - i,
    {
        assert(line@.skip(i as int).skip(1) =~= line@.skip(i + 1));
        i = i + 1;
    }
    i
}

fn parse_key(s: &[char]) -> (r: Option<i32>)
    ensures
        r == key_code(s@),
{
    match parse_i32(trim(s)) {
        Some(v) => if v != 0 {
            Some(v)
        } else {
            None
        },
        None => None,
    }
}

fn read_line_key(line: &[char]) -> (r: Option<i32>)
    ensures
        r == line_key(line@),
{
    let colon = find_colon(line);
    if colon < line.len() {
        let rest = slice_subrange(line, colon + 1, line.len());
        assert(rest@ =~= line@.skip(colon + 1));
        let end = find_colon(rest);
        let field = slice_subrange(rest, 0, end);
        assert(field@ =~= rest@.take(end as int));
        parse_key(field)
    } else {
        None
    }
}

fn read_line(keys: (Option<i32>, Option<i32>), line: &str) -> (r: (Option<i32>, Option<i32>))
    ensures
        r == after_line(keys, line@),
{
    let chars = characters(line);
    let forward = characters("keyboard_type_0_key.forward");
    let sprint = characters("keyboard_type_0_key.sprint");
    if contains(chars.as_slice(), forward.as_slice()) {
        match read_line_key(chars.as_slice()) {
            Some(v) => (Some(v), keys.1),
            None => keys,
        }
    } else if contains(chars.as_slice(), sprint.as_slice()) {
        match read_line_key(chars.as_slice()) {
            Some(v) => (keys.0, Some(v)),
            None => keys,
        }
    } else {
        keys
    }
}

/// The forward and the sprint key that the options file sets.
///
/// `contents` is what could be read of the file, and `complete` says whether
/// that was all of it.
pub fn parse_options(contents: &[u8], complete: bool) -> (r: (Option<i32>, Option<i32>))
    ensures
        r == after_lines((None, None), lines(contents@, complete)),
{
    let mut keys: (Option<i32>, Option<i32>) = (None, None);
    let mut at: usize = 0;
    assert(contents@.skip(0) =~= contents@);
    while at < contents.len()
        invariant
            at <= contents.len(),
            after_lines(keys, lines(contents@.skip(at as int), complete)) == after_lines(
                (None, None),
                lines(contents@, complete),
            ),
        decreases contents.len() - at,
    {
        let ghost left = contents@.skip(at as int);
        let ghost todo = lines(left, complete);
        let rest = slice_subrange(contents, at, contents.len());
        assert(rest@ =~= left);
        let end = find_byte(rest, 0x0a);
        if end == rest.len() && !complete {
            return keys;
        }
        let stop: usize = if end < rest.len() && end > 0 && rest[end - 1] == 0x0d {
            end - 1
        } else {
            end
        };
        let line = slice_subrange(rest, 0, stop);
        proof {
            if end < rest.len() {
                if end > 0 {
                    assert(left.take(end as int).drop_last() =~= left.take(end - 1));
                }
                assert(line@ =~= without_return(left.take(end as int)));
                assert(left.skip(end + 1) =~= contents@.skip(at + end + 1));
                assert(todo.skip(1) =~= lines(contents@.skip(at + end + 1), complete));
            } else {
                assert(line@ =~= left);
                assert(todo.skip(1) =~= Seq::empty());
            }
            assert(todo[0] == line@);
        }
        match utf8_text(line) {
            Some(text) => {
                keys = read_line(keys, text);
            },
            None => {
                return keys;
            },
        }
        if end == rest.len() {
            assert(after_lines(keys, todo.skip(1)) == keys);
            return keys;
        }
        at = at + end + 1;
    }
    keys
}

// ---------------------------------------------------------------------------
// Choosing the keys
// ---------------------------------------------------------------------------

/// The key that the user entered: `default_value` where the input could not be
/// read or is no key code.
pub open spec fn entered_key(input: Option<Seq<char>>, default_value: i32) -> i32 {
    match input {
        Some(s) => match key_code(s) {
            Some(v) => v,
            None => default_value,
        },
        None => default_value,
    }
}

/// The key that the user entered: `default_value` where the input could not be
/// read or is no key code.
pub fn prompt_key(input: Option<&str>, default_value: i32) -> (r: i32)
    ensures
        r == entered_key(
            match input {
                Some(s) => Some(s@),
                None => None,
            },
            default_value,
        ),
{
    match input {
        Some(s) => {
            let chars = characters(s);
            match parse_key(chars.as_slice()) {
                Some(v) => v,
                None => default_value,
            }
        },
        None => default_value,
    }
}

/// The two keys.
#[derive(Clone, Copy, PartialEq, Eq, Structural, Debug)]
pub struct KeyBindings {
    pub forward: i32,
    pub sprint: i32,
}

/// The keys that the options file sets, defaults in place of those it does not.
pub open spec fn bindings_of(file: (Option<i32>, Option<i32>)) -> KeyBindings {
    KeyBindings {
        forward: match file.0 {
            Some(v) => v,
            None => DEFAULT_FORWARD_KEY,
        },
        sprint: match file.1 {
            Some(v) => v,
            None => DEFAULT_SPRINT_KEY,
        },
    }
}

/// The keys that the options file sets, defaults in place of those it does not.
pub fn detected_keys(file: (Option<i32>, Option<i32>)) -> (r: KeyBindings)
    ensures
        r == bindings_of(file),
{
    KeyBindings {
        forward: match file.0 {
            Some(v) => v,
            None => DEFAULT_FORWARD_KEY,
        },
        sprint: match file.1 {
            Some(v) => v,
            None => DEFAULT_SPRINT_KEY,
        },
    }
}

/// Whether the user has to be asked for the keys: the file lacks one of them.
pub fn must_prompt(file: (Option<i32>, Option<i32>)) -> (r: bool)
    ensures
        r == (file.0 is None || file.1 is None),
{
    file.0.is_none() || file.1.is_none()
}

/// `keys` with defaults in place of zeros.
pub open spec fn without_zeros(keys: KeyBindings) -> KeyBindings {
    KeyBindings {
        forward: if keys.forward == 0 {
            DEFAULT_FORWARD_KEY
        } else {
            keys.forward
        },
        sprint: if keys.sprint == 0 {
            DEFAULT_SPRINT_KEY
        } else {
            keys.sprint
        },
    }
}

/// `keys` with defaults in place of zeros.
pub fn settled_keys(keys: KeyBindings) -> (r: KeyBindings)
    ensures
        r == without_zeros(keys),
        r.forward != 0,
        r.sprint != 0,
{
    KeyBindings {
        forward: if keys.forward == 0 {
            DEFAULT_FORWARD_KEY
        } else {
            keys.forward
        },
        sprint: if keys.sprint == 0 {
            DEFAULT_SPRINT_KEY
        } else {
            keys.sprint
        },
    }
}

// ---------------------------------------------------------------------------
// Laws
// ---------------------------------------------------------------------------

/// `keys` holds no zero.
pub open spec fn no_zero(keys: (Option<i32>, Option<i32>)) -> bool {
    keys.0 != Some(0i32) && keys.1 != Some(0i32)
}

proof fn lines_leave_no_zero(keys: (Option<i32>, Option<i32>), all: Seq<Seq<u8>>)
    requires
        no_zero(keys),
    ensures
        no_zero(after_lines(keys, all)),
    decreases all.len(),
{
    if all.len() > 0 && valid_utf8(all[0]) {
        lines_leave_no_zero(after_line(keys, decode_utf8(all[0])), all.skip(1));
    }
}

/// No options file sets a key to zero, whatever it holds.
pub proof fn options_never_give_zero(contents: Seq<u8>, complete: bool)
    ensures
        no_zero(after_lines((None, None), lines(contents, complete))),
{
    lines_leave_no_zero((None, None), lines(contents, complete));
}

/// The keys of an options file that sets both are used as they are.
pub proof fn keys_of_the_file_are_kept(contents: Seq<u8>, complete: bool)
    ensures
        ({
            let file = after_lines((None, None), lines(contents, complete));
            file.0 is Some && file.1 is Some ==> without_zeros(bindings_of(file)) == (KeyBindings {
                forward: file.0->0,
                sprint: file.1->0,
            })
        }),
{
    options_never_give_zero(contents, complete);
}

/// What the user enters is never turned into a zero: the answer is a key code,
/// or the default as it was.
pub proof fn entered_key_is_a_key(input: Option<Seq<char>>, default_value: i32)
    ensures
        entered_key(input, default_value) != 0 || default_value == 0,
{
}

/// A later line of the file has the last word: reading one more line of text
/// does to the keys what that line says, whatever came before.
pub proof fn later_line_has_the_last_word(
    keys: (Option<i32>, Option<i32>),
    earlier: Seq<Seq<u8>>,
    line: Seq<u8>,
)
    requires
        forall|i: int| 0 <= i < earlier.len() ==> valid_utf8(#[trigger] earlier[i]),
        valid_utf8(line),
    ensures
        after_lines(keys, earlier.push(line)) == after_line(
            after_lines(keys, earlier),
            decode_utf8(line),
        ),
    decreases earlier.len(),
{
    let all = earlier.push(line);
    if earlier.len() == 0 {
        assert(all[0] == line);
        let one = after_line(keys, decode_utf8(line));
        assert(after_lines(one, all.skip(1)) == one);
    } else {
        assert(all[0] == earlier[0]);
        assert(all.skip(1) =~= earlier.skip(1).push(line));
        later_line_has_the_last_word(
            after_line(keys, decode_utf8(earlier[0])),
            earlier.skip(1),
            line,
        );
    }
}

/// Nothing counts from the first line on that is no text.
pub proof fn reading_stops_at_ill_formed_line(
    keys: (Option<i32>, Option<i32>),
    earlier: Seq<Seq<u8>>,
    line: Seq<u8>,
    later: Seq<Seq<u8>>,
)
    requires
        !valid_utf8(line),
    ensures
        after_lines(keys, earlier.push(line) + later) == after_lines(keys, earlier),
    decreases earlier.len(),
{
    let all = earlier.push(line) + later;
    if earlier.len() == 0 {
        assert(all[0] == line);
    } else {
        assert(all[0] == earlier[0]);
        assert(all.skip(1) =~= earlier.skip(1).push(line) + later);
        if valid_utf8(earlier[0]) {
            reading_stops_at_ill_formed_line(
                after_line(keys, decode_utf8(earlier[0])),
                earlier.skip(1),
                line,
                later,
            );
        }
    }
}

} // verus!
