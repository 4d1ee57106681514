//! What a command line asks for, said of its arguments.
use crate::args::{
    arg_texts, decision_is_final, help_stops, invoked, is_recognized, undecided,
    unrecognized_argument_only_warns, NoticeView,
};
use crate::args::{parse_latency_mode_from_args, print_usage, Invocation, Notice};
use crate::latency::LatencyMode;
use crate::latency::{mode_is_found_by_name, mode_named};
use crate::text::{after_prefix, lowered};
use crate::text_laws::{lowering_forgets_case_only, prefix_is_taken_off, same_letters};
use vstd::prelude::*;

verus! {

/// With nothing left to read, the program runs in the mode chosen so far and there
/// is nothing to tell.
pub proof fn nothing_asks_for_nothing(mode: LatencyMode)
    ensures
        invoked(mode, Seq::empty()).mode == Some(mode),
        invoked(mode, Seq::empty()).notices.len() == 0,
{
}

/// `--latency NAME` chooses the mode of that name, in any case of its letters, for
/// all that follows; any other name stops the program, and is reported.
pub proof fn named_mode_is_chosen(mode: LatencyMode, name: Seq<char>, rest: Seq<Seq<char>>)
    ensures
        ({
            let r = invoked(mode, seq!["--latency"@, name] + rest);
            if same_letters(name, "ultra"@) {
                r == invoked(LatencyMode::Ultra, rest)
            } else if same_letters(name, "balanced"@) {
                r == invoked(LatencyMode::Balanced, rest)
            } else {
                r.mode is None && r.notices == seq![NoticeView::InvalidValue { value: name }]
            }
        }),
{
    let args = seq!["--latency"@, name] + rest;
    reveal_strlit("--help");
    reveal_strlit("-h");
    reveal_strlit("--latency");
    reveal_strlit("balanced");
    reveal_strlit("ultra");
    assert(args[0] == "--latency"@ && args[1] == name);
    assert(args[0][2] == 'l');
    assert(args.skip(2) =~= rest);
    lowering_forgets_case_only(name, "balanced"@);
    lowering_forgets_case_only(name, "ultra"@);
    assert(lowered("balanced"@) =~= "balanced"@);
    assert(lowered("ultra"@) =~= "ultra"@);
}

/// `--latency` at the end stops the program: its value is missing.
pub proof fn latency_needs_a_value(mode: LatencyMode)
    ensures
        invoked(mode, seq!["--latency"@]).mode is None,
        invoked(mode, seq!["--latency"@]).notices == seq![NoticeView::MissingValue],
{
    reveal_strlit("--help");
    reveal_strlit("-h");
    reveal_strlit("--latency");
    assert("--latency"@[2] == 'l');
}

/// `--help` and `-h` stop the program, with how it is used and nothing else.
pub proof fn help_is_given(mode: LatencyMode, rest: Seq<Seq<char>>)
    ensures
        invoked(mode, seq!["--help"@] + rest).mode is None,
        invoked(mode, seq!["--help"@] + rest).notices == seq![NoticeView::Usage],
        invoked(mode, seq!["-h"@] + rest).mode is None,
        invoked(mode, seq!["-h"@] + rest).notices == seq![NoticeView::Usage],
{
    help_stops(mode, "--help"@, rest);
    help_stops(mode, "-h"@, rest);
}

/// Any other argument is warned about, before whatever is to be told of those that
/// follow, and changes nothing of what they ask for.
pub proof fn other_argument_is_warned_about(
    mode: LatencyMode,
    arg: Seq<char>,
    rest: Seq<Seq<char>>,
)
    requires
        arg != "--help"@,
        arg != "-h"@,
        arg != "--latency"@,
        forall|value: Seq<char>| arg != #[trigger] ("--latency="@ + value),
    ensures
        invoked(mode, seq![arg] + rest).mode == invoked(mode, rest).mode,
        invoked(mode, seq![arg] + rest).notices == seq![NoticeView::UnknownArgument { arg }]
            + invoked(mode, rest).notices,
{
    if let Some(value) = after_prefix(arg, "--latency="@) {
        prefix_is_taken_off(arg, "--latency="@, value);
        assert(arg == "--latency="@ + value);
    }
    unrecognized_argument_only_warns(mode, arg, rest);
}

/// The command line is read from the first argument to the last, and what comes
/// back is what they ask for.
pub proof fn command_line_is_read_in_order(
    args: &[String],
    texts: Seq<Seq<char>>,
    r: Invocation,
)
    requires
        call_ensures(parse_latency_mode_from_args, (args,), r),
        texts.len() == args@.len(),
        forall|i: int| 0 <= i < texts.len() ==> #[trigger] texts[i] == args@[i]@,
    ensures
        r.mode == invoked(LatencyMode::Balanced, texts).mode,
        r.notices@.len() == invoked(LatencyMode::Balanced, texts).notices.len(),
        forall|i: int|
            0 <= i < r.notices@.len() ==> (#[trigger] r.notices@[i])@ == invoked(
                LatencyMode::Balanced,
                texts,
            ).notices[i],
{
    assert(texts =~= arg_texts(args@));
    assert(r@.notices.len() == r.notices@.len());
    assert forall|i: int| 0 <= i < r.notices@.len() implies (#[trigger] r.notices@[i])@ == invoked(
        LatencyMode::Balanced,
        texts,
    ).notices[i] by {
        assert(r@.notices[i] == r.notices@[i]@);
    }
}

proof fn unrecognized_arguments_all_warn(args: Seq<Seq<char>>, mode: LatencyMode)
    requires
        forall|i: int| 0 <= i < args.len() ==> !is_recognized(#[trigger] args[i]),
    ensures
        invoked(mode, args).mode == Some(mode),
        invoked(mode, args).notices.len() == args.len(),
        forall|i: int|
            0 <= i < args.len() ==> #[trigger] invoked(mode, args).notices[i]
                == (NoticeView::UnknownArgument { arg: args[i] }),
    decreases args.len(),
{
    if args.len() > 0 {
        let rest = args.skip(1);
        assert forall|i: int| 0 <= i < rest.len() implies !is_recognized(#[trigger] rest[i]) by {
            assert(rest[i] == args[i + 1]);
        }
        unrecognized_arguments_all_warn(rest, mode);
        assert(!is_recognized(args[0]));
        assert forall|i: int| 0 <= i < args.len() implies #[trigger] invoked(mode, args).notices[i]
            == (NoticeView::UnknownArgument { arg: args[i] }) by {
            if i > 0 {
                assert(invoked(mode, args).notices[i] == invoked(mode, rest).notices[i - 1]);
                assert(rest[i - 1] == args[i]);
            }
        }
    }
}

/// A command line without an option asks for balanced mode, and each argument is
/// warned about, in order.
pub proof fn command_line_without_option_runs_balanced(args: &[String], r: Invocation)
    requires
        call_ensures(parse_latency_mode_from_args, (args,), r),
        forall|i: int|
            0 <= i < args@.len() ==> (#[trigger] args@[i])@ != "--help"@ && args@[i]@ != "-h"@
                && args@[i]@ != "--latency"@,
        forall|i: int, value: Seq<char>|
            0 <= i < args@.len() ==> #[trigger] args@[i]@ != #[trigger] ("--latency="@ + value),
    ensures
        r.mode == Some(LatencyMode::Balanced),
        r.notices@.len() == args@.len(),
        forall|i: int|
            0 <= i < args@.len() ==> (#[trigger] r.notices@[i] matches Notice::UnknownArgument {
                arg,
            } && arg@ == args@[i]@),
{
    let texts = arg_texts(args@);
    assert forall|i: int| 0 <= i < texts.len() implies !is_recognized(#[trigger] texts[i]) by {
        assert(texts[i] == args@[i]@);
        if let Some(value) = after_prefix(texts[i], "--latency="@) {
            prefix_is_taken_off(texts[i], "--latency="@, value);
            assert(args@[i]@ == "--latency="@ + value);
        }
    }
    unrecognized_arguments_all_warn(texts, LatencyMode::Balanced);
    command_line_is_read_in_order(args, texts, r);
    assert forall|i: int| 0 <= i < args@.len() implies (
    #[trigger] r.notices@[i] matches Notice::UnknownArgument { arg } && arg@ == args@[i]@) by {
        assert(r.notices@[i]@ == (NoticeView::UnknownArgument { arg: texts[i] }));
    }
}

proof fn undecided_can_change(mode: LatencyMode, args: Seq<Seq<char>>) -> (more: Seq<Seq<char>>)
    requires
        undecided(invoked(mode, args)),
    ensures
        invoked(mode, args + more).mode is Some != invoked(mode, args).mode is Some,
        more == (if invoked(mode, args).mode is Some {
            seq!["--help"@]
        } else {
            seq!["ultra"@]
        }),
    decreases args.len(),
{
    let more = if invoked(mode, args).mode is Some {
        seq!["--help"@]
    } else {
        seq!["ultra"@]
    };
    let all = args + more;
    if args.len() == 0 {
        assert(all =~= more);
        assert(all[0] == "--help"@);
    } else {
        assert(all[0] == args[0]);
        assert(all.skip(1) =~= args.skip(1) + more);
        if args[0] == "--help"@ || args[0] == "-h"@ {
        } else if args[0] == "--latency"@ {
            if args.len() == 1 {
                assert(all[1] == "ultra"@);
                mode_is_found_by_name(LatencyMode::Ultra);
                assert(all.skip(2) =~= Seq::empty());
                nothing_asks_for_nothing(LatencyMode::Ultra);
                latency_needs_a_value(mode);
                assert(args =~= seq!["--latency"@]);
            } else {
                assert(all[1] == args[1]);
                assert(all.skip(2) =~= args.skip(2) + more);
                if let Some(chosen) = mode_named(args[1]) {
                    undecided_can_change(chosen, args.skip(2));
                }
            }
        } else {
            match after_prefix(args[0], "--latency="@) {
                Some(value) => {
                    if let Some(chosen) = mode_named(value) {
                        undecided_can_change(chosen, args.skip(1));
                    }
                },
                None => {
                    let rest = invoked(mode, args.skip(1));
                    let notice = NoticeView::UnknownArgument { arg: args[0] };
                    if rest.notices.len() > 0 {
                        assert((seq![notice] + rest.notices).last() == rest.notices.last());
                    }
                    undecided_can_change(mode, args.skip(1));
                },
            }
        }
    }
    more
}

/// More arguments are wanted exactly where there are some that would make a
/// difference.
pub proof fn more_is_wanted_where_it_matters(args: &[String], r: Invocation, wanted: bool)
    requires
        call_ensures(parse_latency_mode_from_args, (args,), r),
        call_ensures(Invocation::wants_more, (&r,), wanted),
    ensures
        wanted <==> exists|more: Seq<Seq<char>>| #[trigger]
            invoked(LatencyMode::Balanced, arg_texts(args@) + more) != invoked(
                LatencyMode::Balanced,
                arg_texts(args@),
            ),
{
    let texts = arg_texts(args@);
    if wanted {
        let more = undecided_can_change(LatencyMode::Balanced, texts);
        assert(invoked(LatencyMode::Balanced, texts + more) != invoked(
            LatencyMode::Balanced,
            texts,
        ));
    } else {
        assert forall|more: Seq<Seq<char>>| #[trigger] invoked(
            LatencyMode::Balanced,
            texts + more,
        ) == invoked(LatencyMode::Balanced, texts) by {
            decision_is_final(LatencyMode::Balanced, texts, more);
        }
    }
}

/// What the user is told: a value or an argument is quoted as it was given, and
/// only an argument that is ignored is warned about.
pub proof fn user_is_told(
    notice: Notice,
    text: String,
    usage: &'static str,
    warning: bool,
    help: bool,
)
    requires
        call_ensures(Notice::text, (&notice,), text),
        call_ensures(print_usage, (), usage),
        call_ensures(Notice::is_warning, (&notice,), warning),
        call_ensures(Notice::is_usage, (&notice,), help),
    ensures
        notice matches Notice::InvalidValue { value } ==> text@
            == "Error: invalid --latency value '"@ + value@ + "'. Use balanced or ultra."@,
        notice matches Notice::UnknownArgument { arg } ==> text@ == "Warning: unknown argument '"@
            + arg@ + "' ignored."@,
        notice is MissingValue ==> text@
            == "Error: missing value for --latency. Use balanced or ultra."@,
        notice is Usage ==> text@ == usage@,
        usage@ == "Usage: autosprint-mcbe.exe [--latency balanced|ultra]\n"@
            + "  --latency balanced    Default mode, lower CPU usage\n"@
            + "  --latency ultra       Most aggressive low-latency mode"@,
        warning <==> notice is UnknownArgument,
        help <==> notice is Usage,
{
    reveal_strlit(
        "Usage: autosprint-mcbe.exe [--latency balanced|ultra]\n  --latency balanced    Default mode, lower CPU usage\n  --latency ultra       Most aggressive low-latency mode",
    );
    reveal_strlit("Usage: autosprint-mcbe.exe [--latency balanced|ultra]\n");
    reveal_strlit("  --latency balanced    Default mode, lower CPU usage\n");
    reveal_strlit("  --latency ultra       Most aggressive low-latency mode");
    assert(usage@ =~= "Usage: autosprint-mcbe.exe [--latency balanced|ultra]\n"@
        + "  --latency balanced    Default mode, lower CPU usage\n"@
        + "  --latency ultra       Most aggressive low-latency mode"@);
}

/// The model of a notice is of the same kind and quotes the same text; that of an
/// invocation holds its mode and its notices, in order.
pub proof fn models_hold_what_is_told(notice: Notice, r: Invocation)
    ensures
        notice is Usage ==> notice@ == NoticeView::Usage,
        notice is MissingValue ==> notice@ == NoticeView::MissingValue,
        notice matches Notice::InvalidValue { value } ==> notice@ == (NoticeView::InvalidValue {
            value: value@,
        }),
        notice matches Notice::UnknownArgument { arg } ==> notice@ == (
        NoticeView::UnknownArgument { arg: arg@ }),
        r@.mode == r.mode,
        r@.notices.len() == r.notices@.len(),
        forall|i: int| 0 <= i < r.notices@.len() ==> #[trigger] r@.notices[i] == r.notices@[i]@,
{
}

} // verus!
