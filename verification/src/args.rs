//! The command line.
use crate::latency::mode_named;
use crate::latency::LatencyMode;
use crate::text::after_prefix;
use crate::text::{same_text, strip_prefix};
use vstd::prelude::*;
use vstd::string::StringExecFns;

verus! {

/// Something to tell the user about the command line.
pub enum Notice {
    /// How the program is used.
    Usage,
    /// `--latency` came last.
    MissingValue,
    /// No latency mode has this name.
    InvalidValue { value: String },
    /// An argument that means nothing here.
    UnknownArgument { arg: String },
}

/// The model of a `Notice`.
pub enum NoticeView {
    Usage,
    MissingValue,
    InvalidValue { value: Seq<char> },
    UnknownArgument { arg: Seq<char> },
}

impl View for Notice {
    type V = NoticeView;

    open spec fn view(&self) -> NoticeView {
        match *self {
            Notice::Usage => NoticeView::Usage,
            Notice::MissingValue => NoticeView::MissingValue,
            Notice::InvalidValue { value } => NoticeView::InvalidValue { value: value@ },
            Notice::UnknownArgument { arg } => NoticeView::UnknownArgument { arg: arg@ },
        }
    }
}

/// What the command line asks for.
pub struct Invocation {
    /// The latency mode to run in; nothing where the program is not to run.
    pub mode: Option<LatencyMode>,
    /// What to tell the user, in order.
    pub notices: Vec<Notice>,
}

/// The model of an `Invocation`.
#[verifier::ext_equal]
pub struct InvocationView {
    pub mode: Option<LatencyMode>,
    pub notices: Seq<NoticeView>,
}

/// The models of the notices, in their order.
pub open spec fn notice_views(notices: Seq<Notice>) -> Seq<NoticeView> {
    Seq::new(notices.len(), |i: int| notices[i]@)
}

impl View for Invocation {
    type V = InvocationView;

    open spec fn view(&self) -> InvocationView {
        InvocationView { mode: self.mode, notices: notice_views(self.notices@) }
    }
}

/// The texts of the arguments, in their order.
pub open spec fn arg_texts(args: Seq<String>) -> Seq<Seq<char>> {
    Seq::new(args.len(), |i: int| args[i]@)
}

/// The program is not to run, and this is why.
pub open spec fn stopped(notice: NoticeView) -> InvocationView {
    InvocationView { mode: None, notices: seq![notice] }
}

/// What `args` ask for where `mode` was chosen before them.
pub open spec fn invoked(mode: LatencyMode, args: Seq<Seq<char>>) -> InvocationView
    decreases args.len(),
{
    if args.len() == 0 {
        InvocationView { mode: Some(mode), notices: Seq::empty() }
    } else if args[0] == "--help"@ || args[0] == "-h"@ {
        stopped(NoticeView::Usage)
    } else if args[0] == "--latency"@ {
        if args.len() == 1 {
            stopped(NoticeView::MissingValue)
        } else {
            match mode_named(args[1]) {
                Some(chosen) => invoked(chosen, args.skip(2)),
                None => stopped(NoticeView::InvalidValue { value: args[1] }),
            }
        }
    } else {
        match after_prefix(args[0], "--latency="@) {
            Some(value) => match mode_named(value) {
                Some(chosen) => invoked(chosen, args.skip(1)),
                None => stopped(NoticeView::InvalidValue { value }),
            },
            None => {
                let rest = invoked(mode, args.skip(1));
                InvocationView {
                    mode: rest.mode,
                    notices: seq![NoticeView::UnknownArgument { arg: args[0] }] + rest.notices,
                }
            },
        }
    }
}

/// `rest`, after notices that came before it.
pub open spec fn after_notices(notices: Seq<NoticeView>, rest: InvocationView) -> InvocationView {
    InvocationView { mode: rest.mode, notices: notices + rest.notices }
}

fn stop(notices: Vec<Notice>, notice: Notice) -> (r: Invocation)
    ensures
        r@ == after_notices(notice_views(notices@), stopped(notice@)),
{
    let mut notices = notices;
    let ghost before = notices@;
    notices.push(notice);
    assert(notice_views(notices@) =~= notice_views(before) + seq![notice@]);
    Invocation { mode: None, notices }
}

/// What the arguments after the program's name ask for.
pub fn parse_latency_mode_from_args(args: &[String]) -> (r: Invocation)
    ensures
        r@ == invoked(LatencyMode::Balanced, arg_texts(args@)),
{
    let ghost all = arg_texts(args@);
    let mut mode = LatencyMode::Balanced;
    let mut notices: Vec<Notice> = Vec::new();
    let mut i: usize = 0;
    proof {
        assert(all.skip(0) =~= all);
        assert(notice_views(notices@) =~= Seq::empty());
        let rest = invoked(mode, all);
        assert(after_notices(notice_views(notices@), rest) =~= rest);
    }
    while i < args.len()
        invariant
            i <= args.len(),
            all == arg_texts(args@),
            after_notices(notice_views(notices@), invoked(mode, all.skip(i as int))) == invoked(
                LatencyMode::Balanced,
                all,
            ),
        decreases args.len() - i,
    {
        let arg = args[i].as_str();
        let ghost left = all.skip(i as int);
        assert(left[0] == arg@);
        assert(left.skip(1) =~= all.skip(i + 1));
        if same_text(arg, "--help") || same_text(arg, "-h") {
            return stop(notices, Notice::Usage);
        }
        if same_text(arg, "--latency") {
            i = i + 1;
            if i == args.len() {
                return stop(notices, Notice::MissingValue);
            }
            let value = args[i].as_str();
            assert(left[1] == value@);
            assert(left.skip(2) =~= all.skip(i + 1));
            match LatencyMode::from_str(value) {
                Some(parsed) => {
                    mode = parsed;
                },
                None => {
                    return stop(notices, Notice::InvalidValue { value: value.to_owned() });
                },
            }
            i = i + 1;
            continue;
        }
        if let Some(value) = strip_prefix(arg, "--latency=") {
            match LatencyMode::from_str(value) {
                Some(parsed) => {
                    mode = parsed;
                },
                None => {
                    return stop(notices, Notice::InvalidValue { value: value.to_owned() });
                },
            }
            i = i + 1;
            continue;
        }
        let ghost before = notices@;
        notices.push(Notice::UnknownArgument { arg: arg.to_owned() });
        proof {
            let rest = invoked(mode, all.skip(i + 1));
            let notice = NoticeView::UnknownArgument { arg: arg@ };
            assert(notice_views(notices@) =~= notice_views(before) + seq![notice]);
            assert(notice_views(notices@) + rest.notices =~= notice_views(before) + (seq![notice]
                + rest.notices));
        }
        i = i + 1;
    }
    assert(notice_views(notices@) + Seq::empty() =~= notice_views(notices@));
    Invocation { mode: Some(mode), notices }
}

/// A further argument could make a difference: the program is to run so far, or
/// a value is missing.
pub open spec fn undecided(r: InvocationView) -> bool {
    r.mode is Some || (r.notices.len() > 0 && r.notices.last() is MissingValue)
}

impl Invocation {
    /// Whether a further argument could make a difference.
    pub fn wants_more(&self) -> (r: bool)
        ensures
            r == undecided(self@),
    {
        if self.mode.is_some() {
            return true;
        }
        let n = self.notices.len();
        if n == 0 {
            return false;
        }
        assert(self@.notices.last() == self.notices@[n - 1]@);
        match self.notices[n - 1] {
            Notice::MissingValue => true,
            _ => false,
        }
    }
}

/// The text of a notice.
pub open spec fn notice_text(notice: NoticeView) -> Seq<char> {
    match notice {
        NoticeView::Usage => usage_text(),
        NoticeView::MissingValue =>
            "Error: missing value for --latency. Use balanced or ultra."@,
        NoticeView::InvalidValue { value } => "Error: invalid --latency value '"@ + value
            + "'. Use balanced or ultra."@,
        NoticeView::UnknownArgument { arg } => "Warning: unknown argument '"@ + arg
            + "' ignored."@,
    }
}

/// How the program is used.
pub open spec fn usage_text() -> Seq<char> {
    "Usage: autosprint-mcbe.exe [--latency balanced|ultra]\n  --latency balanced    Default mode, lower CPU usage\n  --latency ultra       Most aggressive low-latency mode"@
}

impl Notice {
    /// The text of the notice.
    pub fn text(&self) -> (r: String)
        ensures
            r@ == notice_text(self@),
    {
        match self {
            Notice::Usage => print_usage().to_owned(),
            Notice::MissingValue => {
                "Error: missing value for --latency. Use balanced or ultra.".to_owned()
            },
            Notice::InvalidValue { value } => {
                let mut text: String = "Error: invalid --latency value '".to_owned();
                text.append(value.as_str());
                text.append("'. Use balanced or ultra.");
                text
            },
            Notice::UnknownArgument { arg } => {
                let mut text: String = "Warning: unknown argument '".to_owned();
                text.append(arg.as_str());
                text.append("' ignored.");
                text
            },
        }
    }

    /// Whether the notice is a warning, after which the program may still run.
    pub fn is_warning(&self) -> (r: bool)
        ensures
            r == (self@ is UnknownArgument),
    {
        match self {
            Notice::UnknownArgument { .. } => true,
            _ => false,
        }
    }

    /// Whether the notice is what the user asked for, and no complaint.
    pub fn is_usage(&self) -> (r: bool)
        ensures
            r == (self@ is Usage),
    {
        match self {
            Notice::Usage => true,
            _ => false,
        }
    }
}

/// How the program is used.
pub fn print_usage() -> (r: &'static str)
    ensures
        r@ == usage_text(),
{
    "Usage: autosprint-mcbe.exe [--latency balanced|ultra]\n  --latency balanced    Default mode, lower CPU usage\n  --latency ultra       Most aggressive low-latency mode"
}

// ---------------------------------------------------------------------------
// Laws
// ---------------------------------------------------------------------------

/// `arg`, where an option may stand, means something to the program.
pub open spec fn is_recognized(arg: Seq<char>) -> bool {
    ||| arg == "--help"@
    ||| arg == "-h"@
    ||| arg == "--latency"@
    ||| after_prefix(arg, "--latency="@) is Some
}

/// `--latency NAME` and `--latency=NAME` mean the same, whatever the name and
/// whatever follows.
pub proof fn both_forms_of_latency_agree(mode: LatencyMode, name: Seq<char>, rest: Seq<Seq<char>>)
    ensures
        invoked(mode, seq!["--latency"@, name] + rest) == invoked(
            mode,
            seq!["--latency="@ + name] + rest,
        ),
{
    let apart = seq!["--latency"@, name] + rest;
    let together = seq!["--latency="@ + name] + rest;
    let arg = "--latency="@ + name;
    reveal_strlit("--help");
    reveal_strlit("-h");
    reveal_strlit("--latency");
    reveal_strlit("--latency=");
    assert(apart[0] == "--latency"@ && apart[1] == name);
    assert(apart[0][2] == 'l');
    assert(apart.skip(2) =~= rest);
    assert(together[0] == arg);
    assert(arg.len() >= 10 && arg[2] == 'l' && arg[9] == '=');
    assert(together.skip(1) =~= rest);
    assert(arg.take(10) =~= "--latency="@);
    assert(arg.skip(10) =~= name);
}

/// The last choice of a mode is the one that counts: what was chosen before it
/// makes no difference.
pub proof fn later_choice_replaces_earlier(
    first: LatencyMode,
    second: LatencyMode,
    name: Seq<char>,
    rest: Seq<Seq<char>>,
)
    ensures
        invoked(first, seq!["--latency"@, name] + rest) == invoked(
            second,
            seq!["--latency"@, name] + rest,
        ),
{
    let args = seq!["--latency"@, name] + rest;
    reveal_strlit("--help");
    reveal_strlit("-h");
    reveal_strlit("--latency");
    assert(args[0] == "--latency"@);
    assert(args[0][2] == 'l');
}

/// An argument that means nothing here is warned about and changes nothing
/// else.
pub proof fn unrecognized_argument_only_warns(
    mode: LatencyMode,
    arg: Seq<char>,
    rest: Seq<Seq<char>>,
)
    requires
        !is_recognized(arg),
    ensures
        invoked(mode, seq![arg] + rest) == after_notices(
            seq![NoticeView::UnknownArgument { arg }],
            invoked(mode, rest),
        ),
{
    assert((seq![arg] + rest).skip(1) =~= rest);
}

/// A call for help stops the program, whatever follows.
pub proof fn help_stops(mode: LatencyMode, arg: Seq<char>, rest: Seq<Seq<char>>)
    requires
        arg == "--help"@ || arg == "-h"@,
    ensures
        invoked(mode, seq![arg] + rest) == stopped(NoticeView::Usage),
{
}

/// Where the program is to run, every notice is a warning about an argument.
/// Where it is not, the last notice says why and those before it are such
/// warnings.
pub proof fn refusal_is_explained(mode: LatencyMode, args: Seq<Seq<char>>)
    ensures
        ({
            let r = invoked(mode, args);
            let warnings = if r.mode is Some {
                r.notices.len() as int
            } else {
                r.notices.len() - 1
            };
            &&& r.mode is None ==> r.notices.len() > 0 && !(r.notices.last() is UnknownArgument)
            &&& forall|i: int| 0 <= i < warnings ==> #[trigger] r.notices[i] is UnknownArgument
        }),
    decreases args.len(),
{
    if args.len() > 0 {
        refusal_is_explained(mode, args.skip(1));
        refusal_is_explained(LatencyMode::Balanced, args.skip(1));
        refusal_is_explained(LatencyMode::Ultra, args.skip(1));
        if args.len() > 1 {
            refusal_is_explained(LatencyMode::Balanced, args.skip(2));
            refusal_is_explained(LatencyMode::Ultra, args.skip(2));
        }
    }
}

/// Without an option on the command line the program runs in balanced mode.
pub proof fn balanced_is_the_default(args: Seq<Seq<char>>)
    requires
        forall|i: int| 0 <= i < args.len() ==> !is_recognized(#[trigger] args[i]),
    ensures
        invoked(LatencyMode::Balanced, args).mode == Some(LatencyMode::Balanced),
    decreases args.len(),
{
    if args.len() > 0 {
        assert forall|i: int| 0 <= i < args.skip(1).len() implies !is_recognized(
            #[trigger] args.skip(1)[i],
        ) by {
            assert(args.skip(1)[i] == args[i + 1]);
        }
        balanced_is_the_default(args.skip(1));
        assert(!is_recognized(args[0]));
    }
}

/// Arguments that come after the decision make no difference, so they need not
/// be read.
pub proof fn decision_is_final(mode: LatencyMode, args: Seq<Seq<char>>, more: Seq<Seq<char>>)
    requires
        !undecided(invoked(mode, args)),
    ensures
        invoked(mode, args + more) == invoked(mode, args),
    decreases args.len(),
{
    let all = args + more;
    if args.len() > 0 {
        assert(all[0] == args[0]);
        assert(all.skip(1) =~= args.skip(1) + more);
        if args[0] == "--help"@ || args[0] == "-h"@ {
        } else if args[0] == "--latency"@ {
            assert(args.len() > 1);
            assert(all[1] == args[1]);
            assert(all.skip(2) =~= args.skip(2) + more);
            if let Some(chosen) = mode_named(args[1]) {
                decision_is_final(chosen, args.skip(2), more);
            }
        } else {
            match after_prefix(args[0], "--latency="@) {
                Some(value) => {
                    if let Some(chosen) = mode_named(value) {
                        decision_is_final(chosen, args.skip(1), more);
                    }
                },
                None => {
                    let rest = invoked(mode, args.skip(1));
                    let notice = NoticeView::UnknownArgument { arg: args[0] };
                    if rest.notices.len() > 0 {
                        assert((seq![notice] + rest.notices).last() == rest.notices.last());
                    }
                    decision_is_final(mode, args.skip(1), more);
                },
            }
        }
    }
}

/// What was warned about stays warned about, and in the same order, whatever
/// arguments follow.
pub proof fn warnings_are_final(
    mode: LatencyMode,
    args: Seq<Seq<char>>,
    more: Seq<Seq<char>>,
    i: int,
)
    requires
        0 <= i < invoked(mode, args).notices.len(),
        invoked(mode, args).notices[i] is UnknownArgument,
    ensures
        i < invoked(mode, args + more).notices.len(),
        invoked(mode, args + more).notices[i] == invoked(mode, args).notices[i],
    decreases args.len(),
{
    let all = args + more;
    if args.len() > 0 {
        assert(all[0] == args[0]);
        assert(all.skip(1) =~= args.skip(1) + more);
        if args[0] == "--help"@ || args[0] == "-h"@ {
        } else if args[0] == "--latency"@ {
            if args.len() > 1 {
                assert(all[1] == args[1]);
                assert(all.skip(2) =~= args.skip(2) + more);
                if let Some(chosen) = mode_named(args[1]) {
                    warnings_are_final(chosen, args.skip(2), more, i);
                }
            }
        } else {
            match after_prefix(args[0], "--latency="@) {
                Some(value) => {
                    if let Some(chosen) = mode_named(value) {
                        warnings_are_final(chosen, args.skip(1), more, i);
                    }
                },
                None => {
                    if i > 0 {
                        warnings_are_final(mode, args.skip(1), more, i - 1);
                    }
                },
            }
        }
    }
}

} // verus!
