//! What a search comes to, on any file system that does not change under it.
use crate::files::{
    anchored, entry_views, Anchor, DirEntry, EntryView, FileMeta, Location, LocationView,
};
use crate::search::{
    best_view, considered, entry_task, folder_tasks, initial_search, is_options_file,
    mentions_game, options_below, package_options, prepended, requested, stack_view, stepped,
    user_task, users_tasks, within_depth, BestView, ReplyView, RequestView, SearchView, TaskView,
    MAX_DEPTH, OPEN_DEPTH,
};
use crate::search::{
    find_options_path, scan_known_bedrock_users, scan_options_recursive, try_options_candidate,
    Reply, Request, Search, Task,
};
use crate::text::{lowered, occurrence_survives_extension, occurs};
use vstd::prelude::*;

verus! {

/// A file system: what can be listed and what can be read of each path.
#[verifier::reject_recursive_types(P)]
pub struct FileSystem<P> {
    pub listing: spec_fn(LocationView<P>) -> Option<Seq<EntryView<P>>>,
    pub metadata: spec_fn(LocationView<P>) -> Option<FileMeta>,
}

/// A readable candidate file, and when it was modified.
pub struct Hit<P> {
    pub path: LocationView<P>,
    pub modified: int,
}

/// The candidate `path`, if it is a file that can be read.
pub open spec fn candidate_hits<P>(fs: FileSystem<P>, path: LocationView<P>) -> Seq<Hit<P>> {
    match (fs.metadata)(path) {
        Some(m) => if m.is_file {
            seq![Hit { path, modified: m.modified_at() }]
        } else {
            Seq::empty()
        },
        None => Seq::empty(),
    }
}

/// The entry `path` itself.
pub open spec fn found<P>(path: P) -> LocationView<P> {
    LocationView { anchor: Anchor::Found(path), tail: Seq::empty() }
}

/// Where the options are of the user whose directory is `path`.
pub open spec fn options_of_user<P>(path: P) -> LocationView<P> {
    LocationView {
        anchor: Anchor::Found(path),
        tail: seq!["games"@, "com.mojang"@, "minecraftpe"@, "options.txt"@],
    }
}

/// Where the options are of the game that is installed as `package`.
pub open spec fn options_of_package<P>(package: Seq<char>) -> LocationView<P> {
    LocationView {
        anchor: Anchor::Local,
        tail: seq![
            "Packages"@,
            package,
            "LocalState"@,
            "games"@,
            "com.mojang"@,
            "minecraftpe"@,
            "options.txt"@,
        ],
    }
}

/// Where the directories of the users are.
pub open spec fn users_directory<P>() -> LocationView<P> {
    LocationView { anchor: Anchor::Roaming, tail: seq!["Minecraft Bedrock"@, "Users"@] }
}

/// `s` holds "minecraft" or "mojang", in any case.
pub open spec fn names_the_game(s: Seq<char>) -> bool {
    occurs(lowered(s), "minecraft"@) || occurs(lowered(s), "mojang"@)
}

/// The entry is a file, no directory, of the name "options.txt", and its path holds
/// "minecraftpe", both in any case.
pub open spec fn is_games_options<P>(entry: EntryView<P>) -> bool {
    &&& entry.kind is Some
    &&& !entry.kind->0.is_dir
    &&& entry.kind->0.is_file
    &&& lowered(entry.name) == "options.txt"@
    &&& occurs(lowered(entry.path_text), "minecraftpe"@)
}

/// The entry is a directory, no link, that the walk enters from one at `depth` of
/// path `text`: near the root, or by the name of either.
pub open spec fn is_entered<P>(text: Seq<char>, depth: nat, entry: EntryView<P>) -> bool {
    &&& entry.kind is Some
    &&& entry.kind->0.is_dir
    &&& !entry.kind->0.is_symlink
    &&& depth < 10
    &&& depth < 2 || names_the_game(text) || names_the_game(entry.name)
}

/// The options files of the users that `entries` name.
pub open spec fn users_hits<P>(fs: FileSystem<P>, entries: Seq<EntryView<P>>) -> Seq<Hit<P>>
    decreases entries.len(),
{
    if entries.len() == 0 {
        Seq::empty()
    } else {
        let here = if entries[0].kind is Some && entries[0].kind->0.is_dir {
            candidate_hits(fs, options_of_user(entries[0].path))
        } else {
            Seq::empty()
        };
        here + users_hits(fs, entries.skip(1))
    }
}

/// The options files in the directory `path` at `depth`, and below it as far as
/// the walk goes.
pub open spec fn folder_hits<P>(
    fs: FileSystem<P>,
    path: LocationView<P>,
    text: Seq<char>,
    depth: nat,
) -> Seq<Hit<P>>
    decreases 11 - depth, 1int, 0nat,
{
    if depth > 10 {
        Seq::empty()
    } else {
        match (fs.listing)(path) {
            Some(entries) => entries_hits(fs, text, depth, entries),
            None => Seq::empty(),
        }
    }
}

/// The options files among `entries` of a directory at `depth`, and below them.
pub open spec fn entries_hits<P>(
    fs: FileSystem<P>,
    text: Seq<char>,
    depth: nat,
    entries: Seq<EntryView<P>>,
) -> Seq<Hit<P>>
    decreases 11 - depth, 0int, entries.len(),
{
    if depth > 10 || entries.len() == 0 {
        Seq::empty()
    } else {
        let entry = entries[0];
        let here = if is_entered(text, depth, entry) {
            folder_hits(fs, found(entry.path), entry.path_text, depth + 1)
        } else if is_games_options(entry) {
            candidate_hits(fs, found(entry.path))
        } else {
            Seq::empty()
        };
        here + entries_hits(fs, text, depth, entries.skip(1))
    }
}

/// The options files that `task` finds.
pub open spec fn task_hits<P>(fs: FileSystem<P>, task: TaskView<P>) -> Seq<Hit<P>> {
    match task {
        TaskView::Candidate { path } => candidate_hits(fs, path),
        TaskView::Users { path } => match (fs.listing)(path) {
            Some(entries) => users_hits(fs, entries),
            None => Seq::empty(),
        },
        TaskView::Folder { path, text, depth } => folder_hits(fs, path, text, depth as nat),
    }
}

/// The options files that the tasks find, in the order in which they are
/// examined.
pub open spec fn all_hits<P>(fs: FileSystem<P>, todo: Seq<TaskView<P>>) -> Seq<Hit<P>>
    decreases todo.len(),
{
    if todo.len() == 0 {
        Seq::empty()
    } else {
        task_hits(fs, todo[0]) + all_hits(fs, todo.skip(1))
    }
}

/// The best once the hit `hit` has been seen.
pub open spec fn improved<P>(best: BestView<P>, hit: Hit<P>) -> BestView<P> {
    if best.path is None || hit.modified > best.newest {
        BestView { newest: hit.modified, path: Some(hit.path) }
    } else {
        best
    }
}

/// The best once all of `hits` have been seen.
pub open spec fn best_of<P>(best: BestView<P>, hits: Seq<Hit<P>>) -> BestView<P>
    decreases hits.len(),
{
    if hits.len() == 0 {
        best
    } else {
        best_of(improved(best, hits[0]), hits.skip(1))
    }
}

/// What `fs` replies to a request.
pub open spec fn answer<P>(fs: FileSystem<P>, request: RequestView<P>) -> ReplyView<P> {
    match request {
        RequestView::Metadata(path) => ReplyView::Metadata((fs.metadata)(path)),
        RequestView::Listing(path) => ReplyView::Listing((fs.listing)(path)),
        RequestView::Finished => ReplyView::Metadata(None),
    }
}

/// The search one step further on `fs`.
pub open spec fn advanced<P>(fs: FileSystem<P>, s: SearchView<P>) -> SearchView<P> {
    stepped(s, answer(fs, requested(s)))
}

/// The search `steps` steps further on `fs`.
pub open spec fn run<P>(fs: FileSystem<P>, s: SearchView<P>, steps: nat) -> SearchView<P>
    decreases steps,
{
    if steps == 0 {
        s
    } else {
        run(fs, advanced(fs, s), (steps - 1) as nat)
    }
}

/// `hits[i]` was modified last; of several that were, it is the first.
pub open spec fn is_first_newest<P>(hits: Seq<Hit<P>>, i: int) -> bool {
    &&& 0 <= i < hits.len()
    &&& forall|j: int| 0 <= j < hits.len() ==> (#[trigger] hits[j]).modified <= hits[i].modified
    &&& forall|j: int| 0 <= j < i ==> (#[trigger] hits[j]).modified < hits[i].modified
}

// ---------------------------------------------------------------------------
// Lemmas
// ---------------------------------------------------------------------------

proof fn best_of_append<P>(best: BestView<P>, a: Seq<Hit<P>>, b: Seq<Hit<P>>)
    ensures
        best_of(best, a + b) == best_of(best_of(best, a), b),
    decreases a.len(),
{
    if a.len() == 0 {
        assert(a + b =~= b);
    } else {
        assert((a + b).skip(1) =~= a.skip(1) + b);
        best_of_append(improved(best, a[0]), a.skip(1), b);
    }
}

proof fn all_hits_append<P>(fs: FileSystem<P>, a: Seq<TaskView<P>>, b: Seq<TaskView<P>>)
    ensures
        all_hits(fs, a + b) == all_hits(fs, a) + all_hits(fs, b),
    decreases a.len(),
{
    if a.len() == 0 {
        assert(a + b =~= b);
        assert(all_hits(fs, a) + all_hits(fs, b) =~= all_hits(fs, b));
    } else {
        assert((a + b).skip(1) =~= a.skip(1) + b);
        all_hits_append(fs, a.skip(1), b);
        assert(all_hits(fs, a + b) =~= all_hits(fs, a) + all_hits(fs, b));
    }
}

proof fn all_hits_prepended<P>(
    fs: FileSystem<P>,
    task: Option<TaskView<P>>,
    rest: Seq<TaskView<P>>,
)
    ensures
        all_hits(fs, prepended(task, rest)) == (match task {
            Some(t) => task_hits(fs, t),
            None => Seq::empty(),
        }) + all_hits(fs, rest),
{
    match task {
        Some(t) => {
            assert((seq![t] + rest).skip(1) =~= rest);
        },
        None => {
            assert(Seq::<Hit<P>>::empty() + all_hits(fs, rest) =~= all_hits(fs, rest));
        },
    }
}

proof fn names_are_small()
    ensures
        lowered("options.txt"@) == "options.txt"@,
        lowered("minecraftpe"@) == "minecraftpe"@,
{
    reveal_strlit("options.txt");
    reveal_strlit("minecraftpe");
    assert(lowered("options.txt"@) =~= "options.txt"@);
    assert(lowered("minecraftpe"@) =~= "minecraftpe"@);
}

proof fn entry_leaves_a_task<P>(text: Seq<char>, depth: u8, entry: EntryView<P>)
    ensures
        entry_task(text, depth, entry) == (if is_entered(text, depth as nat, entry) {
            Some(
                TaskView::Folder {
                    path: found(entry.path),
                    text: entry.path_text,
                    depth: (depth + 1) as u8,
                },
            )
        } else if is_games_options(entry) {
            Some(TaskView::Candidate { path: found(entry.path) })
        } else {
            None
        }),
{
    names_are_small();
}

proof fn user_leaves_a_candidate<P>(entry: EntryView<P>)
    ensures
        user_task(entry) == (if entry.kind is Some && entry.kind->0.is_dir {
            Some(TaskView::Candidate { path: options_of_user(entry.path) })
        } else {
            None
        }),
{
    assert(options_below(anchored(Anchor::Found(entry.path))).tail =~= options_of_user(
        entry.path,
    ).tail);
}

proof fn users_tasks_hits<P>(fs: FileSystem<P>, entries: Seq<EntryView<P>>)
    ensures
        all_hits(fs, users_tasks(entries)) == users_hits(fs, entries),
    decreases entries.len(),
{
    if entries.len() > 0 {
        users_tasks_hits(fs, entries.skip(1));
        user_leaves_a_candidate(entries[0]);
        all_hits_prepended(fs, user_task(entries[0]), users_tasks(entries.skip(1)));
    }
}

proof fn folder_tasks_hits<P>(
    fs: FileSystem<P>,
    text: Seq<char>,
    depth: u8,
    entries: Seq<EntryView<P>>,
)
    ensures
        all_hits(fs, folder_tasks(text, depth, entries)) == entries_hits(
            fs,
            text,
            depth as nat,
            entries,
        ),
    decreases entries.len(),
{
    if depth <= MAX_DEPTH && entries.len() > 0 {
        entry_leaves_a_task(text, depth, entries[0]);
        folder_tasks_hits(fs, text, depth, entries.skip(1));
        all_hits_prepended(
            fs,
            entry_task(text, depth, entries[0]),
            folder_tasks(text, depth, entries.skip(1)),
        );
    }
}

proof fn folder_tasks_depth<P>(text: Seq<char>, depth: u8, entries: Seq<EntryView<P>>)
    ensures
        forall|i: int|
            0 <= i < folder_tasks(text, depth, entries).len() ==> (#[trigger] folder_tasks(
                text,
                depth,
                entries,
            )[i] matches TaskView::Folder { depth: d, .. } ==> d == depth + 1 && d <= MAX_DEPTH),
        forall|i: int|
            0 <= i < folder_tasks(text, depth, entries).len() ==> !(#[trigger] folder_tasks(
                text,
                depth,
                entries,
            )[i] is Users),
    decreases entries.len(),
{
    if depth <= MAX_DEPTH && entries.len() > 0 {
        folder_tasks_depth(text, depth, entries.skip(1));
    }
}

proof fn users_tasks_are_candidates<P>(entries: Seq<EntryView<P>>)
    ensures
        forall|i: int|
            0 <= i < users_tasks(entries).len() ==> #[trigger] users_tasks(entries)[i] is Candidate,
    decreases entries.len(),
{
    if entries.len() > 0 {
        users_tasks_are_candidates(entries.skip(1));
    }
}

proof fn run_append<P>(fs: FileSystem<P>, s: SearchView<P>, a: nat, b: nat)
    ensures
        run(fs, s, a + b) == run(fs, run(fs, s, a), b),
    decreases a,
{
    if a > 0 {
        run_append(fs, advanced(fs, s), (a - 1) as nat, b);
    }
}

/// Candidates at the head of the list are worked off one by one.
proof fn candidates_finish<P>(
    fs: FileSystem<P>,
    s: SearchView<P>,
    head: Seq<TaskView<P>>,
    rest: Seq<TaskView<P>>,
) -> (n: nat)
    requires
        s.todo == head + rest,
        forall|i: int| 0 <= i < head.len() ==> #[trigger] head[i] is Candidate,
    ensures
        run(fs, s, n).todo == rest,
    decreases head.len(),
{
    if head.len() == 0 {
        assert(s.todo =~= rest);
        0
    } else {
        assert(s.todo[0] == head[0]);
        assert(s.todo.skip(1) =~= head.skip(1) + rest);
        let m = candidates_finish(fs, advanced(fs, s), head.skip(1), rest);
        m + 1
    }
}

/// A directory at the head of the list is worked off, with all below it.
proof fn folder_finishes<P>(
    fs: FileSystem<P>,
    s: SearchView<P>,
    rest: Seq<TaskView<P>>,
    depth: u8,
) -> (n: nat)
    requires
        depth <= MAX_DEPTH,
        s.todo.len() > 0,
        s.todo[0] matches TaskView::Folder { depth: d, .. } && d == depth,
        s.todo.skip(1) == rest,
    ensures
        run(fs, s, n).todo == rest,
    decreases MAX_DEPTH - depth, 1int, 0nat,
{
    let next = advanced(fs, s);
    match s.todo[0] {
        TaskView::Folder { path, text, depth: d } => {
            match (fs.listing)(path) {
                None => {
                    assert(run(fs, next, 0).todo == rest);
                    1
                },
                Some(entries) => {
                    let head = folder_tasks(text, depth, entries);
                    folder_tasks_depth(text, depth, entries);
                    let m = folders_finish(fs, next, head, rest, depth);
                    m + 1
                },
            }
        },
        _ => 0,
    }
}

/// What a directory at `depth` left to do is worked off.
proof fn folders_finish<P>(
    fs: FileSystem<P>,
    s: SearchView<P>,
    head: Seq<TaskView<P>>,
    rest: Seq<TaskView<P>>,
    depth: u8,
) -> (n: nat)
    requires
        depth <= MAX_DEPTH,
        s.todo == head + rest,
        forall|i: int|
            0 <= i < head.len() ==> (#[trigger] head[i] matches TaskView::Folder { depth: d, .. }
                ==> d == depth + 1 && d <= MAX_DEPTH),
        forall|i: int| 0 <= i < head.len() ==> !(#[trigger] head[i] is Users),
    ensures
        run(fs, s, n).todo == rest,
    decreases MAX_DEPTH - depth, 0int, head.len(),
{
    if head.len() == 0 {
        assert(s.todo =~= rest);
        0
    } else {
        let after = head.skip(1) + rest;
        assert(s.todo[0] == head[0]);
        assert(s.todo.skip(1) =~= after);
        let k: nat = if head[0] is Folder {
            folder_finishes(fs, s, after, (depth + 1) as u8)
        } else {
            assert(run(fs, advanced(fs, s), 0).todo == after);
            1
        };
        assert(run(fs, s, k).todo == after);
        let m = folders_finish(fs, run(fs, s, k), head.skip(1), rest, depth);
        run_append(fs, s, k, m);
        k + m
    }
}

proof fn todo_finishes<P>(fs: FileSystem<P>, s: SearchView<P>) -> (n: nat)
    ensures
        run(fs, s, n).todo.len() == 0,
    decreases s.todo.len(),
{
    if s.todo.len() == 0 {
        0
    } else {
        let rest = s.todo.skip(1);
        let k: nat = match s.todo[0] {
            TaskView::Candidate { .. } => {
                assert(run(fs, advanced(fs, s), 0).todo == rest);
                1
            },
            TaskView::Users { path } => {
                let next = advanced(fs, s);
                match (fs.listing)(path) {
                    Some(entries) => {
                        users_tasks_are_candidates(entries);
                        let m = candidates_finish(fs, next, users_tasks(entries), rest);
                        m + 1
                    },
                    None => {
                        assert(run(fs, next, 0).todo == rest);
                        1
                    },
                }
            },
            TaskView::Folder { depth, .. } => if depth <= MAX_DEPTH {
                folder_finishes(fs, s, rest, depth)
            } else {
                assert(Seq::<TaskView<P>>::empty() + rest =~= rest);
                assert(run(fs, advanced(fs, s), 0).todo == rest);
                1
            },
        };
        let then = run(fs, s, k);
        assert(then.todo == rest);
        let m = todo_finishes(fs, then);
        run_append(fs, s, k, m);
        k + m
    }
}

// ---------------------------------------------------------------------------
// Laws
// ---------------------------------------------------------------------------

/// However a search is answered, it never asks for a directory deeper than
/// `MAX_DEPTH`.
pub proof fn search_stays_within_depth<P>(s: SearchView<P>, reply: ReplyView<P>)
    requires
        within_depth(s),
    ensures
        within_depth(stepped(s, reply)),
{
    let next = stepped(s, reply);
    if s.todo.len() > 0 {
        let rest = s.todo.skip(1);
        assert(forall|i: int| 0 <= i < rest.len() ==> #[trigger] rest[i] == s.todo[i + 1]);
        match (s.todo[0], reply) {
            (TaskView::Users { .. }, ReplyView::Listing(Some(entries))) => {
                users_tasks_are_candidates(entries);
            },
            (TaskView::Folder { text, depth, .. }, ReplyView::Listing(Some(entries))) => {
                folder_tasks_depth(text, depth, entries);
            },
            _ => {},
        }
    }
}

/// Of the files that a walk meets it examines only those named `options.txt` on
/// a path that names `minecraftpe`; and from the depth `OPEN_DEPTH` on, it
/// enters only directories whose path or name names the game or its maker.
pub proof fn walk_keeps_to_the_game<P>(
    text: Seq<char>,
    depth: u8,
    entries: Seq<EntryView<P>>,
    i: int,
)
    requires
        0 <= i < folder_tasks(text, depth, entries).len(),
    ensures
        exists|j: int|
            0 <= j < entries.len() && entry_task(text, depth, #[trigger] entries[j]) == Some(
                folder_tasks(text, depth, entries)[i],
            ) && (match folder_tasks(text, depth, entries)[i] {
                TaskView::Candidate { path } => {
                    &&& path == anchored(Anchor::Found(entries[j].path))
                    &&& entries[j].kind is Some
                    &&& entries[j].kind->0.is_file
                    &&& is_options_file(entries[j].name, entries[j].path_text)
                },
                TaskView::Folder { path, .. } => {
                    &&& path == anchored(Anchor::Found(entries[j].path))
                    &&& entries[j].kind is Some
                    &&& entries[j].kind->0.is_dir
                    &&& !entries[j].kind->0.is_symlink
                    &&& depth < OPEN_DEPTH || mentions_game(text) || mentions_game(
                        entries[j].name,
                    )
                },
                TaskView::Users { .. } => false,
            }),
    decreases entries.len(),
{
    let rest = entries.skip(1);
    let here = entry_task(text, depth, entries[0]);
    let task = folder_tasks(text, depth, entries)[i];
    if here is Some && i == 0 {
        assert(entry_task(text, depth, entries[0]) == Some(task));
    } else {
        let k = if here is Some {
            i - 1
        } else {
            i
        };
        assert(task == folder_tasks(text, depth, rest)[k]);
        walk_keeps_to_the_game(text, depth, rest, k);
        let j = choose|j: int|
            0 <= j < rest.len() && entry_task(text, depth, #[trigger] rest[j]) == Some(task);
        assert(rest[j] == entries[j + 1]);
    }
}

/// Below a directory whose path names the game, every path does: there the walk
/// enters every directory down to the depth limit, whatever it is called.
pub proof fn game_is_named_below(text: Seq<char>, rest: Seq<char>)
    requires
        mentions_game(text),
    ensures
        mentions_game(text + rest),
{
    let low = lowered(text);
    let more = lowered(rest);
    assert(lowered(text + rest) =~= Seq::empty() + low + more);
    if occurs(low, "minecraft"@) {
        occurrence_survives_extension(Seq::empty(), low, more, "minecraft"@);
    } else {
        occurrence_survives_extension(Seq::empty(), low, more, "mojang"@);
    }
}

/// A directory deeper than `MAX_DEPTH`, or one that cannot be listed, leaves
/// nothing to do and the best as it was, whatever is in it.
pub proof fn unwalked_directory_changes_nothing<P>(s: SearchView<P>, reply: ReplyView<P>)
    requires
        s.todo.len() > 0,
        s.todo[0] matches TaskView::Folder { depth, .. } && (depth > MAX_DEPTH || reply
            == ReplyView::<P>::Listing(None)),
        reply is Listing,
    ensures
        stepped(s, reply) == (SearchView { todo: s.todo.skip(1), best: s.best }),
{
    assert(Seq::<TaskView<P>>::empty() + s.todo.skip(1) =~= s.todo.skip(1));
}

/// A step that is answered from the file system changes nothing about what the
/// search comes to: the best of what it has and of all it has yet to find.
pub proof fn search_step_keeps_outcome<P>(fs: FileSystem<P>, s: SearchView<P>)
    ensures
        best_of(advanced(fs, s).best, all_hits(fs, advanced(fs, s).todo)) == best_of(
            s.best,
            all_hits(fs, s.todo),
        ),
{
    if s.todo.len() > 0 {
        let rest = s.todo.skip(1);
        let task = s.todo[0];
        match task {
            TaskView::Candidate { path } => {
                let hits = candidate_hits(fs, path);
                best_of_append(s.best, hits, all_hits(fs, rest));
                if hits.len() > 0 {
                    assert(hits.skip(1) =~= Seq::empty());
                    let one = improved(s.best, hits[0]);
                    assert(best_of(one, hits.skip(1)) == one);
                }
                assert(best_of(s.best, hits) == considered(s.best, path, (fs.metadata)(path)));
            },
            TaskView::Users { path } => {
                match (fs.listing)(path) {
                    Some(entries) => {
                        users_tasks_hits(fs, entries);
                        all_hits_append(fs, users_tasks(entries), rest);
                    },
                    None => {
                        assert(Seq::<Hit<P>>::empty() + all_hits(fs, rest) =~= all_hits(fs, rest));
                    },
                }
            },
            TaskView::Folder { path, text, depth } => {
                match (fs.listing)(path) {
                    Some(entries) => {
                        folder_tasks_hits(fs, text, depth, entries);
                        all_hits_append(fs, folder_tasks(text, depth, entries), rest);
                    },
                    None => {
                        assert(Seq::<Hit<P>>::empty() + all_hits(fs, rest) =~= all_hits(fs, rest));
                    },
                }
            },
        }
    }
}

/// On a file system that does not change, a search ends after finitely many
/// steps; and wherever it asks for nothing more, it has the best of what it had
/// and of all there was to find.
pub proof fn search_ends<P>(fs: FileSystem<P>, s: SearchView<P>)
    ensures
        exists|n: nat| requested(#[trigger] run(fs, s, n)) is Finished,
        forall|n: nat|
            requested(#[trigger] run(fs, s, n)) is Finished ==> run(fs, s, n).best == best_of(
                s.best,
                all_hits(fs, s.todo),
            ),
{
    let end = todo_finishes(fs, s);
    assert(requested(run(fs, s, end)) is Finished);
    assert forall|n: nat| requested(#[trigger] run(fs, s, n)) is Finished implies run(
        fs,
        s,
        n,
    ).best == best_of(s.best, all_hits(fs, s.todo)) by {
        run_keeps_outcome(fs, s, n);
    }
}

proof fn run_keeps_outcome<P>(fs: FileSystem<P>, s: SearchView<P>, n: nat)
    ensures
        best_of(run(fs, s, n).best, all_hits(fs, run(fs, s, n).todo)) == best_of(
            s.best,
            all_hits(fs, s.todo),
        ),
    decreases n,
{
    if n > 0 {
        search_step_keeps_outcome(fs, s);
        run_keeps_outcome(fs, advanced(fs, s), (n - 1) as nat);
    }
}

/// The candidate that was modified last is the best of all; of several that
/// were, the one examined first. There is none only where there is no candidate.
pub proof fn newest_candidate_is_best<P>(newest: int, hits: Seq<Hit<P>>)
    ensures
        ({
            let best = best_of(BestView { newest, path: None }, hits);
            &&& hits.len() == 0 ==> best.path is None
            &&& hits.len() > 0 ==> exists|i: int|
                #[trigger] is_first_newest(hits, i) && best == (BestView {
                    newest: hits[i].modified,
                    path: Some(hits[i].path),
                })
        }),
{
    if hits.len() > 0 {
        best_after(hits, 1, BestView { newest: hits[0].modified, path: Some(hits[0].path) }, 0);
    }
}

/// `best` is the first newest of the first `seen` hits; the rest follow.
proof fn best_after<P>(hits: Seq<Hit<P>>, seen: int, best: BestView<P>, at: int)
    requires
        0 < seen <= hits.len(),
        is_first_newest(hits.take(seen), at),
        best == (BestView { newest: hits[at].modified, path: Some(hits[at].path) }),
    ensures
        exists|i: int|
            #[trigger] is_first_newest(hits, i) && best_of(best, hits.skip(seen)) == (BestView {
                newest: hits[i].modified,
                path: Some(hits[i].path),
            }),
    decreases hits.len() - seen,
{
    if seen == hits.len() {
        assert(hits.take(seen) =~= hits);
        assert(hits.skip(seen).len() == 0);
        assert(is_first_newest(hits, at));
    } else {
        let hit = hits[seen];
        let now = if hit.modified > best.newest {
            seen
        } else {
            at
        };
        assert(hits.skip(seen).skip(1) =~= hits.skip(seen + 1));
        assert forall|j: int| 0 <= j < seen + 1 implies (#[trigger] hits.take(
            seen + 1,
        )[j]).modified <= hits[now].modified by {
            if j < seen {
                assert(hits.take(seen)[j] == hits[j]);
            }
        }
        assert forall|j: int| 0 <= j < now implies (#[trigger] hits.take(seen + 1)[j]).modified
            < hits[now].modified by {
            assert(hits.take(seen)[j] == hits[j]);
        }
        best_after(hits, seen + 1, improved(best, hit), now);
    }
}

/// Seeing more candidates leaves the best as it was or makes one of them the
/// best, and none of them was modified later than that.
pub proof fn best_is_kept_or_improved<P>(best: BestView<P>, hits: Seq<Hit<P>>)
    ensures
        ({
            let after = best_of(best, hits);
            &&& after == best || exists|i: int|
                0 <= i < hits.len() && after == (BestView {
                    newest: (#[trigger] hits[i]).modified,
                    path: Some(hits[i].path),
                })
            &&& forall|i: int|
                0 <= i < hits.len() ==> (#[trigger] hits[i]).modified <= after.newest
            &&& best.path is Some ==> best.newest <= after.newest
            &&& best.path is Some || hits.len() > 0 ==> after.path is Some
        }),
    decreases hits.len(),
{
    if hits.len() > 0 {
        let next = improved(best, hits[0]);
        let rest = hits.skip(1);
        best_is_kept_or_improved(next, rest);
        let after = best_of(best, hits);
        assert(after == best_of(next, rest));
        if after != best {
            if after == next {
                assert(after == (BestView {
                    newest: hits[0].modified,
                    path: Some(hits[0].path),
                }));
            } else {
                let k = choose|k: int|
                    0 <= k < rest.len() && after == (BestView {
                        newest: (#[trigger] rest[k]).modified,
                        path: Some(rest[k].path),
                    });
                assert(rest[k] == hits[k + 1]);
            }
        }
        assert forall|i: int| 0 <= i < hits.len() implies (#[trigger] hits[i]).modified
            <= after.newest by {
            if i > 0 {
                assert(hits[i] == rest[i - 1]);
            }
        }
    }
}

/// The walk of one directory, from whatever was best before, ends, and wherever it
/// asks for nothing more it has the best of that and of the options files in and
/// below it; one that starts deeper than `MAX_DEPTH`, or at a directory that
/// cannot be listed, ends with what was best before.
pub proof fn walk_ends<P>(
    fs: FileSystem<P>,
    path: LocationView<P>,
    text: Seq<char>,
    depth: u8,
    best: BestView<P>,
)
    ensures
        ({
            let start = SearchView {
                todo: seq![TaskView::Folder { path, text, depth }],
                best,
            };
            let hits = folder_hits(fs, path, text, depth as nat);
            &&& exists|n: nat| requested(#[trigger] run(fs, start, n)) is Finished
            &&& forall|n: nat|
                requested(#[trigger] run(fs, start, n)) is Finished ==> run(fs, start, n).best
                    == best_of(best, hits)
            &&& depth > MAX_DEPTH || (fs.listing)(path) is None ==> best_of(best, hits) == best
        }),
{
    let task = TaskView::Folder { path, text, depth };
    let start = SearchView { todo: seq![task], best };
    let hits = folder_hits(fs, path, text, depth as nat);
    search_ends(fs, start);
    assert(start.todo.skip(1) =~= Seq::empty());
    assert(all_hits(fs, start.todo.skip(1)) =~= Seq::empty());
    assert(all_hits(fs, start.todo) =~= hits);
}

/// The search of the user's data directories ends, and wherever it asks for
/// nothing more it has the options file that was modified last, the first
/// examined of several, and none only where there is none to find.
pub proof fn find_options_path_finds_newest<P>(
    fs: FileSystem<P>,
    local_text: Seq<char>,
    roaming_text: Seq<char>,
)
    ensures
        ({
            let start = initial_search::<P>(local_text, roaming_text);
            let hits = all_hits(fs, start.todo);
            &&& exists|n: nat| requested(#[trigger] run(fs, start, n)) is Finished
            &&& forall|n: nat|
                requested(#[trigger] run(fs, start, n)) is Finished ==> match run(
                    fs,
                    start,
                    n,
                ).best.path {
                    None => hits.len() == 0,
                    Some(path) => exists|i: int| #[trigger]
                        is_first_newest(hits, i) && hits[i].path == path,
                }
        }),
{
    let start = initial_search::<P>(local_text, roaming_text);
    let hits = all_hits(fs, start.todo);
    search_ends(fs, start);
    newest_candidate_is_best(0, hits);
}

// ---------------------------------------------------------------------------
// What is examined, and where
// ---------------------------------------------------------------------------

/// A candidate takes the place of the best so far exactly where it is a file that
/// can be read and there is none so far or it was modified later; where the
/// platform does not say when, that was at zero.
pub proof fn newer_file_takes_the_place<P>(
    best: BestView<P>,
    path: LocationView<P>,
    meta: Option<FileMeta>,
)
    ensures
        ({
            let after = considered(best, path, meta);
            let time = if meta is Some && meta->0.modified is Some {
                meta->0.modified->0 as int
            } else {
                0
            };
            if meta is Some && meta->0.is_file && (best.path is None || best.newest < time) {
                after.path == Some(path) && after.newest == time
            } else {
                after == best
            }
        }),
{
}

/// The same of the call: the place and the time change together, and only for a
/// file that can be read and is the first or newer.
pub proof fn newer_candidate_takes_the_place<P>(
    path: Location<P>,
    meta: Option<FileMeta>,
    newest: &mut i128,
    best: &mut Option<Location<P>>,
)
    requires
        call_ensures(try_options_candidate::<P>, (path, meta, newest, best), ()),
    ensures
        ({
            let time: int = if meta is Some && meta->0.modified is Some {
                meta->0.modified->0 as int
            } else {
                0
            };
            if meta is Some && meta->0.is_file && (*old(best) is None || *old(newest) < time) {
                &&& *final(newest) == time
                &&& *final(best) is Some && (*final(best))->0@ == path@
            } else {
                &&& *final(newest) == *old(newest)
                &&& *final(best) is Some <==> *old(best) is Some
                &&& *old(best) is Some ==> (*final(best))->0@ == (*old(best))->0@
            }
        }),
{
    newer_file_takes_the_place(best_view(*old(newest), *old(best)), path@, meta);
}

/// A listing is worked off entry by entry, in its order: what two parts of it leave
/// to do is what the first leaves, then what the second leaves.
pub proof fn entries_are_worked_off_in_order<P>(
    text: Seq<char>,
    depth: u8,
    a: Seq<EntryView<P>>,
    b: Seq<EntryView<P>>,
)
    ensures
        folder_tasks(text, depth, a + b) == folder_tasks(text, depth, a) + folder_tasks(
            text,
            depth,
            b,
        ),
        users_tasks(a + b) == users_tasks(a) + users_tasks(b),
    decreases a.len(),
{
    if a.len() == 0 {
        assert(a + b =~= b);
        assert(Seq::<TaskView<P>>::empty() + folder_tasks(text, depth, b) =~= folder_tasks(
            text,
            depth,
            b,
        ));
        assert(Seq::<TaskView<P>>::empty() + users_tasks(b) =~= users_tasks(b));
    } else {
        assert((a + b).skip(1) =~= a.skip(1) + b);
        assert((a + b)[0] == a[0]);
        entries_are_worked_off_in_order(text, depth, a.skip(1), b);
        assert(folder_tasks(text, depth, a + b) =~= folder_tasks(text, depth, a) + folder_tasks(
            text,
            depth,
            b,
        ));
        assert(users_tasks(a + b) =~= users_tasks(a) + users_tasks(b));
    }
}

/// What one entry of the walk leaves to do. A file is examined exactly where its
/// name is "options.txt" and its path holds "minecraftpe", in any case. A
/// directory that is no link is listed, one deeper and by its own path, exactly
/// where it is above the tenth level and lies above the second, or "minecraft" or
/// "mojang" stands in its name or in the path of the directory it is in, in any
/// case. Nothing else is looked at, and nothing below the tenth level.
pub proof fn entry_is_examined_or_entered_by_name<P>(
    text: Seq<char>,
    depth: u8,
    entry: EntryView<P>,
)
    ensures
        ({
            let tasks = folder_tasks(text, depth, seq![entry]);
            let path = LocationView { anchor: Anchor::Found(entry.path), tail: Seq::empty() };
            if depth > 10 || entry.kind is None {
                tasks.len() == 0
            } else if entry.kind->0.is_dir {
                if !entry.kind->0.is_symlink && depth < 10 && (depth < 2 || occurs(
                    lowered(text),
                    "minecraft"@,
                ) || occurs(lowered(text), "mojang"@) || occurs(lowered(entry.name), "minecraft"@)
                    || occurs(lowered(entry.name), "mojang"@)) {
                    tasks == seq![
                        TaskView::Folder {
                            path,
                            text: entry.path_text,
                            depth: (depth + 1) as u8,
                        },
                    ]
                } else {
                    tasks.len() == 0
                }
            } else if entry.kind->0.is_file && lowered(entry.name) == "options.txt"@ && occurs(
                lowered(entry.path_text),
                "minecraftpe"@,
            ) {
                tasks == seq![TaskView::Candidate { path }]
            } else {
                tasks.len() == 0
            }
        }),
{
    entry_leaves_a_task(text, depth, entry);
    let none: Seq<EntryView<P>> = Seq::empty();
    assert(seq![entry].skip(1) =~= none);
    assert(folder_tasks(text, depth, none) =~= Seq::empty());
    if let Some(task) = entry_task(text, depth, entry) {
        assert(seq![task] + Seq::empty() =~= seq![task]);
    }
}

/// What one entry of the directory of users leaves to do: a directory is a user's,
/// whose options are at this place; nothing else is looked at.
pub proof fn user_is_examined_at_the_known_place<P>(entry: EntryView<P>)
    ensures
        users_tasks(seq![entry]) == (if entry.kind is Some && entry.kind->0.is_dir {
            seq![
                TaskView::Candidate {
                    path: LocationView {
                        anchor: Anchor::Found(entry.path),
                        tail: seq!["games"@, "com.mojang"@, "minecraftpe"@, "options.txt"@],
                    },
                },
            ]
        } else {
            Seq::empty()
        }),
{
    user_leaves_a_candidate(entry);
    let none: Seq<EntryView<P>> = Seq::empty();
    assert(seq![entry].skip(1) =~= none);
    assert(users_tasks(none) =~= Seq::empty());
    if let Some(task) = user_task(entry) {
        assert(seq![task] + Seq::empty() =~= seq![task]);
    }
}

/// Of the files that a walk meets it examines those named "options.txt" on a path
/// that holds "minecraftpe", both in any case, and no others: each candidate is
/// such a file, and each such file is a candidate.
pub proof fn walk_examines_the_games_options_only<P>(
    text: Seq<char>,
    depth: u8,
    entries: Seq<EntryView<P>>,
    path: P,
)
    requires
        depth <= 10,
    ensures
        folder_tasks(text, depth, entries).contains(
            TaskView::Candidate {
                path: LocationView { anchor: Anchor::Found(path), tail: Seq::empty() },
            },
        ) <==> exists|j: int|
            0 <= j < entries.len() && (#[trigger] entries[j]).path == path && entries[j].kind is Some
                && !entries[j].kind->0.is_dir && entries[j].kind->0.is_file && lowered(
                entries[j].name,
            ) == "options.txt"@ && occurs(lowered(entries[j].path_text), "minecraftpe"@),
        forall|i: int|
            0 <= i < folder_tasks(text, depth, entries).len() ==> ((#[trigger] folder_tasks(
                text,
                depth,
                entries,
            )[i]) matches TaskView::Candidate { path: p } ==> p.anchor is Found && p.tail.len()
                == 0),
    decreases entries.len(),
{
    let wanted = TaskView::Candidate {
        path: LocationView { anchor: Anchor::Found(path), tail: Seq::<Seq<char>>::empty() },
    };
    let all = folder_tasks(text, depth, entries);
    if entries.len() > 0 {
        let rest = entries.skip(1);
        let later = folder_tasks(text, depth, rest);
        walk_examines_the_games_options_only(text, depth, rest, path);
        entry_leaves_a_task(text, depth, entries[0]);
        let here = entry_task(text, depth, entries[0]);
        assert(all == prepended(here, later));
        if all.contains(wanted) {
            let i = choose|i: int| 0 <= i < all.len() && all[i] == wanted;
            if here is Some && i == 0 {
                assert(found(entries[0].path).anchor == wanted->Candidate_path.anchor);
                assert(entries[0].path == path);
            } else {
                let k = if here is Some {
                    i - 1
                } else {
                    i
                };
                assert(later[k] == wanted);
                let j = choose|j: int|
                    0 <= j < rest.len() && (#[trigger] rest[j]).path == path && is_games_options(
                        rest[j],
                    );
                assert(entries[j + 1] == rest[j]);
            }
        }
        if exists|j: int|
            0 <= j < entries.len() && (#[trigger] entries[j]).path == path && is_games_options(
                entries[j],
            ) {
            let j = choose|j: int|
                0 <= j < entries.len() && (#[trigger] entries[j]).path == path && is_games_options(
                    entries[j],
                );
            if j == 0 {
                assert(all[0] == wanted);
            } else {
                assert(rest[j - 1] == entries[j]);
                let k = choose|k: int| 0 <= k < later.len() && later[k] == wanted;
                let i = if here is Some {
                    k + 1
                } else {
                    k
                };
                assert(all[i] == wanted);
            }
        }
        assert forall|i: int| 0 <= i < all.len() implies ((
        #[trigger] all[i]) matches TaskView::Candidate { path: p } ==> p.anchor is Found
            && p.tail.len() == 0) by {
            if here is Some && i > 0 {
                assert(all[i] == later[i - 1]);
            } else if here is None {
                assert(all[i] == later[i]);
            }
        }
    }
}

/// A search starts at these places, in this order: the game as installed, the beta,
/// the users of the roaming data, and then the walks of the roaming and of the
/// local data, from the top. There is no best yet.
pub proof fn search_starts_at_the_known_places<P>(local_text: &str, roaming_text: &str, r: Search<P>)
    requires
        call_ensures(find_options_path::<P>, (local_text, roaming_text), r),
    ensures
        r@.best.path is None,
        r@.todo == seq![
            TaskView::Candidate {
                path: LocationView {
                    anchor: Anchor::<P>::Local,
                    tail: seq![
                        "Packages"@,
                        "Microsoft.MinecraftUWP_8wekyb3d8bbwe"@,
                        "LocalState"@,
                        "games"@,
                        "com.mojang"@,
                        "minecraftpe"@,
                        "options.txt"@,
                    ],
                },
            },
            TaskView::Candidate {
                path: LocationView {
                    anchor: Anchor::<P>::Local,
                    tail: seq![
                        "Packages"@,
                        "Microsoft.MinecraftWindowsBeta_8wekyb3d8bbwe"@,
                        "LocalState"@,
                        "games"@,
                        "com.mojang"@,
                        "minecraftpe"@,
                        "options.txt"@,
                    ],
                },
            },
            TaskView::Users {
                path: LocationView {
                    anchor: Anchor::<P>::Roaming,
                    tail: seq!["Minecraft Bedrock"@, "Users"@],
                },
            },
            TaskView::Folder {
                path: LocationView { anchor: Anchor::<P>::Roaming, tail: Seq::empty() },
                text: roaming_text@,
                depth: 0,
            },
            TaskView::Folder {
                path: LocationView { anchor: Anchor::<P>::Local, tail: Seq::empty() },
                text: local_text@,
                depth: 0,
            },
        ],
{
    start_is_at_the_known_places::<P>(local_text@, roaming_text@);
}

proof fn start_is_at_the_known_places<P>(local_text: Seq<char>, roaming_text: Seq<char>)
    ensures
        initial_search::<P>(local_text, roaming_text).todo == seq![
            TaskView::Candidate {
                path: options_of_package::<P>("Microsoft.MinecraftUWP_8wekyb3d8bbwe"@),
            },
            TaskView::Candidate {
                path: options_of_package::<P>("Microsoft.MinecraftWindowsBeta_8wekyb3d8bbwe"@),
            },
            TaskView::Users { path: users_directory::<P>() },
            TaskView::Folder {
                path: LocationView { anchor: Anchor::<P>::Roaming, tail: Seq::empty() },
                text: roaming_text,
                depth: 0,
            },
            TaskView::Folder {
                path: LocationView { anchor: Anchor::<P>::Local, tail: Seq::empty() },
                text: local_text,
                depth: 0,
            },
        ],
{
    let uwp = "Microsoft.MinecraftUWP_8wekyb3d8bbwe"@;
    let beta = "Microsoft.MinecraftWindowsBeta_8wekyb3d8bbwe"@;
    assert(package_options::<P>(uwp).tail =~= options_of_package::<P>(uwp).tail);
    assert(package_options::<P>(beta).tail =~= options_of_package::<P>(beta).tail);
    let users = initial_search::<P>(local_text, roaming_text).todo[2];
    assert(users->Users_path.tail =~= users_directory::<P>().tail);
}

/// The search asks for what is first to do: the metadata of a candidate, the
/// entries of a directory, and nothing where nothing is left.
pub proof fn search_asks_for_what_comes_first<P>(search: &Search<P>, r: Request<'_, P>)
    requires
        call_ensures(Search::<P>::request, (search,), r),
    ensures
        search@.todo.len() == 0 <==> r is Finished,
        search@.todo.len() > 0 ==> match search@.todo[0] {
            TaskView::Candidate { path } => r matches Request::Metadata(p) && p@ == path,
            TaskView::Users { path } => r matches Request::Listing(p) && p@ == path,
            TaskView::Folder { path, .. } => r matches Request::Listing(p) && p@ == path,
        },
{
}

/// A search goes on from a reply. Metadata settle a candidate: it is off the list,
/// and takes the place of the best where it is a file and the first or newer. A
/// listing puts what its entries leave to do in the place of the directory, and
/// the best stays; one that could not be had leaves nothing. A reply to something
/// that was not asked changes nothing.
pub proof fn search_goes_on_from_a_reply<P>(search: &mut Search<P>, reply: Reply<P>)
    requires
        call_ensures(Search::<P>::supply, (search, reply), ()),
    ensures
        ({
            let before = old(search)@;
            let after = final(search)@;
            let rest = before.todo.skip(1);
            if before.todo.len() == 0 {
                after == before
            } else {
                match (before.todo[0], reply) {
                    (TaskView::Candidate { path }, Reply::Metadata(meta)) => {
                        &&& after.todo == rest
                        &&& if meta is Some && meta->0.is_file && (before.best.path is None
                            || before.best.newest < (if meta->0.modified is Some {
                            meta->0.modified->0 as int
                        } else {
                            0
                        })) {
                            after.best.path == Some(path)
                        } else {
                            after.best == before.best
                        }
                    },
                    (TaskView::Users { .. }, Reply::Listing(Some(entries))) => {
                        &&& after.best == before.best
                        &&& after.todo == users_tasks(
                            Seq::new(entries@.len(), |i: int| entries@[i]@),
                        ) + rest
                    },
                    (
                        TaskView::Folder { text, depth, .. },
                        Reply::Listing(Some(entries)),
                    ) => {
                        &&& after.best == before.best
                        &&& after.todo == folder_tasks(
                            text,
                            depth,
                            Seq::new(entries@.len(), |i: int| entries@[i]@),
                        ) + rest
                    },
                    (TaskView::Users { .. }, Reply::Listing(None)) => {
                        after.best == before.best && after.todo == rest
                    },
                    (TaskView::Folder { .. }, Reply::Listing(None)) => {
                        after.best == before.best && after.todo == rest
                    },
                    _ => after == before,
                }
            }
        }),
{
    let before = old(search)@;
    if before.todo.len() > 0 {
        match (before.todo[0], reply) {
            (TaskView::Candidate { path }, Reply::Metadata(meta)) => {
                newer_file_takes_the_place(before.best, path, meta);
            },
            (_, Reply::Listing(Some(entries))) => {
                assert(entry_views(entries@) =~= Seq::new(
                    entries@.len(),
                    |i: int| entries@[i]@,
                ));
            },
            _ => {},
        }
    }
}

/// The best of a search is handed out as it is.
pub proof fn search_hands_out_its_best<P>(search: Search<P>, r: Option<Location<P>>)
    requires
        call_ensures(Search::<P>::best, (search,), r),
    ensures
        r matches Some(path) ==> search@.best.path == Some(path@),
        r is None <==> search@.best.path is None,
{
}

/// What is left to do is a stack: the last task is first to do, and what a listing
/// leaves to do comes before what was there.
pub proof fn listing_is_put_on_the_stack<P>(
    text: &str,
    depth: u8,
    entries: Vec<DirEntry<P>>,
    pending: &mut Vec<Task<P>>,
    users: Vec<DirEntry<P>>,
    others: &mut Vec<Task<P>>,
)
    requires
        call_ensures(scan_options_recursive::<P>, (text, depth, entries, pending), ()),
        call_ensures(scan_known_bedrock_users::<P>, (users, others), ()),
    ensures
        ({
            let views = Seq::new(entries@.len(), |i: int| entries@[i]@);
            let left = folder_tasks(text@, depth, views);
            let n = old(pending)@.len() as int;
            &&& final(pending)@.len() == n + left.len()
            &&& forall|i: int|
                0 <= i < n ==> (#[trigger] final(pending)@[i])@ == old(pending)@[i]@
            &&& forall|i: int|
                0 <= i < left.len() ==> (#[trigger] final(pending)@[n + left.len() - 1 - i])@
                    == left[i]
        }),
        ({
            let views = Seq::new(users@.len(), |i: int| users@[i]@);
            let left = users_tasks(views);
            let n = old(others)@.len() as int;
            &&& final(others)@.len() == n + left.len()
            &&& forall|i: int| 0 <= i < n ==> (#[trigger] final(others)@[i])@ == old(others)@[i]@
            &&& forall|i: int|
                0 <= i < left.len() ==> (#[trigger] final(others)@[n + left.len() - 1 - i])@
                    == left[i]
        }),
{
    let views = Seq::new(entries@.len(), |i: int| entries@[i]@);
    assert(entry_views(entries@) =~= views);
    stack_holds_what_is_on_top(
        folder_tasks(text@, depth, views),
        old(pending)@,
        final(pending)@,
    );
    let user_views = Seq::new(users@.len(), |i: int| users@[i]@);
    assert(entry_views(users@) =~= user_views);
    stack_holds_what_is_on_top(users_tasks(user_views), old(others)@, final(others)@);
}

proof fn stack_holds_what_is_on_top<P>(
    left: Seq<TaskView<P>>,
    before: Seq<Task<P>>,
    after: Seq<Task<P>>,
)
    requires
        stack_view(after) == left + stack_view(before),
    ensures
        after.len() == before.len() + left.len(),
        forall|i: int| 0 <= i < before.len() ==> (#[trigger] after[i])@ == before[i]@,
        forall|i: int|
            0 <= i < left.len() ==> (#[trigger] after[before.len() + left.len() - 1 - i])@ == left[i],
{
    assert(stack_view(after).len() == after.len());
    assert(stack_view(before).len() == before.len());
    assert forall|i: int| 0 <= i < before.len() implies (#[trigger] after[i])@ == before[i]@ by {
        let k = after.len() - 1 - i;
        assert(stack_view(after)[k] == after[i]@);
        assert((left + stack_view(before))[k] == stack_view(before)[k - left.len()]);
    }
    assert forall|i: int| 0 <= i < left.len() implies (#[trigger] after[before.len() + left.len()
        - 1 - i])@ == left[i] by {
        assert(stack_view(after)[i] == after[after.len() - 1 - i]@);
    }
}

/// The model of a task, a request or a reply is of the same kind and holds the same
/// values.
pub proof fn models_hold_what_is_asked<P>(task: Task<P>, request: Request<'_, P>, reply: Reply<P>)
    ensures
        task matches Task::Candidate { path } ==> task@ == (TaskView::Candidate { path: path@ }),
        task matches Task::Users { path } ==> task@ == (TaskView::Users { path: path@ }),
        task matches Task::Folder { path, text, depth } ==> task@ == (TaskView::Folder {
            path: path@,
            text: text@,
            depth,
        }),
        request matches Request::Metadata(path) ==> request@ == RequestView::Metadata(path@),
        request matches Request::Listing(path) ==> request@ == RequestView::Listing(path@),
        request is Finished ==> request@ is Finished,
        reply matches Reply::Metadata(meta) ==> reply@ == ReplyView::<P>::Metadata(meta),
        reply matches Reply::Listing(None) ==> reply@ == ReplyView::<P>::Listing(None),
        reply matches Reply::Listing(Some(entries)) ==> reply@ == ReplyView::Listing(
            Some(Seq::new(entries@.len(), |i: int| entries@[i]@)),
        ),
{
    if let Reply::Listing(Some(entries)) = reply {
        assert(entry_views(entries@) =~= Seq::new(entries@.len(), |i: int| entries@[i]@));
    }
}

// ---------------------------------------------------------------------------
// What is found
// ---------------------------------------------------------------------------

/// Entry `j` of the directory `q` is a file of the name "options.txt" whose path
/// holds "minecraftpe", both in any case, and `path` is its path.
pub open spec fn is_listed_options<P>(
    fs: FileSystem<P>,
    q: LocationView<P>,
    j: int,
    path: LocationView<P>,
) -> bool {
    &&& (fs.listing)(q) is Some
    &&& 0 <= j < (fs.listing)(q)->0.len()
    &&& ({
        let entry = (fs.listing)(q)->0[j];
        &&& entry.kind is Some && entry.kind->0.is_file
        &&& lowered(entry.name) == "options.txt"@
        &&& occurs(lowered(entry.path_text), "minecraftpe"@)
        &&& path == LocationView { anchor: Anchor::Found(entry.path), tail: Seq::empty() }
    })
}

/// `path` is a file that can be read.
pub open spec fn is_readable<P>(fs: FileSystem<P>, path: LocationView<P>) -> bool {
    (fs.metadata)(path) is Some && (fs.metadata)(path)->0.is_file
}

/// When `path` was modified; zero where the platform does not say.
pub open spec fn time_of<P>(fs: FileSystem<P>, path: LocationView<P>) -> int {
    match (fs.metadata)(path) {
        Some(m) => match m.modified {
            Some(t) => t as int,
            None => 0,
        },
        None => 0,
    }
}

/// No file on a path that does not hold "minecraftpe" is ever found by a walk, and
/// none of another name than "options.txt": whatever it finds is a readable file
/// that some listing has under such a name and on such a path.
pub proof fn walk_finds_the_games_options_only<P>(
    fs: FileSystem<P>,
    path: LocationView<P>,
    text: Seq<char>,
    depth: nat,
    i: int,
)
    requires
        0 <= i < folder_hits(fs, path, text, depth).len(),
    ensures
        ({
            let hit = folder_hits(fs, path, text, depth)[i];
            &&& exists|q: LocationView<P>, j: int| #[trigger] is_listed_options(fs, q, j, hit.path)
            &&& is_readable(fs, hit.path)
            &&& hit.modified == time_of(fs, hit.path)
        }),
    decreases 11 - depth, 1int, 0nat,
{
    let entries = (fs.listing)(path)->0;
    assert(entries.skip(0) =~= entries);
    entries_are_the_games_options_only(fs, path, text, depth, 0, i);
}

proof fn entries_are_the_games_options_only<P>(
    fs: FileSystem<P>,
    path: LocationView<P>,
    text: Seq<char>,
    depth: nat,
    from: int,
    i: int,
)
    requires
        (fs.listing)(path) is Some,
        0 <= from <= (fs.listing)(path)->0.len(),
        0 <= i < entries_hits(fs, text, depth, (fs.listing)(path)->0.skip(from)).len(),
    ensures
        ({
            let hit = entries_hits(fs, text, depth, (fs.listing)(path)->0.skip(from))[i];
            &&& exists|q: LocationView<P>, j: int| #[trigger] is_listed_options(fs, q, j, hit.path)
            &&& is_readable(fs, hit.path)
            &&& hit.modified == time_of(fs, hit.path)
        }),
    decreases 11 - depth, 0int, (fs.listing)(path)->0.len() - from,
{
    let all = (fs.listing)(path)->0;
    let entries = all.skip(from);
    let entry = entries[0];
    assert(entry == all[from]);
    assert(entries.skip(1) =~= all.skip(from + 1));
    let hits = entries_hits(fs, text, depth, entries);
    let here = if is_entered(text, depth, entry) {
        folder_hits(fs, found(entry.path), entry.path_text, depth + 1)
    } else if is_games_options(entry) {
        candidate_hits(fs, found(entry.path))
    } else {
        Seq::empty()
    };
    if i < here.len() {
        assert(hits[i] == here[i]);
        if is_entered(text, depth, entry) {
            walk_finds_the_games_options_only(
                fs,
                found(entry.path),
                entry.path_text,
                depth + 1,
                i,
            );
        } else {
            assert(is_listed_options(fs, path, from, found(entry.path)));
        }
    } else {
        let k = i - here.len();
        assert(hits[i] == entries_hits(fs, text, depth, all.skip(from + 1))[k]);
        entries_are_the_games_options_only(fs, path, text, depth, from + 1, k);
    }
}

/// A walk finds every readable file named "options.txt" on a path that holds
/// "minecraftpe" in a directory that it lists, and in a directory that it enters
/// from there all that a walk of that one finds. It enters those above the second
/// level and those that "minecraft" or "mojang" stands in the name or the parent's
/// path of, down to the tenth level.
pub proof fn walk_finds_all_of_the_games_options<P>(
    fs: FileSystem<P>,
    path: LocationView<P>,
    text: Seq<char>,
    depth: nat,
    j: int,
)
    requires
        depth <= 10,
        (fs.listing)(path) is Some,
        0 <= j < (fs.listing)(path)->0.len(),
        (fs.listing)(path)->0[j].kind is Some,
    ensures
        ({
            let hits = folder_hits(fs, path, text, depth);
            let entry = (fs.listing)(path)->0[j];
            let kind = entry.kind->0;
            let inner = LocationView { anchor: Anchor::Found(entry.path), tail: Seq::empty() };
            &&& !kind.is_dir && is_listed_options(fs, path, j, inner) && is_readable(fs, inner)
                ==> hits.contains(Hit { path: inner, modified: time_of(fs, inner) })
            &&& kind.is_dir && !kind.is_symlink && depth < 10 && (depth < 2 || occurs(
                lowered(text),
                "minecraft"@,
            ) || occurs(lowered(text), "mojang"@) || occurs(lowered(entry.name), "minecraft"@)
                || occurs(lowered(entry.name), "mojang"@)) ==> forall|k: int|
                0 <= k < folder_hits(fs, inner, entry.path_text, depth + 1).len()
                    ==> hits.contains(
                    #[trigger] folder_hits(fs, inner, entry.path_text, depth + 1)[k],
                )
        }),
{
    let all = (fs.listing)(path)->0;
    let entry = all[j];
    let inner = found(entry.path);
    assert(all.skip(0) =~= all);
    if is_entered(text, depth, entry) {
        let below = folder_hits(fs, inner, entry.path_text, depth + 1);
        assert forall|k: int| 0 <= k < below.len() implies folder_hits(
            fs,
            path,
            text,
            depth,
        ).contains(#[trigger] below[k]) by {
            entry_hits_are_among_all(fs, text, depth, all, j, k);
        }
    }
    if is_games_options(entry) && is_readable(fs, inner) {
        assert(candidate_hits(fs, inner)[0] == Hit { path: inner, modified: time_of(fs, inner) });
        entry_hits_are_among_all(fs, text, depth, all, j, 0);
    }
}

spec fn entry_hits<P>(
    fs: FileSystem<P>,
    text: Seq<char>,
    depth: nat,
    entry: EntryView<P>,
) -> Seq<Hit<P>> {
    if is_entered(text, depth, entry) {
        folder_hits(fs, found(entry.path), entry.path_text, depth + 1)
    } else if is_games_options(entry) {
        candidate_hits(fs, found(entry.path))
    } else {
        Seq::empty()
    }
}

proof fn entry_hits_are_among_all<P>(
    fs: FileSystem<P>,
    text: Seq<char>,
    depth: nat,
    entries: Seq<EntryView<P>>,
    j: int,
    k: int,
)
    requires
        depth <= 10,
        0 <= j < entries.len(),
        0 <= k < entry_hits(fs, text, depth, entries[j]).len(),
    ensures
        entries_hits(fs, text, depth, entries).contains(
            entry_hits(fs, text, depth, entries[j])[k],
        ),
    decreases j,
{
    let hits = entries_hits(fs, text, depth, entries);
    let here = entry_hits(fs, text, depth, entries[0]);
    let rest = entries_hits(fs, text, depth, entries.skip(1));
    assert(hits == here + rest);
    if j == 0 {
        assert(hits[k] == here[k]);
    } else {
        assert(entries.skip(1)[j - 1] == entries[j]);
        entry_hits_are_among_all(fs, text, depth, entries.skip(1), j - 1, k);
        let wanted = entry_hits(fs, text, depth, entries[j])[k];
        let m = choose|m: int| 0 <= m < rest.len() && rest[m] == wanted;
        assert(hits[here.len() + m] == wanted);
    }
}

proof fn users_are_at_the_known_place<P>(fs: FileSystem<P>, entries: Seq<EntryView<P>>, i: int)
    requires
        0 <= i < users_hits(fs, entries).len(),
    ensures
        ({
            let hit = users_hits(fs, entries)[i];
            &&& exists|j: int|
                0 <= j < entries.len() && hit.path == options_of_user((#[trigger] entries[j]).path)
                    && entries[j].kind is Some && entries[j].kind->0.is_dir
            &&& is_readable(fs, hit.path)
            &&& hit.modified == time_of(fs, hit.path)
        }),
    decreases entries.len(),
{
    let rest = entries.skip(1);
    let here = if entries[0].kind is Some && entries[0].kind->0.is_dir {
        candidate_hits(fs, options_of_user(entries[0].path))
    } else {
        Seq::empty()
    };
    let hit = users_hits(fs, entries)[i];
    if i < here.len() {
        assert(hit == here[i]);
        assert(hit.path == options_of_user(entries[0].path));
    } else {
        let k = i - here.len();
        assert(hit == users_hits(fs, rest)[k]);
        users_are_at_the_known_place(fs, rest, k);
        let j = choose|j: int|
            0 <= j < rest.len() && hit.path == options_of_user((#[trigger] rest[j]).path)
                && rest[j].kind is Some && rest[j].kind->0.is_dir;
        assert(entries[j + 1] == rest[j]);
    }
}

/// `path` is one of the places where the game is known to keep its options: as
/// installed, as the beta, or for one of the users whose directories are listed.
pub open spec fn is_known_place<P>(fs: FileSystem<P>, path: LocationView<P>) -> bool {
    ||| path == options_of_package::<P>("Microsoft.MinecraftUWP_8wekyb3d8bbwe"@)
    ||| path == options_of_package::<P>("Microsoft.MinecraftWindowsBeta_8wekyb3d8bbwe"@)
    ||| (fs.listing)(users_directory::<P>()) is Some && exists|j: int|
        0 <= j < (fs.listing)(users_directory::<P>())->0.len() && path == options_of_user(
            (#[trigger] (fs.listing)(users_directory::<P>())->0[j]).path,
        ) && (fs.listing)(users_directory::<P>())->0[j].kind is Some && (fs.listing)(
            users_directory::<P>(),
        )->0[j].kind->0.is_dir
}

proof fn start_hits<P>(fs: FileSystem<P>, local_text: Seq<char>, roaming_text: Seq<char>)
    ensures
        all_hits(fs, initial_search::<P>(local_text, roaming_text).todo) == candidate_hits(
            fs,
            options_of_package::<P>("Microsoft.MinecraftUWP_8wekyb3d8bbwe"@),
        ) + candidate_hits(
            fs,
            options_of_package::<P>("Microsoft.MinecraftWindowsBeta_8wekyb3d8bbwe"@),
        ) + task_hits(fs, TaskView::Users { path: users_directory::<P>() }) + folder_hits(
            fs,
            LocationView { anchor: Anchor::<P>::Roaming, tail: Seq::empty() },
            roaming_text,
            0,
        ) + folder_hits(
            fs,
            LocationView { anchor: Anchor::<P>::Local, tail: Seq::empty() },
            local_text,
            0,
        ),
{
    start_is_at_the_known_places::<P>(local_text, roaming_text);
    let todo = initial_search::<P>(local_text, roaming_text).todo;
    let t1 = todo.skip(1);
    let t2 = t1.skip(1);
    let t3 = t2.skip(1);
    let t4 = t3.skip(1);
    let t5 = t4.skip(1);
    assert(t1[0] == todo[1] && t2[0] == todo[2] && t3[0] == todo[3] && t4[0] == todo[4]);
    assert(all_hits(fs, t5) =~= Seq::empty());
    assert(all_hits(fs, t4) == task_hits(fs, todo[4]) + all_hits(fs, t5));
    assert(all_hits(fs, t3) == task_hits(fs, todo[3]) + all_hits(fs, t4));
    assert(all_hits(fs, t2) == task_hits(fs, todo[2]) + all_hits(fs, t3));
    assert(all_hits(fs, t1) == task_hits(fs, todo[1]) + all_hits(fs, t2));
    assert(all_hits(fs, todo) == task_hits(fs, todo[0]) + all_hits(fs, t1));
    assert(all_hits(fs, todo) =~= task_hits(fs, todo[0]) + task_hits(fs, todo[1]) + task_hits(
        fs,
        todo[2],
    ) + task_hits(fs, todo[3]) + task_hits(fs, todo[4]));
}

/// Wherever a search of the user's data directories asks for nothing more and has
/// found a file, that is a readable file at a known place, or one named
/// "options.txt" on a path that holds "minecraftpe", in any case, which some
/// directory lists. No readable file at a known place, nor one that the walks of
/// the two directories find, was modified later; and where there is one, one is
/// found.
pub proof fn found_file_is_the_games_newest<P>(
    fs: FileSystem<P>,
    local_text: Seq<char>,
    roaming_text: Seq<char>,
    n: nat,
    other: LocationView<P>,
)
    requires
        requested(run(fs, initial_search::<P>(local_text, roaming_text), n)) is Finished,
    ensures
        ({
            let best = run(fs, initial_search::<P>(local_text, roaming_text), n).best;
            let roaming = LocationView { anchor: Anchor::<P>::Roaming, tail: Seq::empty() };
            let local = LocationView { anchor: Anchor::<P>::Local, tail: Seq::empty() };
            &&& best.path matches Some(path) ==> is_readable(fs, path) && (is_known_place(fs, path)
                || exists|q: LocationView<P>, j: int| #[trigger]
                is_listed_options(fs, q, j, path))
            &&& is_readable(fs, other) && (is_known_place(fs, other) || folder_hits(
                fs,
                roaming,
                roaming_text,
                0,
            ).contains(Hit { path: other, modified: time_of(fs, other) }) || folder_hits(
                fs,
                local,
                local_text,
                0,
            ).contains(Hit { path: other, modified: time_of(fs, other) })) ==> best.path is Some
                && time_of(fs, other) <= time_of(fs, best.path->0)
        }),
{
    let start = initial_search::<P>(local_text, roaming_text);
    let hits = all_hits(fs, start.todo);
    let roaming = LocationView { anchor: Anchor::<P>::Roaming, tail: Seq::<Seq<char>>::empty() };
    let local = LocationView { anchor: Anchor::<P>::Local, tail: Seq::<Seq<char>>::empty() };
    let h0 = candidate_hits(fs, options_of_package::<P>("Microsoft.MinecraftUWP_8wekyb3d8bbwe"@));
    let h1 = candidate_hits(
        fs,
        options_of_package::<P>("Microsoft.MinecraftWindowsBeta_8wekyb3d8bbwe"@),
    );
    let h2 = task_hits(fs, TaskView::Users { path: users_directory::<P>() });
    let h3 = folder_hits(fs, roaming, roaming_text, 0);
    let h4 = folder_hits(fs, local, local_text, 0);
    start_hits(fs, local_text, roaming_text);
    assert(hits == h0 + h1 + h2 + h3 + h4);
    find_options_path_finds_newest(fs, local_text, roaming_text);
    let best = run(fs, start, n).best;
    assert forall|i: int| 0 <= i < hits.len() implies is_readable(fs, (#[trigger] hits[i]).path)
        && hits[i].modified == time_of(fs, hits[i].path) && (is_known_place(fs, hits[i].path)
        || exists|q: LocationView<P>, j: int| #[trigger]
        is_listed_options(fs, q, j, hits[i].path)) by {
        let n0 = h0.len() as int;
        let n1 = n0 + h1.len();
        let n2 = n1 + h2.len();
        let n3 = n2 + h3.len();
        if i < n0 {
            assert(hits[i] == h0[i]);
        } else if i < n1 {
            assert(hits[i] == h1[i - n0]);
        } else if i < n2 {
            assert(hits[i] == h2[i - n1]);
            users_are_at_the_known_place(fs, (fs.listing)(users_directory::<P>())->0, i - n1);
        } else if i < n3 {
            assert(hits[i] == h3[i - n2]);
            walk_finds_the_games_options_only(fs, roaming, roaming_text, 0, i - n2);
        } else {
            assert(hits[i] == h4[i - n3]);
            walk_finds_the_games_options_only(fs, local, local_text, 0, i - n3);
        }
    }
    if is_readable(fs, other) {
        let wanted = Hit { path: other, modified: time_of(fs, other) };
        if is_known_place(fs, other) {
            if other == options_of_package::<P>("Microsoft.MinecraftUWP_8wekyb3d8bbwe"@) {
                assert(hits[0] == h0[0] && h0[0] == wanted);
            } else if other == options_of_package::<P>(
                "Microsoft.MinecraftWindowsBeta_8wekyb3d8bbwe"@,
            ) {
                assert(hits[h0.len() as int] == h1[0] && h1[0] == wanted);
            } else {
                let entries = (fs.listing)(users_directory::<P>())->0;
                let j = choose|j: int|
                    0 <= j < entries.len() && other == options_of_user(
                        (#[trigger] entries[j]).path,
                    ) && entries[j].kind is Some && entries[j].kind->0.is_dir;
                let k = user_hit_is_among_all(fs, entries, j);
                assert(hits[h0.len() + h1.len() + k] == h2[k]);
            }
            assert(hits.contains(wanted));
        } else if h3.contains(wanted) {
            let k = choose|k: int| 0 <= k < h3.len() && h3[k] == wanted;
            assert(hits[h0.len() + h1.len() + h2.len() + k] == wanted);
        } else if h4.contains(wanted) {
            let k = choose|k: int| 0 <= k < h4.len() && h4[k] == wanted;
            assert(hits[h0.len() + h1.len() + h2.len() + h3.len() + k] == wanted);
        }
        if hits.contains(wanted) {
            let m = choose|m: int| 0 <= m < hits.len() && hits[m] == wanted;
            let i = choose|i: int| #[trigger]
                is_first_newest(hits, i) && hits[i].path == best.path->0;
            assert(hits[m].modified <= hits[i].modified);
        }
    }
}

proof fn user_hit_is_among_all<P>(fs: FileSystem<P>, entries: Seq<EntryView<P>>, j: int) -> (k: int)
    requires
        0 <= j < entries.len(),
        entries[j].kind is Some && entries[j].kind->0.is_dir,
        is_readable(fs, options_of_user(entries[j].path)),
    ensures
        0 <= k < users_hits(fs, entries).len(),
        users_hits(fs, entries)[k] == (Hit {
            path: options_of_user(entries[j].path),
            modified: time_of(fs, options_of_user(entries[j].path)),
        }),
    decreases j,
{
    let rest = entries.skip(1);
    let here = if entries[0].kind is Some && entries[0].kind->0.is_dir {
        candidate_hits(fs, options_of_user(entries[0].path))
    } else {
        Seq::empty()
    };
    assert(users_hits(fs, entries) == here + users_hits(fs, rest));
    if j == 0 {
        0
    } else {
        assert(rest[j - 1] == entries[j]);
        let k = user_hit_is_among_all(fs, rest, j - 1);
        assert(users_hits(fs, entries)[here.len() + k] == users_hits(fs, rest)[k]);
        here.len() + k
    }
}

} // verus!
