//! The search for the game's `options.txt`.
//!
//! The search is a machine: it says which path to examine next, and goes on
//! from what the caller found there. It looks at the places where the game is
//! known to keep the file, then walks the user's data directories depth first,
//! and ends with the candidate that was modified last.
use crate::files::{anchored, entry_views, joined, EntryView, LocationView};
use crate::files::{anchored_at, build_path, Anchor, DirEntry, FileMeta, Location};
use crate::search_laws::search_stays_within_depth;
use crate::text::{
    characters, contains, contains_case_insensitive, eq_ignore_ascii_case, lowered_characters,
};
use crate::text::{lowered, occurs};
use vstd::prelude::*;

verus! {

/// Directories below this depth are not listed.
pub const MAX_DEPTH: u8 = 10;

/// Above this depth every directory is entered, whatever its name.
pub const OPEN_DEPTH: u8 = 2;

/// One thing that the search has yet to do.
pub enum Task<P> {
    /// Examine a file that may be the options file.
    Candidate { path: Location<P> },
    /// List the directory that holds one directory per user.
    Users { path: Location<P> },
    /// List a directory of the walk.
    Folder { path: Location<P>, text: String, depth: u8 },
}

/// The model of a `Task`.
pub enum TaskView<P> {
    Candidate { path: LocationView<P> },
    Users { path: LocationView<P> },
    Folder { path: LocationView<P>, text: Seq<char>, depth: u8 },
}

impl<P> View for Task<P> {
    type V = TaskView<P>;

    open spec fn view(&self) -> TaskView<P> {
        match *self {
            Task::Candidate { path } => TaskView::Candidate { path: path@ },
            Task::Users { path } => TaskView::Users { path: path@ },
            Task::Folder { path, text, depth } => TaskView::Folder {
                path: path@,
                text: text@,
                depth,
            },
        }
    }
}

/// The best candidate so far, and when it was modified.
pub struct BestView<P> {
    pub newest: int,
    pub path: Option<LocationView<P>>,
}

/// The model of a `Search`: what is left to do, in order, and the best so far.
#[verifier::ext_equal]
pub struct SearchView<P> {
    pub todo: Seq<TaskView<P>>,
    pub best: BestView<P>,
}

/// What the search asks of its caller.
pub enum Request<'a, P> {
    /// The metadata of a path.
    Metadata(&'a Location<P>),
    /// The entries of a directory.
    Listing(&'a Location<P>),
    /// Nothing: the search has ended.
    Finished,
}

/// The model of a `Request`.
pub enum RequestView<P> {
    Metadata(LocationView<P>),
    Listing(LocationView<P>),
    Finished,
}

impl<'a, P> View for Request<'a, P> {
    type V = RequestView<P>;

    open spec fn view(&self) -> RequestView<P> {
        match *self {
            Request::Metadata(path) => RequestView::Metadata(path@),
            Request::Listing(path) => RequestView::Listing(path@),
            Request::Finished => RequestView::Finished,
        }
    }
}

/// What the caller found; nothing where it could not be read.
pub enum Reply<P> {
    Metadata(Option<FileMeta>),
    Listing(Option<Vec<DirEntry<P>>>),
}

/// The model of a `Reply`.
pub enum ReplyView<P> {
    Metadata(Option<FileMeta>),
    Listing(Option<Seq<EntryView<P>>>),
}

impl<P> View for Reply<P> {
    type V = ReplyView<P>;

    open spec fn view(&self) -> ReplyView<P> {
        match *self {
            Reply::Metadata(meta) => ReplyView::Metadata(meta),
            Reply::Listing(Some(entries)) => ReplyView::Listing(Some(entry_views(entries@))),
            Reply::Listing(None) => ReplyView::Listing(None),
        }
    }
}

// ---------------------------------------------------------------------------
// Specifications
// ---------------------------------------------------------------------------

/// The best once the candidate `path` has been examined: a file that can be
/// read takes the place of an older one, and of none.
pub open spec fn considered<P>(
    best: BestView<P>,
    path: LocationView<P>,
    meta: Option<FileMeta>,
) -> BestView<P> {
    match meta {
        Some(m) => if m.is_file && (best.path is None || m.modified_at() > best.newest) {
            BestView { newest: m.modified_at(), path: Some(path) }
        } else {
            best
        },
        None => best,
    }
}

/// `s` names the game or its maker.
pub open spec fn mentions_game(s: Seq<char>) -> bool {
    occurs(lowered(s), "minecraft"@) || occurs(lowered(s), "mojang"@)
}

/// A file of this name on this path may be the options file.
pub open spec fn is_options_file(name: Seq<char>, path_text: Seq<char>) -> bool {
    &&& lowered(name) == lowered("options.txt"@)
    &&& occurs(lowered(path_text), lowered("minecraftpe"@))
}

/// What an entry of a directory at `depth`, of path `text`, leaves to do.
pub open spec fn entry_task<P>(text: Seq<char>, depth: u8, entry: EntryView<P>) -> Option<
    TaskView<P>,
> {
    match entry.kind {
        None => None,
        Some(kind) => if kind.is_dir {
            if !kind.is_symlink && depth < MAX_DEPTH && (depth < OPEN_DEPTH || mentions_game(text)
                || mentions_game(entry.name)) {
                Some(
                    TaskView::Folder {
                        path: anchored(Anchor::Found(entry.path)),
                        text: entry.path_text,
                        depth: (depth + 1) as u8,
                    },
                )
            } else {
                None
            }
        } else if kind.is_file && is_options_file(entry.name, entry.path_text) {
            Some(TaskView::Candidate { path: anchored(Anchor::Found(entry.path)) })
        } else {
            None
        },
    }
}

/// `task`, if there is one, before `rest`.
pub open spec fn prepended<P>(task: Option<TaskView<P>>, rest: Seq<TaskView<P>>) -> Seq<
    TaskView<P>,
> {
    match task {
        Some(t) => seq![t] + rest,
        None => rest,
    }
}

/// What the entries of a directory at `depth`, of path `text`, leave to do:
/// nothing where the directory is too deep.
pub open spec fn folder_tasks<P>(
    text: Seq<char>,
    depth: u8,
    entries: Seq<EntryView<P>>,
) -> Seq<TaskView<P>>
    decreases entries.len(),
{
    if depth > MAX_DEPTH || entries.len() == 0 {
        Seq::empty()
    } else {
        prepended(
            entry_task(text, depth, entries[0]),
            folder_tasks(text, depth, entries.skip(1)),
        )
    }
}

/// Where the game keeps the options below a directory of its own.
pub open spec fn options_below<P>(path: LocationView<P>) -> LocationView<P> {
    joined(
        joined(joined(joined(path, "games"@), "com.mojang"@), "minecraftpe"@),
        "options.txt"@,
    )
}

/// What an entry of the directory of users leaves to do.
pub open spec fn user_task<P>(entry: EntryView<P>) -> Option<TaskView<P>> {
    match entry.kind {
        Some(kind) => if kind.is_dir {
            Some(
                TaskView::Candidate { path: options_below(anchored(Anchor::Found(entry.path))) },
            )
        } else {
            None
        },
        None => None,
    }
}

/// What the entries of the directory of users leave to do.
pub open spec fn users_tasks<P>(entries: Seq<EntryView<P>>) -> Seq<TaskView<P>>
    decreases entries.len(),
{
    if entries.len() == 0 {
        Seq::empty()
    } else {
        prepended(user_task(entries[0]), users_tasks(entries.skip(1)))
    }
}

/// The options of the game as installed under the package name `package`.
pub open spec fn package_options<P>(package: Seq<char>) -> LocationView<P> {
    options_below(
        joined(joined(joined(anchored(Anchor::Local), "Packages"@), package), "LocalState"@),
    )
}

/// The search before its first step.
pub open spec fn initial_search<P>(local_text: Seq<char>, roaming_text: Seq<char>) -> SearchView<P> {
    SearchView {
        todo: seq![
            TaskView::Candidate {
                path: package_options("Microsoft.MinecraftUWP_8wekyb3d8bbwe"@),
            },
            TaskView::Candidate {
                path: package_options("Microsoft.MinecraftWindowsBeta_8wekyb3d8bbwe"@),
            },
            TaskView::Users {
                path: joined(joined(anchored(Anchor::Roaming), "Minecraft Bedrock"@), "Users"@),
            },
            TaskView::Folder { path: anchored(Anchor::Roaming), text: roaming_text, depth: 0 },
            TaskView::Folder { path: anchored(Anchor::Local), text: local_text, depth: 0 },
        ],
        best: BestView { newest: 0, path: None },
    }
}

/// What the search asks when it stands at `s`.
pub open spec fn requested<P>(s: SearchView<P>) -> RequestView<P> {
    if s.todo.len() == 0 {
        RequestView::Finished
    } else {
        match s.todo[0] {
            TaskView::Candidate { path } => RequestView::Metadata(path),
            TaskView::Users { path } => RequestView::Listing(path),
            TaskView::Folder { path, .. } => RequestView::Listing(path),
        }
    }
}

/// The search after `reply`. A reply to something not asked changes nothing.
pub open spec fn stepped<P>(s: SearchView<P>, reply: ReplyView<P>) -> SearchView<P> {
    if s.todo.len() == 0 {
        s
    } else {
        let rest = s.todo.skip(1);
        match (s.todo[0], reply) {
            (TaskView::Candidate { path }, ReplyView::Metadata(meta)) => SearchView {
                todo: rest,
                best: considered(s.best, path, meta),
            },
            (TaskView::Users { .. }, ReplyView::Listing(Some(entries))) => SearchView {
                todo: users_tasks(entries) + rest,
                best: s.best,
            },
            (TaskView::Folder { text, depth, .. }, ReplyView::Listing(Some(entries))) => SearchView {
                todo: folder_tasks(text, depth, entries) + rest,
                best: s.best,
            },
            (TaskView::Users { .. }, ReplyView::Listing(None)) => SearchView {
                todo: rest,
                best: s.best,
            },
            (TaskView::Folder { .. }, ReplyView::Listing(None)) => SearchView {
                todo: rest,
                best: s.best,
            },
            _ => s,
        }
    }
}

/// No directory deeper than `MAX_DEPTH` waits to be listed.
pub open spec fn within_depth<P>(s: SearchView<P>) -> bool {
    forall|i: int|
        0 <= i < s.todo.len() ==> (#[trigger] s.todo[i] matches TaskView::Folder { depth, .. }
            ==> depth <= MAX_DEPTH)
}

// ---------------------------------------------------------------------------
// The machine
// ---------------------------------------------------------------------------

/// The tasks of a stack, the topmost first.
pub open spec fn stack_view<P>(stack: Seq<Task<P>>) -> Seq<TaskView<P>> {
    Seq::new(stack.len(), |i: int| stack[stack.len() - 1 - i]@)
}

proof fn stack_push<P>(stack: Seq<Task<P>>, task: Task<P>)
    ensures
        stack_view(stack.push(task)) == seq![task@] + stack_view(stack),
{
    assert(stack_view(stack.push(task)) =~= seq![task@] + stack_view(stack));
}

/// A candidate for the options file is examined: `meta` is what its metadata
/// gave.
pub fn try_options_candidate<P>(
    path: Location<P>,
    meta: Option<FileMeta>,
    newest: &mut i128,
    best: &mut Option<Location<P>>,
)
    ensures
        best_view(*final(newest), *final(best)) == considered(
            best_view(*old(newest), *old(best)),
            path@,
            meta,
        ),
{
    match meta {
        Some(m) => {
            let modified: i128 = match m.modified {
                Some(t) => t,
                None => 0,
            };
            if m.is_file && (best.is_none() || modified > *newest) {
                *newest = modified;
                *best = Some(path);
            }
        },
        None => {},
    }
}

/// The model of the best candidate and of when it was modified.
pub open spec fn best_view<P>(newest: i128, best: Option<Location<P>>) -> BestView<P> {
    BestView {
        newest: newest as int,
        path: match best {
            Some(path) => Some(path@),
            None => None,
        },
    }
}

fn names_game(s: &str) -> (r: bool)
    ensures
        r == mentions_game(s@),
{
    let low = lowered_characters(s);
    let game = characters("minecraft");
    let maker = characters("mojang");
    contains(low.as_slice(), game.as_slice()) || contains(low.as_slice(), maker.as_slice())
}

/// One directory of the walk has been listed: `text` is its path and `depth`
/// its depth. What its entries leave to do goes on top of `pending`; below
/// `MAX_DEPTH` that is nothing.
pub fn scan_options_recursive<P>(
    text: &str,
    depth: u8,
    entries: Vec<DirEntry<P>>,
    pending: &mut Vec<Task<P>>,
)
    ensures
        stack_view(final(pending)@) == folder_tasks(text@, depth, entry_views(entries@))
            + stack_view(old(pending)@),
        depth > MAX_DEPTH ==> final(pending)@ == old(pending)@,
{
    let mut entries = entries;
    let ghost all = entry_views(entries@);
    let ghost below = stack_view(pending@);
    if depth > MAX_DEPTH {
        assert(below =~= Seq::<TaskView<P>>::empty() + below);
        return;
    }
    let in_game = names_game(text);
    assert(all.skip(entries.len() as int) =~= Seq::empty());
    assert(stack_view(pending@) =~= Seq::<TaskView<P>>::empty() + below);
    while entries.len() > 0
        invariant
            entries.len() <= all.len(),
            depth <= MAX_DEPTH,
            in_game == mentions_game(text@),
            forall|i: int| 0 <= i < entries.len() ==> (#[trigger] entries@[i])@ == all[i],
            stack_view(pending@) == folder_tasks(text@, depth, all.skip(entries.len() as int))
                + below,
        decreases entries.len(),
    {
        let ghost n = entries.len() as int;
        let ghost before = pending@;
        let ghost later = folder_tasks(text@, depth, all.skip(n));
        if let Some(entry) = entries.pop() {
            let ghost task = entry_task(text@, depth, entry@);
            assert(entry@ == all[n - 1]);
            assert(all.skip(n - 1).skip(1) =~= all.skip(n));
            assert(folder_tasks(text@, depth, all.skip(n - 1)) == prepended(task, later));
            match entry.kind {
                None => {},
                Some(kind) => {
                    if kind.is_dir {
                        if !kind.is_symlink && depth < MAX_DEPTH && (depth < OPEN_DEPTH || in_game
                            || names_game(entry.name.as_str())) {
                            pending.push(
                                Task::Folder {
                                    path: anchored_at(Anchor::Found(entry.path)),
                                    text: entry.path_text,
                                    depth: depth + 1,
                                },
                            );
                        }
                    } else if kind.is_file && eq_ignore_ascii_case(
                        entry.name.as_str(),
                        "options.txt",
                    ) && contains_case_insensitive(entry.path_text.as_str(), "minecraftpe") {
                        pending.push(
                            Task::Candidate { path: anchored_at(Anchor::Found(entry.path)) },
                        );
                    }
                },
            }
            proof {
                reveal_strlit("minecraftpe");
                if task is Some {
                    stack_push(before, pending@.last());
                    assert(pending@ =~= before.push(pending@.last()));
                    assert(stack_view(pending@) =~= prepended(task, later) + below);
                }
            }
        }
    }
    assert(all.skip(0) =~= all);
}

/// The directory of users has been listed: each directory in it is one user's,
/// and leaves a candidate on top of `pending`.
pub fn scan_known_bedrock_users<P>(entries: Vec<DirEntry<P>>, pending: &mut Vec<Task<P>>)
    ensures
        stack_view(final(pending)@) == users_tasks(entry_views(entries@)) + stack_view(
            old(pending)@,
        ),
{
    let mut entries = entries;
    let ghost all = entry_views(entries@);
    let ghost below = stack_view(pending@);
    assert(all.skip(entries.len() as int) =~= Seq::empty());
    assert(stack_view(pending@) =~= Seq::<TaskView<P>>::empty() + below);
    while entries.len() > 0
        invariant
            entries.len() <= all.len(),
            forall|i: int| 0 <= i < entries.len() ==> (#[trigger] entries@[i])@ == all[i],
            stack_view(pending@) == users_tasks(all.skip(entries.len() as int)) + below,
        decreases entries.len(),
    {
        let ghost n = entries.len() as int;
        let ghost before = pending@;
        let ghost later = users_tasks(all.skip(n));
        if let Some(entry) = entries.pop() {
            let ghost task = user_task(entry@);
            assert(entry@ == all[n - 1]);
            assert(all.skip(n - 1).skip(1) =~= all.skip(n));
            assert(users_tasks(all.skip(n - 1)) == prepended(task, later));
            match entry.kind {
                None => {},
                Some(kind) => {
                    if kind.is_dir {
                        pending.push(
                            Task::Candidate {
                                path: options_path(anchored_at(Anchor::Found(entry.path))),
                            },
                        );
                    }
                },
            }
            proof {
                if task is Some {
                    stack_push(before, pending@.last());
                    assert(pending@ =~= before.push(pending@.last()));
                    assert(stack_view(pending@) =~= prepended(task, later) + below);
                }
            }
        }
    }
    assert(all.skip(0) =~= all);
}

fn options_path<P>(path: Location<P>) -> (r: Location<P>)
    ensures
        r@ == options_below(path@),
{
    let games = build_path(path, "games");
    let maker = build_path(games, "com.mojang");
    let game = build_path(maker, "minecraftpe");
    build_path(game, "options.txt")
}

fn package_path<P>(package: &str) -> (r: Location<P>)
    ensures
        r@ == package_options::<P>(package@),
{
    let packages = build_path(anchored_at(Anchor::Local), "Packages");
    let installed = build_path(packages, package);
    options_path(build_path(installed, "LocalState"))
}

/// A search for the options file.
pub struct Search<P> {
    pending: Vec<Task<P>>,
    newest: i128,
    best: Option<Location<P>>,
}

impl<P> View for Search<P> {
    type V = SearchView<P>;

    closed spec fn view(&self) -> SearchView<P> {
        SearchView {
            todo: stack_view(self.pending@),
            best: best_view(self.newest, self.best),
        }
    }
}

/// A search that has yet to begin. The two texts are the paths of the user's
/// data directories.
pub fn find_options_path<P>(local_text: &str, roaming_text: &str) -> (r: Search<P>)
    ensures
        r@ == initial_search::<P>(local_text@, roaming_text@),
        within_depth(r@),
{
    let mut pending: Vec<Task<P>> = Vec::new();
    pending.push(
        Task::Folder {
            path: anchored_at(Anchor::Local),
            text: local_text.to_owned(),
            depth: 0,
        },
    );
    pending.push(
        Task::Folder {
            path: anchored_at(Anchor::Roaming),
            text: roaming_text.to_owned(),
            depth: 0,
        },
    );
    let bedrock = build_path(anchored_at(Anchor::Roaming), "Minecraft Bedrock");
    pending.push(Task::Users { path: build_path(bedrock, "Users") });
    pending.push(
        Task::Candidate { path: package_path("Microsoft.MinecraftWindowsBeta_8wekyb3d8bbwe") },
    );
    pending.push(Task::Candidate { path: package_path("Microsoft.MinecraftUWP_8wekyb3d8bbwe") });
    let r = Search { pending, newest: 0, best: None };
    assert(r@.todo =~= initial_search::<P>(local_text@, roaming_text@).todo);
    r
}

impl<P> Search<P> {
    /// What the search needs to know next.
    pub fn request(&self) -> (r: Request<'_, P>)
        ensures
            r@ == requested(self@),
    {
        let n = self.pending.len();
        if n == 0 {
            return Request::Finished;
        }
        assert(self@.todo[0] == self.pending@[n - 1]@);
        match &self.pending[n - 1] {
            Task::Candidate { path } => Request::Metadata(path),
            Task::Users { path } => Request::Listing(path),
            Task::Folder { path, .. } => Request::Listing(path),
        }
    }

    /// Goes on from what the caller found.
    pub fn supply(&mut self, reply: Reply<P>)
        ensures
            final(self)@ == stepped(old(self)@, reply@),
            within_depth(old(self)@) ==> within_depth(final(self)@),
    {
        proof {
            if within_depth(self@) {
                search_stays_within_depth(self@, reply@);
            }
        }
        match self.pending.pop() {
            None => {},
            Some(task) => match (task, reply) {
                (Task::Candidate { path }, Reply::Metadata(meta)) => {
                    try_options_candidate(path, meta, &mut self.newest, &mut self.best);
                },
                (Task::Users { .. }, Reply::Listing(Some(entries))) => {
                    scan_known_bedrock_users(entries, &mut self.pending);
                },
                (Task::Folder { text, depth, .. }, Reply::Listing(Some(entries))) => {
                    scan_options_recursive(text.as_str(), depth, entries, &mut self.pending);
                },
                (Task::Users { .. }, Reply::Listing(None)) => {},
                (Task::Folder { .. }, Reply::Listing(None)) => {},
                (task, _) => {
                    self.pending.push(task);
                },
            },
        }
    }

    /// The best candidate so far.
    pub fn best(self) -> (r: Option<Location<P>>)
        ensures
            match r {
                Some(path) => self@.best.path == Some(path@),
                None => self@.best.path is None,
            },
    {
        self.best
    }
}

} // verus!
