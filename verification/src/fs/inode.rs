use vstd::prelude::*;

use crate::error::Errno;
use crate::fs::flags::{
    lemma_creat_excl_bits, lemma_named_flags_are_known, read_write_of, valid_access_mode, OpenFlags, O_CLOEXEC, O_CREAT,
    O_DIRECTORY, O_EXCL, O_TRUNC,
};
use crate::fs::path::{has_prefix, lemma_split_nonempty, same_chars, split_chars, split_path, starts_with};

verus! {

/// What the file system answered to the last request of a [`PathWalk`].
#[derive(Copy, Clone, Debug, PartialEq, Eq, Structural)]
pub enum WalkEvent {
    /// The name was found in the current directory; the walk moves to it.
    /// `is_dir` tells whether the entry found is a directory.
    Found { is_dir: bool },
    /// The current directory has no entry of that name.
    Missing,
    /// The current entry is not a directory, so it cannot be searched.
    NotADirectory,
    /// The requested file was created; the walk now stands on it.
    Created,
    /// The current file was truncated to length 0.
    Cleared,
}

/// The request a [`PathWalk`] makes of the file system next.
#[derive(Debug)]
pub enum WalkAction {
    /// Look the name up in the current directory.
    Find(String),
    /// Create a regular file of this name in the current directory.
    Create(String),
    /// Truncate the current file to length 0.
    Clear,
    /// The walk is over: `Ok` opens the current entry, `Err` fails `open`.
    Done(Result<(), Errno>),
}

/// A [`WalkAction`] with names as character sequences.
pub enum Request {
    Find(Seq<char>),
    Create(Seq<char>),
    Clear,
    Done(Result<(), Errno>),
}

impl View for WalkAction {
    type V = Request;

    open spec fn view(&self) -> Request {
        match self {
            WalkAction::Find(name) => Request::Find(name@),
            WalkAction::Create(name) => Request::Create(name@),
            WalkAction::Clear => Request::Clear,
            WalkAction::Done(r) => Request::Done(*r),
        }
    }
}

/// The abstract state of a walk: the path, its `/`-separated components,
/// the open flags, the permission they grant, how many components were
/// found so far, and the pending request.
pub struct WalkState {
    pub path: Seq<char>,
    pub components: Seq<Seq<char>>,
    pub flags: u32,
    pub readable: bool,
    pub writable: bool,
    pub pos: nat,
    pub request: Request,
}

/// What `open` does once every component of the path was found, the last
/// one being a directory when `is_dir` holds: `O_CREAT` with `O_EXCL` fails
/// with `EEXIST`; `O_DIRECTORY` on an entry that is not a directory fails
/// with `ENOTDIR`; `O_TRUNC` truncates a regular file opened for writing;
/// otherwise the entry is opened.
pub open spec fn on_all_found(flags: u32, writable: bool, is_dir: bool) -> Request {
    if flags & (O_CREAT | O_EXCL) == (O_CREAT | O_EXCL) {
        Request::Done(Err(Errno::EEXIST))
    } else if flags & O_DIRECTORY == O_DIRECTORY && !is_dir {
        Request::Done(Err(Errno::ENOTDIR))
    } else if flags & O_TRUNC == O_TRUNC && writable && !is_dir {
        Request::Clear
    } else {
        Request::Done(Ok(()))
    }
}

/// What `open` does when the last component of the path is missing: only
/// `O_CREAT` creates it, and not together with `O_EXCL`, under which the
/// file must have existed (`ENOENT`), nor with `O_DIRECTORY`, since the new
/// file would be a regular file (`ENOTDIR`, nothing created).
pub open spec fn on_last_missing(flags: u32, name: Seq<char>) -> Request {
    if flags & O_CREAT != O_CREAT {
        Request::Done(Err(Errno::ENOENT))
    } else if flags & O_EXCL == O_EXCL {
        Request::Done(Err(Errno::ENOENT))
    } else if flags & O_DIRECTORY == O_DIRECTORY {
        Request::Done(Err(Errno::ENOTDIR))
    } else {
        Request::Create(name)
    }
}

/// The walk that `open` starts for `path` with `flags`: it looks up the
/// first component from the root directory.
pub open spec fn start_state(path: Seq<char>, flags: u32) -> WalkState {
    let components = split_chars(path, '/');
    WalkState {
        path,
        components,
        flags,
        readable: read_write_of(flags).0,
        writable: read_write_of(flags).1,
        pos: 0,
        request: Request::Find(components[0]),
    }
}

/// The answers that the pending request of `s` can get.
pub open spec fn accepts(s: WalkState, ev: WalkEvent) -> bool {
    match s.request {
        Request::Find(_) => ev is Found || ev == WalkEvent::Missing || ev
            == WalkEvent::NotADirectory,
        Request::Create(_) => ev == WalkEvent::Created,
        Request::Clear => ev == WalkEvent::Cleared,
        Request::Done(_) => false,
    }
}

/// The state of the walk after the file system answered `ev`.
pub open spec fn next_state(s: WalkState, ev: WalkEvent) -> WalkState {
    let n = s.components.len();
    match ev {
        WalkEvent::Found { is_dir } => if s.pos + 1 < n {
            WalkState { pos: s.pos + 1, request: Request::Find(s.components[s.pos + 1 as int]), ..s }
        } else {
            WalkState { pos: n, request: on_all_found(s.flags, s.writable, is_dir), ..s }
        },
        WalkEvent::Missing => if s.pos + 1 == n {
            WalkState { request: on_last_missing(s.flags, s.components[s.pos as int]), ..s }
        } else {
            WalkState { request: Request::Done(Err(Errno::ENOENT)), ..s }
        },
        WalkEvent::NotADirectory => WalkState { request: Request::Done(Err(Errno::ENOTDIR)), ..s },
        WalkEvent::Created => WalkState { request: Request::Done(Ok(())), ..s },
        WalkEvent::Cleared => WalkState { request: Request::Done(Ok(())), ..s },
    }
}

/// The states a walk passes through.
pub open spec fn walk_wf(s: WalkState) -> bool {
    &&& s.components == split_chars(s.path, '/')
    &&& s.components.len() >= 1
    &&& valid_access_mode(s.flags)
    &&& s.readable == read_write_of(s.flags).0
    &&& s.writable == read_write_of(s.flags).1
    &&& s.pos <= s.components.len()
    &&& (s.request matches Request::Find(name) ==> s.pos < s.components.len() && name
        == s.components[s.pos as int])
    &&& (s.request matches Request::Create(name) ==> s.pos + 1 == s.components.len() && name
        == s.components[s.pos as int] && s.flags & O_CREAT == O_CREAT && s.flags & O_EXCL != O_EXCL
        && s.flags & O_DIRECTORY != O_DIRECTORY)
    &&& (s.request is Clear ==> s.pos == s.components.len() && s.flags & O_TRUNC == O_TRUNC
        && s.writable)
}

/// The state after the answers `evs`, in order.
pub open spec fn run(s: WalkState, evs: Seq<WalkEvent>) -> WalkState
    decreases evs.len(),
{
    if evs.len() == 0 {
        s
    } else {
        run(next_state(s, evs[0]), evs.drop_first())
    }
}

/// Whether each answer of `evs` answers the request pending when it comes.
pub open spec fn accepted_run(s: WalkState, evs: Seq<WalkEvent>) -> bool
    decreases evs.len(),
{
    evs.len() == 0 || (accepts(s, evs[0]) && accepted_run(next_state(s, evs[0]), evs.drop_first()))
}

/// `k` answers in a row that found a directory.
pub open spec fn founds(k: nat) -> Seq<WalkEvent> {
    Seq::new(k, |i: int| WalkEvent::Found { is_dir: true })
}

/// An accepted answer leads from a reachable state to a reachable one.
proof fn lemma_next_wf(s: WalkState, ev: WalkEvent)
    requires
        walk_wf(s),
        accepts(s, ev),
    ensures
        walk_wf(next_state(s, ev)),
{
}

/// Answering `a` and then `b` is answering `a + b`.
proof fn lemma_run_append(s: WalkState, a: Seq<WalkEvent>, b: Seq<WalkEvent>)
    ensures
        run(s, a + b) == run(run(s, a), b),
        accepted_run(s, a + b) == (accepted_run(s, a) && accepted_run(run(s, a), b)),
    decreases a.len(),
{
    if a.len() == 0 {
        assert(a + b =~= b);
    } else {
        assert((a + b).drop_first() =~= a.drop_first() + b);
        assert((a + b)[0] == a[0]);
        lemma_run_append(next_state(s, a[0]), a.drop_first(), b);
    }
}

/// A single answer.
proof fn lemma_run_single(s: WalkState, ev: WalkEvent)
    ensures
        run(s, seq![ev]) == next_state(s, ev),
        accepted_run(s, seq![ev]) == accepts(s, ev),
{
    let one = seq![ev];
    assert(one.drop_first() =~= Seq::<WalkEvent>::empty());
    assert(run(next_state(s, ev), Seq::<WalkEvent>::empty()) == next_state(s, ev));
    assert(accepted_run(next_state(s, ev), Seq::<WalkEvent>::empty()));
}

/// From a pending lookup at component `s.pos`, `k` directories found in a
/// row, none of them the last component, lead to a lookup of component
/// `s.pos + k`.
proof fn lemma_founds_from(s: WalkState, k: nat)
    requires
        walk_wf(s),
        s.request is Find,
        s.pos + k < s.components.len(),
    ensures
        accepted_run(s, founds(k)),
        walk_wf(run(s, founds(k))),
        run(s, founds(k)) == (WalkState {
            pos: s.pos + k,
            request: Request::Find(s.components[s.pos + k as int]),
            ..s
        }),
    decreases k,
{
    let found = WalkEvent::Found { is_dir: true };
    if k > 0 {
        let t = next_state(s, found);
        lemma_next_wf(s, found);
        assert(founds(k).drop_first() =~= founds((k - 1) as nat));
        assert(founds(k)[0] == found);
        lemma_founds_from(t, (k - 1) as nat);
    } else {
        assert(founds(0) =~= Seq::<WalkEvent>::empty());
    }
}

/// The answers of a walk in which every component exists: the directories
/// leading to the last component, then the last one, a directory or not.
pub open spec fn all_found(n: nat, last_is_dir: bool) -> Seq<WalkEvent> {
    founds((n - 1) as nat).push(WalkEvent::Found { is_dir: last_is_dir })
}

/// Resolving a path all of whose components exist looks them up in order
/// and ends as `open` ends on an existing entry: with `EEXIST` when both
/// `O_CREAT` and `O_EXCL` are given, else with `ENOTDIR` when `O_DIRECTORY`
/// is given and the entry is not a directory, else by truncating it when
/// it is a regular file, `O_TRUNC` is given and the mode is writable, else
/// by opening it. A directory is never truncated.
pub proof fn law_existing_path(path: Seq<char>, flags: u32, last_is_dir: bool)
    requires
        valid_access_mode(flags),
    ensures
        ({
            let s = start_state(path, flags);
            let n = s.components.len();
            let evs = all_found(n, last_is_dir);
            &&& forall|j: nat| j < n ==> (#[trigger] run(s, founds(j))).request == Request::Find(
                s.components[j as int],
            )
            &&& accepted_run(s, evs)
            &&& run(s, evs).request == on_all_found(flags, read_write_of(flags).1, last_is_dir)
            &&& flags & (O_CREAT | O_EXCL) == (O_CREAT | O_EXCL) ==> run(s, evs).request
                == Request::Done(Err::<(), Errno>(Errno::EEXIST))
            &&& flags & (O_CREAT | O_EXCL) != (O_CREAT | O_EXCL) && flags & O_DIRECTORY
                == O_DIRECTORY && !last_is_dir ==> run(s, evs).request == Request::Done(
                Err::<(), Errno>(Errno::ENOTDIR),
            )
            &&& last_is_dir ==> run(s, evs).request != Request::Clear
        }),
{
    let s = start_state(path, flags);
    lemma_split_nonempty(path, '/');
    let n = s.components.len();
    assert forall|j: nat| j < n implies (#[trigger] run(s, founds(j))).request == Request::Find(
        s.components[j as int],
    ) by {
        lemma_founds_from(s, j);
    }
    let k = (n - 1) as nat;
    lemma_founds_from(s, k);
    let last = WalkEvent::Found { is_dir: last_is_dir };
    let one = seq![last];
    assert(all_found(n, last_is_dir) =~= founds(k) + one);
    lemma_run_append(s, founds(k), one);
    lemma_run_single(run(s, founds(k)), last);
}

/// Opening a path that exists ends in an open file unless a flag forbids
/// it: without both `O_CREAT` and `O_EXCL`, without `O_DIRECTORY` on a
/// non-directory, and without truncation to do, the walk ends with
/// `Done(Ok)`; `O_CREAT` alone never fails on an existing file. With
/// truncation to do (a regular file, `O_TRUNC`, a writable mode) it asks to
/// truncate and then opens.
pub proof fn law_existing_file_opens(path: Seq<char>, flags: u32, last_is_dir: bool)
    requires
        valid_access_mode(flags),
        !(flags & O_CREAT == O_CREAT && flags & O_EXCL == O_EXCL),
        flags & O_DIRECTORY == O_DIRECTORY ==> last_is_dir,
    ensures
        ({
            let s = start_state(path, flags);
            let evs = all_found(s.components.len(), last_is_dir);
            let trunc = flags & O_TRUNC == O_TRUNC && flags % 4 != 0 && !last_is_dir;
            &&& accepted_run(s, evs)
            &&& !trunc ==> run(s, evs).request == Request::Done(Ok::<(), Errno>(()))
            &&& trunc ==> run(s, evs).request == Request::Clear && accepted_run(
                s,
                evs.push(WalkEvent::Cleared),
            ) && run(s, evs.push(WalkEvent::Cleared)).request == Request::Done(Ok::<(), Errno>(()))
        }),
{
    lemma_creat_excl_bits(flags);
    law_existing_path(path, flags, last_is_dir);
    let s = start_state(path, flags);
    let evs = all_found(s.components.len(), last_is_dir);
    let one = seq![WalkEvent::Cleared];
    assert(evs.push(WalkEvent::Cleared) =~= evs + one);
    lemma_run_append(s, evs, one);
    lemma_run_single(run(s, evs), WalkEvent::Cleared);
}

/// The walk fails with `EEXIST` only when both `O_CREAT` and `O_EXCL` were
/// given, whatever the file system answers; and it asks to create a file
/// only under `O_CREAT` without `O_EXCL` and without `O_DIRECTORY`, and to
/// truncate only under `O_TRUNC` with a writable mode.
pub proof fn law_flag_outcomes_need_flags(path: Seq<char>, flags: u32, evs: Seq<WalkEvent>)
    requires
        valid_access_mode(flags),
    ensures
        run(start_state(path, flags), evs).request == Request::Done(Err::<(), Errno>(Errno::EEXIST))
            ==> flags & O_CREAT == O_CREAT && flags & O_EXCL == O_EXCL,
        run(start_state(path, flags), evs).request is Create ==> flags & O_CREAT == O_CREAT
            && flags & O_EXCL != O_EXCL && flags & O_DIRECTORY != O_DIRECTORY,
        run(start_state(path, flags), evs).request is Clear ==> flags & O_TRUNC == O_TRUNC
            && flags % 4 != 0,
{
    lemma_creat_excl_bits(flags);
    lemma_run_flag_outcomes(start_state(path, flags), evs);
    lemma_run_keeps_request(start_state(path, flags), evs);
}

/// Whether what `s` asks for is allowed by its flags.
spec fn outcome_allowed(s: WalkState) -> bool {
    &&& s.request == Request::Done(Err::<(), Errno>(Errno::EEXIST)) ==> s.flags & O_CREAT == O_CREAT
        && s.flags & O_EXCL == O_EXCL
    &&& s.request is Create ==> s.flags & O_CREAT == O_CREAT && s.flags & O_EXCL != O_EXCL
        && s.flags & O_DIRECTORY != O_DIRECTORY
    &&& s.request is Clear ==> s.flags & O_TRUNC == O_TRUNC && s.writable
}

proof fn lemma_run_flag_outcomes(s: WalkState, evs: Seq<WalkEvent>)
    requires
        outcome_allowed(s),
        s.writable == read_write_of(s.flags).1,
    ensures
        outcome_allowed(run(s, evs)),
    decreases evs.len(),
{
    if evs.len() > 0 {
        lemma_creat_excl_bits(s.flags);
        lemma_run_flag_outcomes(next_state(s, evs[0]), evs.drop_first());
    }
}

/// A missing component before the last fails `open` with `ENOENT`, a
/// component that is not a directory with `ENOTDIR`, whatever the flags.
pub proof fn law_missing_or_not_directory(path: Seq<char>, flags: u32, j: nat)
    requires
        valid_access_mode(flags),
        j < split_chars(path, '/').len(),
    ensures
        accepted_run(start_state(path, flags), founds(j).push(WalkEvent::NotADirectory)),
        run(start_state(path, flags), founds(j).push(WalkEvent::NotADirectory)).request
            == Request::Done(Err::<(), Errno>(Errno::ENOTDIR)),
        j + 1 < split_chars(path, '/').len() ==> run(
            start_state(path, flags),
            founds(j).push(WalkEvent::Missing),
        ).request == Request::Done(Err::<(), Errno>(Errno::ENOENT)),
{
    let s = start_state(path, flags);
    lemma_split_nonempty(path, '/');
    lemma_founds_from(s, j);
    if j == 0 {
        assert(founds(0) =~= Seq::<WalkEvent>::empty());
    }
    let t = run(s, founds(j));
    let one_nd = seq![WalkEvent::NotADirectory];
    let one_m = seq![WalkEvent::Missing];
    assert(founds(j).push(WalkEvent::NotADirectory) =~= founds(j) + one_nd);
    assert(founds(j).push(WalkEvent::Missing) =~= founds(j) + one_m);
    lemma_run_append(s, founds(j), one_nd);
    lemma_run_append(s, founds(j), one_m);
    lemma_run_single(t, WalkEvent::NotADirectory);
    lemma_run_single(t, WalkEvent::Missing);
}

/// When only the last component is missing, `open` creates it and opens
/// the new file only under `O_CREAT` without `O_EXCL` or `O_DIRECTORY`.
/// Without `O_CREAT` it fails with `ENOENT`; with `O_CREAT` and `O_EXCL`
/// the file must have existed, so it fails with `ENOENT` too; with
/// `O_CREAT` and `O_DIRECTORY` it fails with `ENOTDIR`. Only in the first
/// case is anything created.
pub proof fn law_missing_last(path: Seq<char>, flags: u32)
    requires
        valid_access_mode(flags),
    ensures
        ({
            let s = start_state(path, flags);
            let n = s.components.len();
            let evs = founds((n - 1) as nat).push(WalkEvent::Missing);
            let creates = flags & O_CREAT == O_CREAT && flags & O_EXCL != O_EXCL && flags
                & O_DIRECTORY != O_DIRECTORY;
            &&& accepted_run(s, evs)
            &&& run(s, evs).request == on_last_missing(flags, s.components[n - 1])
            &&& creates ==> run(s, evs).request == Request::Create(s.components[n - 1])
                && accepted_run(s, evs.push(WalkEvent::Created)) && run(
                s,
                evs.push(WalkEvent::Created),
            ).request == Request::Done(Ok::<(), Errno>(()))
            &&& !creates ==> run(s, evs).request is Done
            &&& flags & O_CREAT != O_CREAT ==> run(s, evs).request == Request::Done(
                Err::<(), Errno>(Errno::ENOENT),
            )
            &&& flags & (O_CREAT | O_EXCL) == (O_CREAT | O_EXCL) ==> run(s, evs).request
                == Request::Done(Err::<(), Errno>(Errno::ENOENT))
            &&& flags & O_CREAT == O_CREAT && flags & O_EXCL != O_EXCL && flags & O_DIRECTORY
                == O_DIRECTORY ==> run(s, evs).request == Request::Done(
                Err::<(), Errno>(Errno::ENOTDIR),
            )
        }),
{
    let s = start_state(path, flags);
    lemma_split_nonempty(path, '/');
    let n = s.components.len();
    let k = (n - 1) as nat;
    lemma_founds_from(s, k);
    lemma_creat_excl_bits(flags);
    let evs = founds(k).push(WalkEvent::Missing);
    let one_m = seq![WalkEvent::Missing];
    let one_c = seq![WalkEvent::Created];
    assert(evs =~= founds(k) + one_m);
    lemma_run_append(s, founds(k), one_m);
    lemma_run_single(run(s, founds(k)), WalkEvent::Missing);
    assert(evs.push(WalkEvent::Created) =~= evs + one_c);
    lemma_run_append(s, evs, one_c);
    lemma_run_single(run(s, evs), WalkEvent::Created);
}

/// Whatever the file system answers, the walk keeps the path, the flags and
/// the permission they grant, so the file a walk opens records the path it
/// was asked for and the permission of its access mode.
pub proof fn law_walk_keeps_request(path: Seq<char>, flags: u32, evs: Seq<WalkEvent>)
    requires
        valid_access_mode(flags),
    ensures
        ({
            let s = run(start_state(path, flags), evs);
            &&& s.path == path
            &&& s.flags == flags
            &&& s.readable == read_write_of(flags).0
            &&& s.writable == read_write_of(flags).1
        }),
{
    lemma_run_keeps_request(start_state(path, flags), evs);
}

proof fn lemma_run_keeps_request(s: WalkState, evs: Seq<WalkEvent>)
    ensures
        run(s, evs).path == s.path,
        run(s, evs).flags == s.flags,
        run(s, evs).readable == s.readable,
        run(s, evs).writable == s.writable,
    decreases evs.len(),
{
    if evs.len() > 0 {
        lemma_run_keeps_request(next_state(s, evs[0]), evs.drop_first());
    }
}

/// How many more answers a walk can take at most.
pub open spec fn remaining_steps(s: WalkState) -> nat {
    match s.request {
        Request::Find(_) => (s.components.len() - s.pos + 1) as nat,
        Request::Create(_) => 1,
        Request::Clear => 1,
        Request::Done(_) => 0,
    }
}

/// Every accepted answer brings the walk nearer its end.
proof fn lemma_run_bounded(s: WalkState, evs: Seq<WalkEvent>)
    requires
        walk_wf(s),
        accepted_run(s, evs),
    ensures
        evs.len() <= remaining_steps(s),
    decreases evs.len(),
{
    if evs.len() > 0 {
        lemma_next_wf(s, evs[0]);
        lemma_run_bounded(next_state(s, evs[0]), evs.drop_first());
    }
}

/// Opening a path of `n` components takes at most `n + 1` file-system
/// requests: every walk ends.
pub proof fn law_walk_terminates(path: Seq<char>, flags: u32, evs: Seq<WalkEvent>)
    requires
        valid_access_mode(flags),
        accepted_run(start_state(path, flags), evs),
    ensures
        evs.len() <= split_chars(path, '/').len() + 1,
{
    lemma_split_nonempty(path, '/');
    lemma_run_bounded(start_state(path, flags), evs);
}

/// The resolution of a path for `open`, one file-system request at a time:
/// the caller performs [`PathWalk::action`] and reports the answer with
/// [`PathWalk::step`] until the action is `Done`.
#[derive(Debug)]
pub struct PathWalk {
    path: String,
    components: Vec<String>,
    flags: OpenFlags,
    readable: bool,
    writable: bool,
    pos: usize,
    action: WalkAction,
}

impl View for PathWalk {
    type V = WalkState;

    closed spec fn view(&self) -> WalkState {
        WalkState {
            path: self.path@,
            components: self.components@.map_values(|c: String| c@),
            flags: self.flags@,
            readable: self.readable,
            writable: self.writable,
            pos: self.pos as nat,
            request: self.action@,
        }
    }
}

impl PathWalk {
    /// Whether the walk is in a state that `open` can reach.
    pub open spec fn wf(&self) -> bool {
        walk_wf(self@)
    }

    /// The request to perform next.
    pub fn action(&self) -> (a: &WalkAction)
        ensures
            a@ == self@.request,
    {
        &self.action
    }

    /// Advances the walk by the file system's answer to [`PathWalk::action`].
    pub fn step(&mut self, ev: WalkEvent)
        requires
            old(self).wf(),
            accepts(old(self)@, ev),
        ensures
            final(self).wf(),
            final(self)@ == next_state(old(self)@, ev),
    {
        let n = self.components.len();
        proof {
            lemma_named_flags_are_known();
        }
        match ev {
            WalkEvent::Found { is_dir } => {
                if self.pos + 1 < n {
                    self.pos = self.pos + 1;
                    let name = self.components[self.pos].clone();
                    assert(name@ == self@.components[self.pos as int]);
                    self.action = WalkAction::Find(name);
                } else {
                    self.pos = n;
                    let creat_excl = OpenFlags::from_bits_truncate(O_CREAT | O_EXCL);
                    let directory = OpenFlags::from_bits_truncate(O_DIRECTORY);
                    let trunc = OpenFlags::from_bits_truncate(O_TRUNC);
                    self.action = if self.flags.contains(creat_excl) {
                        WalkAction::Done(Err(Errno::EEXIST))
                    } else if self.flags.contains(directory) && !is_dir {
                        WalkAction::Done(Err(Errno::ENOTDIR))
                    } else if self.flags.contains(trunc) && self.writable && !is_dir {
                        WalkAction::Clear
                    } else {
                        WalkAction::Done(Ok(()))
                    };
                }
            },
            WalkEvent::Missing => {
                if self.pos + 1 == n {
                    let creat = OpenFlags::from_bits_truncate(O_CREAT);
                    let excl = OpenFlags::from_bits_truncate(O_EXCL);
                    let directory = OpenFlags::from_bits_truncate(O_DIRECTORY);
                    self.action = if !self.flags.contains(creat) {
                        WalkAction::Done(Err(Errno::ENOENT))
                    } else if self.flags.contains(excl) {
                        WalkAction::Done(Err(Errno::ENOENT))
                    } else if self.flags.contains(directory) {
                        WalkAction::Done(Err(Errno::ENOTDIR))
                    } else {
                        let name = self.components[self.pos].clone();
                        assert(name@ == self@.components[self.pos as int]);
                        WalkAction::Create(name)
                    };
                } else {
                    self.action = WalkAction::Done(Err(Errno::ENOENT));
                }
            },
            WalkEvent::NotADirectory => {
                self.action = WalkAction::Done(Err(Errno::ENOTDIR));
            },
            WalkEvent::Created => {
                self.action = WalkAction::Done(Ok(()));
            },
            WalkEvent::Cleared => {
                self.action = WalkAction::Done(Ok(()));
            },
        }
    }
}

/// What a file opened on disk records about itself.
pub struct FileState {
    pub readable: bool,
    pub writable: bool,
    pub path: Seq<char>,
    /// The descriptor flags; only close-on-exec is ever set.
    pub flags: u32,
}

/// A file on disk opened by `open`: its permission, its path, its
/// descriptor flags, and the file system's entry `E` for it, which this
/// library carries but never reads.
#[derive(Debug)]
pub struct OSFile<E> {
    readable: bool,
    writable: bool,
    path: String,
    inner: OSFileInner<E>,
}

/// The part of an [`OSFile`] that changes or is handed to the file system:
/// the entry and the descriptor flags.
#[derive(Debug)]
pub struct OSFileInner<E> {
    entry: E,
    flags: OpenFlags,
}

impl<E> View for OSFile<E> {
    type V = FileState;

    closed spec fn view(&self) -> FileState {
        FileState {
            readable: self.readable,
            writable: self.writable,
            path: self.path@,
            flags: self.inner.flags@,
        }
    }
}

impl<E> OSFile<E> {
    /// The file system's entry for the file.
    pub closed spec fn entry_spec(&self) -> E {
        self.inner.entry
    }

    /// A file on `entry` with the given permission and no descriptor flag.
    pub fn new(path: String, readable: bool, writable: bool, entry: E) -> (f: Self)
        ensures
            f@ == (FileState { readable, writable, path: path@, flags: 0 }),
            f.entry_spec() == entry,
    {
        OSFile { path, readable, writable, inner: OSFileInner { entry, flags: OpenFlags::empty() } }
    }

    /// Whether the file was opened for reading.
    pub fn readable(&self) -> (r: bool)
        ensures
            r == self@.readable,
    {
        self.readable
    }

    /// Whether the file was opened for writing.
    pub fn writable(&self) -> (r: bool)
        ensures
            r == self@.writable,
    {
        self.writable
    }

    /// The path the file was opened by.
    pub fn path(&self) -> (r: Option<&str>)
        ensures
            r matches Some(p) && p@ == self@.path,
    {
        Some(self.path.as_str())
    }

    /// The descriptor flags.
    pub fn status(&self) -> (r: OpenFlags)
        ensures
            r@ == self@.flags,
    {
        self.inner.flags
    }

    /// Sets or clears close-on-exec; nothing else changes.
    pub fn set_close_on_exec(&mut self, bit: bool)
        ensures
            final(self)@ == (FileState {
                flags: if bit {
                    old(self)@.flags | O_CLOEXEC
                } else {
                    old(self)@.flags & !O_CLOEXEC
                },
                ..old(self)@
            }),
            final(self).entry_spec() == old(self).entry_spec(),
    {
        proof {
            lemma_named_flags_are_known();
        }
        self.inner.flags.set(OpenFlags::from_bits_truncate(O_CLOEXEC), bit);
    }

    /// The file system's entry for the file.
    pub fn entry(&self) -> (r: &E)
        ensures
            *r == self.entry_spec(),
    {
        &self.inner.entry
    }
}

impl PathWalk {
    /// Opens the entry the walk ended on, once it ended with `Ok`.
    pub fn finish<E>(self, entry: E) -> (f: OSFile<E>)
        requires
            self.wf(),
            self@.request == Request::Done(Ok::<(), Errno>(())),
        ensures
            f@ == (FileState {
                readable: self@.readable,
                writable: self@.writable,
                path: self@.path,
                flags: 0,
            }),
            f.entry_spec() == entry,
    {
        OSFile::new(self.path, self.readable, self.writable, entry)
    }
}

/// Starts opening the file at `path` on disk: splits the path at `/` and
/// asks for its first component in the root directory.
pub fn open_osfile(path: String, flags: OpenFlags) -> (w: PathWalk)
    requires
        valid_access_mode(flags@),
    ensures
        w.wf(),
        w@ == start_state(path@, flags@),
{
    let (readable, writable) = flags.read_write();
    let components = split_path(path.as_str());
    proof {
        lemma_split_nonempty(path@, '/');
    }
    let first = components[0].clone();
    PathWalk { path, components, flags, readable, writable, pos: 0, action: WalkAction::Find(first) }
}

/// The path of the terminal device.
pub open spec fn tty_path() -> Seq<char> {
    seq!['/', 'd', 'e', 'v', '/', 't', 't', 'y']
}

/// The prefix of device paths.
pub open spec fn dev_prefix() -> Seq<char> {
    seq!['/', 'd', 'e', 'v']
}

/// What `open_file` leads to when it does not fail at once.
#[derive(Debug)]
pub enum OpenTarget {
    /// The terminal: standard output.
    Stdout,
    /// A file on disk, once the walk resolves its path.
    Disk(PathWalk),
}

/// Opens the file at `path`. Device paths (those beginning with `/dev`)
/// name the terminal, `/dev/tty`, or nothing; any other path is resolved on
/// disk by the walk this returns.
pub fn open_file(path: String, flags: OpenFlags) -> (r: Result<OpenTarget, Errno>)
    requires
        has_prefix(path@, dev_prefix()) || valid_access_mode(flags@),
    ensures
        has_prefix(path@, dev_prefix()) && path@ == tty_path() ==> r matches Ok(OpenTarget::Stdout),
        has_prefix(path@, dev_prefix()) && path@ != tty_path() ==> r == Err::<OpenTarget, Errno>(
            Errno::ENOENT,
        ),
        !has_prefix(path@, dev_prefix()) ==> (r matches Ok(OpenTarget::Disk(w)) && w.wf() && w@
            == start_state(path@, flags@)),
{
    let dev = "/dev";
    let tty = "/dev/tty";
    proof {
        reveal_strlit("/dev");
        reveal_strlit("/dev/tty");
        assert(dev@ =~= dev_prefix());
        assert(tty@ =~= tty_path());
    }
    if starts_with(path.as_str(), dev) {
        if same_chars(path.as_str(), tty) {
            return Ok(OpenTarget::Stdout);
        } else {
            return Err(Errno::ENOENT);
        }
    }
    Ok(OpenTarget::Disk(open_osfile(path, flags)))
}

} // verus!
