//! The tree mirror engine.
//!
//! A [`TreeWalk`] reproduces a remote directory tree below a local
//! directory. It does no input or output itself: it hands out one
//! [`MirrorAction`] at a time, the caller performs it and reports what came
//! of it as a [`MirrorEvent`], and the walk answers with the next action.
//! Directories are walked depth first and the entries of a listing are taken
//! in the order of the listing.

use crate::error::InstallError;
use crate::registry::{views_of, EntryKind, RemoteEntry, RemoteEntryView};
use vstd::prelude::*;

verus! {

/// A directory whose listing is being worked through.
pub struct FrameView {
    /// The local directory that mirrors it.
    pub local_dir: Seq<char>,
    /// The entries of its listing that have not been taken up yet.
    pub pending: Seq<RemoteEntryView>,
}

/// What a walk is waiting for.
pub enum PhaseView {
    /// The local directory is being created; its remote counterpart is listed next.
    CreatingDirectory { local_dir: Seq<char>, remote_path: Seq<char> },
    /// The listing of the remote counterpart of `local_dir` is being fetched.
    Listing { local_dir: Seq<char> },
    /// A file is being fetched and written.
    Fetching,
    /// The whole tree has been mirrored.
    Finished,
    /// The walk was given up.
    Aborted { error: InstallError },
}

/// The mathematical value of a [`TreeWalk`].
pub struct WalkView {
    /// The author below whom every listing is asked for.
    pub author: Seq<char>,
    /// The directories that are being worked through, the innermost last.
    pub stack: Seq<FrameView>,
    /// The bytes written so far.
    pub total: nat,
    pub phase: PhaseView,
}

/// The mathematical value of a [`MirrorAction`].
pub enum ActionView {
    CreateDirectory { local_path: Seq<char> },
    ListDirectory { author: Seq<char>, remote_path: Seq<char> },
    FetchFile { download_url: Seq<char>, local_path: Seq<char> },
    Finish { total_bytes: nat },
    Abort { error: InstallError },
}

/// The mathematical value of a [`MirrorEvent`].
pub enum EventView {
    DirectoryCreated,
    Listed { entries: Seq<RemoteEntryView> },
    FileWritten { bytes: nat },
    Failed { error: InstallError },
}

/// The local path of the entry `name` of the directory `dir`: `dir/name`.
pub open spec fn child_path(dir: Seq<char>, name: Seq<char>) -> Seq<char> {
    dir + seq!['/'] + name
}

/// The walk at its start, and its first action: the local destination is
/// created before anything is listed.
pub open spec fn begin(author: Seq<char>, remote_path: Seq<char>, local_dir: Seq<char>) -> (
    WalkView,
    ActionView,
) {
    (
        WalkView {
            author,
            stack: Seq::empty(),
            total: 0,
            phase: PhaseView::CreatingDirectory { local_dir, remote_path },
        },
        ActionView::CreateDirectory { local_path: local_dir },
    )
}

/// Takes up pending entries until one of them asks for an action.
///
/// A directory is created (and listed after that), a file with a download
/// address is fetched, a file without one is passed over. A listing that is
/// used up is left for the directory above it, and when none is left the walk
/// is finished.
pub open spec fn advance(author: Seq<char>, stack: Seq<FrameView>, total: nat) -> (
    WalkView,
    ActionView,
)
    decreases stack.len(),
        (if stack.len() > 0 {
            stack.last().pending.len()
        } else {
            0
        }),
{
    if stack.len() == 0 {
        (
            WalkView { author, stack, total, phase: PhaseView::Finished },
            ActionView::Finish { total_bytes: total },
        )
    } else if stack.last().pending.len() == 0 {
        advance(author, stack.drop_last(), total)
    } else {
        let top = stack.last();
        let entry = top.pending[0];
        let rest = stack.drop_last().push(
            FrameView { local_dir: top.local_dir, pending: top.pending.drop_first() },
        );
        let local_path = child_path(top.local_dir, entry.name);
        match entry.kind {
            EntryKind::Directory => (
                WalkView {
                    author,
                    stack: rest,
                    total,
                    phase: PhaseView::CreatingDirectory {
                        local_dir: local_path,
                        remote_path: entry.remote_path,
                    },
                },
                ActionView::CreateDirectory { local_path },
            ),
            EntryKind::File => match entry.download_url {
                Some(download_url) => (
                    WalkView { author, stack: rest, total, phase: PhaseView::Fetching },
                    ActionView::FetchFile { download_url, local_path },
                ),
                None => advance(author, rest, total),
            },
        }
    }
}

/// The walk given up with `error`.
pub open spec fn aborted(walk: WalkView, error: InstallError) -> (WalkView, ActionView) {
    (
        WalkView { phase: PhaseView::Aborted { error }, ..walk },
        ActionView::Abort { error },
    )
}

/// One step of a walk: the state after `event`, and the next action.
///
/// A finished or aborted walk stays as it is and repeats its last word. A
/// failure aborts the walk, whatever it was waiting for, and so does an
/// event that is not the answer to the action that was asked for.
pub open spec fn step(walk: WalkView, event: EventView) -> (WalkView, ActionView) {
    match walk.phase {
        PhaseView::Finished => (walk, ActionView::Finish { total_bytes: walk.total }),
        PhaseView::Aborted { error } => (walk, ActionView::Abort { error }),
        PhaseView::CreatingDirectory { local_dir, remote_path } => match event {
            EventView::DirectoryCreated => (
                WalkView { phase: PhaseView::Listing { local_dir }, ..walk },
                ActionView::ListDirectory { author: walk.author, remote_path },
            ),
            EventView::Failed { error } => aborted(walk, error),
            _ => aborted(walk, InstallError::ProtocolError),
        },
        PhaseView::Listing { local_dir } => match event {
            EventView::Listed { entries } => advance(
                walk.author,
                walk.stack.push(FrameView { local_dir, pending: entries }),
                walk.total,
            ),
            EventView::Failed { error } => aborted(walk, error),
            _ => aborted(walk, InstallError::ProtocolError),
        },
        PhaseView::Fetching => match event {
            EventView::FileWritten { bytes } => advance(
                walk.author,
                walk.stack,
                walk.total + bytes,
            ),
            EventView::Failed { error } => aborted(walk, error),
            _ => aborted(walk, InstallError::ProtocolError),
        },
    }
}

/// Whether `event` can be taken in without the byte count leaving the range
/// of a 64-bit counter.
pub open spec fn fits(walk: WalkView, event: EventView) -> bool {
    walk.phase is Fetching && event is FileWritten ==> walk.total + event->bytes <= u64::MAX
}

/// What the caller is asked to do next.
#[derive(Clone, Debug, PartialEq, Eq)]
pub enum MirrorAction {
    /// Make sure that this local directory exists. Answered by
    /// `DirectoryCreated`.
    CreateDirectory { local_path: String },
    /// Ask the registry for the listing of `remote_path` below `author`.
    /// Answered by `Listed`.
    ListDirectory { author: String, remote_path: String },
    /// Fetch `download_url` and write what comes to `local_path`, replacing
    /// what is there. Answered by `FileWritten`.
    FetchFile { download_url: String, local_path: String },
    /// The tree has been mirrored; this many bytes were written.
    Finish { total_bytes: u64 },
    /// The walk was given up.
    Abort { error: InstallError },
}

impl View for MirrorAction {
    type V = ActionView;

    open spec fn view(&self) -> ActionView {
        match self {
            MirrorAction::CreateDirectory { local_path } => ActionView::CreateDirectory {
                local_path: local_path@,
            },
            MirrorAction::ListDirectory { author, remote_path } => ActionView::ListDirectory {
                author: author@,
                remote_path: remote_path@,
            },
            MirrorAction::FetchFile { download_url, local_path } => ActionView::FetchFile {
                download_url: download_url@,
                local_path: local_path@,
            },
            MirrorAction::Finish { total_bytes } => ActionView::Finish {
                total_bytes: *total_bytes as nat,
            },
            MirrorAction::Abort { error } => ActionView::Abort { error: *error },
        }
    }
}

/// What came of the action that was asked for.
#[derive(Clone, Debug, PartialEq, Eq)]
pub enum MirrorEvent {
    /// The directory exists now.
    DirectoryCreated,
    /// The listing arrived.
    Listed { entries: Vec<RemoteEntry> },
    /// The file was fetched and written; it holds this many bytes.
    FileWritten { bytes: u64 },
    /// The action failed.
    Failed { error: InstallError },
}

impl View for MirrorEvent {
    type V = EventView;

    open spec fn view(&self) -> EventView {
        match self {
            MirrorEvent::DirectoryCreated => EventView::DirectoryCreated,
            MirrorEvent::Listed { entries } => EventView::Listed { entries: views_of(entries@) },
            MirrorEvent::FileWritten { bytes } => EventView::FileWritten { bytes: *bytes as nat },
            MirrorEvent::Failed { error } => EventView::Failed { error: *error },
        }
    }
}

/// A directory whose listing is being worked through. The entries still to
/// be taken up are kept in reverse, so that the next one is the last.
#[derive(Debug)]
struct Frame {
    local_dir: String,
    remaining: Vec<RemoteEntry>,
}

impl View for Frame {
    type V = FrameView;

    closed spec fn view(&self) -> FrameView {
        FrameView { local_dir: self.local_dir@, pending: views_of(self.remaining@).reverse() }
    }
}

#[derive(Debug)]
enum Phase {
    CreatingDirectory { local_dir: String, remote_path: String },
    Listing { local_dir: String },
    Fetching,
    Finished,
    Aborted { error: InstallError },
}

impl View for Phase {
    type V = PhaseView;

    closed spec fn view(&self) -> PhaseView {
        match self {
            Phase::CreatingDirectory { local_dir, remote_path } => PhaseView::CreatingDirectory {
                local_dir: local_dir@,
                remote_path: remote_path@,
            },
            Phase::Listing { local_dir } => PhaseView::Listing { local_dir: local_dir@ },
            Phase::Fetching => PhaseView::Fetching,
            Phase::Finished => PhaseView::Finished,
            Phase::Aborted { error } => PhaseView::Aborted { error: *error },
        }
    }
}

/// The values of a stack of frames.
spec fn frames_of(stack: Seq<Frame>) -> Seq<FrameView> {
    Seq::new(stack.len(), |i: int| stack[i]@)
}

/// The walk over one remote tree.
#[derive(Debug)]
pub struct TreeWalk {
    author: String,
    stack: Vec<Frame>,
    total_bytes: u64,
    phase: Phase,
}

impl View for TreeWalk {
    type V = WalkView;

    closed spec fn view(&self) -> WalkView {
        WalkView {
            author: self.author@,
            stack: frames_of(self.stack@),
            total: self.total_bytes as nat,
            phase: self.phase@,
        }
    }
}

/// `dir/name` as a string.
fn join_path(dir: &str, name: &str) -> (path: String)
    ensures
        path@ == child_path(dir@, name@),
{
    proof {
        reveal_strlit("/");
        assert("/"@ =~= seq!['/']);
    }
    let mut path = dir.to_owned();
    path.append("/");
    path.append(name);
    path
}

/// The entries in reverse order.
fn reversed(entries: Vec<RemoteEntry>) -> (backwards: Vec<RemoteEntry>)
    ensures
        views_of(backwards@).reverse() == views_of(entries@),
{
    let ghost all = views_of(entries@);
    let mut entries = entries;
    let mut backwards: Vec<RemoteEntry> = Vec::new();
    while entries.len() > 0
        invariant
            entries@.len() <= all.len(),
            views_of(entries@) == all.take(entries@.len() as int),
            views_of(backwards@) == all.skip(entries@.len() as int).reverse(),
        decreases entries@.len(),
    {
        let ghost n = entries@.len();
        let ghost before = views_of(backwards@);
        assert(views_of(entries@)[n - 1] == all[n - 1]);
        let entry = entries.pop().unwrap();
        let ghost e = entry@;
        backwards.push(entry);
        proof {
            assert(views_of(entries@) =~= all.take(n - 1));
            assert(views_of(backwards@) =~= before.push(e));
            assert(all.skip(n - 1).reverse() =~= all.skip(n as int).reverse().push(e));
        }
    }
    proof {
        assert(all.skip(0) =~= all);
        assert(all.reverse().reverse() =~= all);
    }
    backwards
}

impl TreeWalk {
    /// Starts the walk that mirrors `remote_path` of `author` into
    /// `local_dir`, and says what to do first.
    pub fn start(author: &str, remote_path: &str, local_dir: &str) -> (started: (
        TreeWalk,
        MirrorAction,
    ))
        ensures
            (started.0@, started.1@) == begin(author@, remote_path@, local_dir@),
    {
        let walk = TreeWalk {
            author: author.to_owned(),
            stack: Vec::new(),
            total_bytes: 0,
            phase: Phase::CreatingDirectory {
                local_dir: local_dir.to_owned(),
                remote_path: remote_path.to_owned(),
            },
        };
        assert(frames_of(walk.stack@) =~= Seq::<FrameView>::empty());
        (walk, MirrorAction::CreateDirectory { local_path: local_dir.to_owned() })
    }

    /// The bytes written so far.
    pub fn total_bytes(&self) -> (total: u64)
        ensures
            total == self@.total,
    {
        self.total_bytes
    }

    /// Whether the whole tree has been mirrored.
    pub fn is_finished(&self) -> (finished: bool)
        ensures
            finished == (self@.phase is Finished),
    {
        match self.phase {
            Phase::Finished => true,
            _ => false,
        }
    }

    /// The failure that the walk was given up with, if it was.
    pub fn failure(&self) -> (failure: Option<InstallError>)
        ensures
            match failure {
                Some(error) => self@.phase == (PhaseView::Aborted { error }),
                None => !(self@.phase is Aborted),
            },
    {
        match self.phase {
            Phase::Aborted { error } => Some(error),
            _ => None,
        }
    }

    /// Whether `event` can be taken in: a file that was written must not
    /// carry the byte count beyond the range of a 64-bit counter.
    pub fn accepts(&self, event: &MirrorEvent) -> (ok: bool)
        ensures
            ok == fits(self@, event@),
    {
        match (&self.phase, event) {
            (Phase::Fetching, MirrorEvent::FileWritten { bytes }) => *bytes <= u64::MAX
                - self.total_bytes,
            _ => true,
        }
    }

    /// Gives the walk up with `error`.
    fn abort(&mut self, error: InstallError) -> (action: MirrorAction)
        ensures
            (final(self)@, action@) == aborted(old(self)@, error),
    {
        self.phase = Phase::Aborted { error };
        MirrorAction::Abort { error }
    }

    /// Takes up pending entries until one of them asks for an action.
    fn advance(&mut self) -> (action: MirrorAction)
        ensures
            (final(self)@, action@) == advance(
                old(self)@.author,
                old(self)@.stack,
                old(self)@.total,
            ),
    {
        let ghost goal = advance(self@.author, self@.stack, self@.total);
        loop
            invariant
                goal == advance(old(self)@.author, old(self)@.stack, old(self)@.total),
                advance(self@.author, self@.stack, self@.total) == goal,
            decreases
                    self.stack@.len(),
                    (if self.stack@.len() > 0 {
                        self.stack@.last().remaining@.len()
                    } else {
                        0
                    }),
        {
            let ghost stack = self@.stack;
            if self.stack.len() == 0 {
                self.phase = Phase::Finished;
                return MirrorAction::Finish { total_bytes: self.total_bytes };
            }
            let mut frame = self.stack.pop().unwrap();
            let ghost top = frame@;
            proof {
                assert(top == stack.last());
                assert(frames_of(self.stack@) =~= stack.drop_last());
            }
            let ghost left = views_of(frame.remaining@);
            match frame.remaining.pop() {
                None => {
                    assert(top.pending.len() == 0);
                },
                Some(entry) => {
                    proof {
                        assert(top.pending.len() > 0);
                        assert(entry@ == top.pending[0]);
                        assert(views_of(frame.remaining@) =~= left.drop_last());
                        assert(frame@.pending =~= top.pending.drop_first());
                    }
                    let local_path = join_path(frame.local_dir.as_str(), entry.name.as_str());
                    let ghost below = frames_of(self.stack@);
                    let ghost pushed = frame@;
                    self.stack.push(frame);
                    proof {
                        assert(frames_of(self.stack@) =~= below.push(pushed));
                    }
                    match entry.kind {
                        EntryKind::Directory => {
                            self.phase = Phase::CreatingDirectory {
                                local_dir: local_path.clone(),
                                remote_path: entry.remote_path,
                            };
                            return MirrorAction::CreateDirectory { local_path };
                        },
                        EntryKind::File => match entry.download_url {
                            Some(download_url) => {
                                self.phase = Phase::Fetching;
                                return MirrorAction::FetchFile { download_url, local_path };
                            },
                            None => {},
                        },
                    }
                },
            }
        }
    }

    /// Takes in what came of the last action and says what to do next.
    ///
    /// The walk moves exactly as [`step`] says.
    pub fn step(&mut self, event: MirrorEvent) -> (action: MirrorAction)
        requires
            fits(old(self)@, event@),
        ensures
            (final(self)@, action@) == step(old(self)@, event@),
    {
        let mut phase = Phase::Fetching;
        core::mem::swap(&mut self.phase, &mut phase);
        match phase {
            Phase::Finished => {
                self.phase = Phase::Finished;
                MirrorAction::Finish { total_bytes: self.total_bytes }
            },
            Phase::Aborted { error } => {
                self.phase = Phase::Aborted { error };
                MirrorAction::Abort { error }
            },
            Phase::CreatingDirectory { local_dir, remote_path } => match event {
                MirrorEvent::DirectoryCreated => {
                    self.phase = Phase::Listing { local_dir };
                    MirrorAction::ListDirectory { author: self.author.clone(), remote_path }
                },
                MirrorEvent::Failed { error } => self.abort(error),
                _ => self.abort(InstallError::ProtocolError),
            },
            Phase::Listing { local_dir } => match event {
                MirrorEvent::Listed { entries } => {
                    let ghost below = frames_of(self.stack@);
                    let frame = Frame { local_dir, remaining: reversed(entries) };
                    let ghost pushed = frame@;
                    self.stack.push(frame);
                    proof {
                        assert(frames_of(self.stack@) =~= below.push(pushed));
                    }
                    self.advance()
                },
                MirrorEvent::Failed { error } => self.abort(error),
                _ => self.abort(InstallError::ProtocolError),
            },
            Phase::Fetching => match event {
                MirrorEvent::FileWritten { bytes } => {
                    self.total_bytes = self.total_bytes + bytes;
                    self.advance()
                },
                MirrorEvent::Failed { error } => self.abort(error),
                _ => self.abort(InstallError::ProtocolError),
            },
        }
    }
}

} // verus!
