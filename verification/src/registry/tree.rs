//! What a walk comes to on a whole remote tree.
//!
//! The walk itself sees one listing at a time. Here the remote tree is a
//! value, the answers of a faithful caller are a sequence of events, and the
//! laws say what the walk makes of them: it asks for every directory and
//! every file once, in order, and counts the bytes of every file it fetched.

use crate::error::InstallError;
use crate::registry::mirror::{
    aborted, advance, begin, child_path, step, ActionView, EventView, FrameView, PhaseView,
    WalkView,
};
use crate::registry::{EntryKind, RemoteEntryView};
use vstd::prelude::*;

verus! {

/// A node of a remote tree: the entry that its parent's listing shows, and
/// what lies behind it.
pub struct RemoteNode {
    pub entry: RemoteEntryView,
    /// For a file with a download address: the number of bytes the address serves.
    pub bytes: nat,
    /// For a directory: the nodes of its listing, in order.
    pub children: Seq<RemoteNode>,
}

/// The listing that shows `nodes`.
pub open spec fn listing_of(nodes: Seq<RemoteNode>) -> Seq<RemoteEntryView> {
    Seq::new(nodes.len(), |i: int| nodes[i].entry)
}

/// The nodes after the first.
pub open spec fn tail(nodes: Seq<RemoteNode>) -> Seq<RemoteNode> {
    nodes.subrange(1, nodes.len() as int)
}

/// The bytes of all files below `nodes` that have a download address.
pub open spec fn tree_bytes(nodes: Seq<RemoteNode>) -> nat
    decreases nodes,
{
    if nodes.len() == 0 {
        0
    } else {
        let first = nodes[0];
        let here: nat = match first.entry.kind {
            EntryKind::Directory => tree_bytes(first.children),
            EntryKind::File => if first.entry.download_url is Some {
                first.bytes
            } else {
                0
            },
        };
        here + tree_bytes(tail(nodes))
    }
}

/// What a caller that succeeds in everything reports while `nodes` are
/// mirrored: for a directory that it was created, then its listing, then
/// what its nodes give rise to; for a file with a download address that it
/// was written; for a file without one nothing.
pub open spec fn tree_events(nodes: Seq<RemoteNode>) -> Seq<EventView>
    decreases nodes,
{
    if nodes.len() == 0 {
        Seq::empty()
    } else {
        let first = nodes[0];
        let here = match first.entry.kind {
            EntryKind::Directory => seq![
                EventView::DirectoryCreated,
                EventView::Listed { entries: listing_of(first.children) },
            ] + tree_events(first.children),
            EntryKind::File => if first.entry.download_url is Some {
                seq![EventView::FileWritten { bytes: first.bytes }]
            } else {
                Seq::empty()
            },
        };
        here + tree_events(tail(nodes))
    }
}

/// The actions that mirror `nodes` into `local_dir`: every directory is
/// created and listed, every file with a download address is fetched, each
/// once and in the order of the listings, depth first.
pub open spec fn tree_actions(
    author: Seq<char>,
    local_dir: Seq<char>,
    nodes: Seq<RemoteNode>,
) -> Seq<ActionView>
    decreases nodes,
{
    if nodes.len() == 0 {
        Seq::empty()
    } else {
        let first = nodes[0];
        let local_path = child_path(local_dir, first.entry.name);
        let here = match first.entry.kind {
            EntryKind::Directory => seq![
                ActionView::CreateDirectory { local_path },
                ActionView::ListDirectory { author, remote_path: first.entry.remote_path },
            ] + tree_actions(author, local_path, first.children),
            EntryKind::File => match first.entry.download_url {
                Some(download_url) => seq![ActionView::FetchFile { download_url, local_path }],
                None => Seq::empty(),
            },
        };
        here + tree_actions(author, local_dir, tail(nodes))
    }
}

/// The walk after it has taken in `events` one by one.
pub open spec fn run(walk: WalkView, events: Seq<EventView>) -> WalkView
    decreases events.len(),
{
    if events.len() == 0 {
        walk
    } else {
        run(step(walk, events[0]).0, events.drop_first())
    }
}

/// The actions with which the walk answers `events`, one for each.
pub open spec fn responses(walk: WalkView, events: Seq<EventView>) -> Seq<ActionView>
    decreases events.len(),
{
    if events.len() == 0 {
        Seq::empty()
    } else {
        seq![step(walk, events[0]).1] + responses(step(walk, events[0]).0, events.drop_first())
    }
}

/// The action that `started` begins with, followed by its answers to `events`.
pub open spec fn dialogue(started: (WalkView, ActionView), events: Seq<EventView>) -> Seq<
    ActionView,
> {
    seq![started.1] + responses(started.0, events)
}

/// Taking in `first` and then `later` is taking in `first` before `later`.
proof fn lemma_run_first(walk: WalkView, first: EventView, later: Seq<EventView>)
    ensures
        run(walk, seq![first] + later) == run(step(walk, first).0, later),
        responses(walk, seq![first] + later) == dialogue(step(walk, first), later),
{
    let events = seq![first] + later;
    assert(events[0] == first);
    assert(events.drop_first() =~= later);
}

/// Advancing neither changes the byte count nor the author.
pub proof fn lemma_advance_keeps_total(author: Seq<char>, stack: Seq<FrameView>, total: nat)
    ensures
        advance(author, stack, total).0.total == total,
        advance(author, stack, total).0.author == author,
        advance(author, stack, total).1 is Finish ==> advance(author, stack, total).1
            == (ActionView::Finish { total_bytes: total }),
    decreases stack.len(),
        (if stack.len() > 0 {
            stack.last().pending.len()
        } else {
            0
        }),
{
    if stack.len() == 0 {
    } else if stack.last().pending.len() == 0 {
        lemma_advance_keeps_total(author, stack.drop_last(), total);
    } else {
        let top = stack.last();
        let rest = stack.drop_last().push(
            FrameView { local_dir: top.local_dir, pending: top.pending.drop_first() },
        );
        lemma_advance_keeps_total(author, rest, total);
    }
}

/// Advancing never aborts, and it says `Finish` exactly when it leaves the
/// walk finished.
pub proof fn lemma_advance_ends(author: Seq<char>, stack: Seq<FrameView>, total: nat)
    ensures
        !(advance(author, stack, total).1 is Abort),
        !(advance(author, stack, total).0.phase is Aborted),
        advance(author, stack, total).1 is Finish <==> advance(author, stack, total).0.phase
            is Finished,
    decreases stack.len(),
        (if stack.len() > 0 {
            stack.last().pending.len()
        } else {
            0
        }),
{
    if stack.len() == 0 {
    } else if stack.last().pending.len() == 0 {
        lemma_advance_ends(author, stack.drop_last(), total);
    } else {
        let top = stack.last();
        let rest = stack.drop_last().push(
            FrameView { local_dir: top.local_dir, pending: top.pending.drop_first() },
        );
        lemma_advance_ends(author, rest, total);
    }
}

/// A walk that is neither finished nor aborted says `Finish` exactly when a
/// step leaves it finished, and `Abort` exactly when a step leaves it aborted.
pub proof fn lemma_step_ends(walk: WalkView, event: EventView)
    requires
        !(walk.phase is Finished),
        !(walk.phase is Aborted),
    ensures
        step(walk, event).1 is Finish <==> step(walk, event).0.phase is Finished,
        step(walk, event).1 is Abort <==> step(walk, event).0.phase is Aborted,
        step(walk, event).1 is Finish ==> step(walk, event).1 == (ActionView::Finish {
            total_bytes: step(walk, event).0.total,
        }),
{
    match walk.phase {
        PhaseView::Listing { local_dir } => {
            if let EventView::Listed { entries } = event {
                let stack = walk.stack.push(FrameView { local_dir, pending: entries });
                lemma_advance_ends(walk.author, stack, walk.total);
                lemma_advance_keeps_total(walk.author, stack, walk.total);
            }
        },
        PhaseView::Fetching => {
            if let EventView::FileWritten { bytes } = event {
                lemma_advance_ends(walk.author, walk.stack, walk.total + bytes);
                lemma_advance_keeps_total(walk.author, walk.stack, walk.total + bytes);
            }
        },
        _ => {},
    }
}

/// Law: the byte count grows by what a fetched file holds, and by nothing
/// else. A directory, a listing, an entry without a download address, a
/// failure: none of them adds a byte.
pub proof fn lemma_only_files_count(walk: WalkView, event: EventView)
    ensures
        step(walk, event).0.total == if walk.phase is Fetching && event is FileWritten {
            walk.total + event->bytes
        } else {
            walk.total
        },
        step(walk, event).0.author == walk.author,
{
    match walk.phase {
        PhaseView::Listing { local_dir } => {
            if let EventView::Listed { entries } = event {
                lemma_advance_keeps_total(
                    walk.author,
                    walk.stack.push(FrameView { local_dir, pending: entries }),
                    walk.total,
                );
            }
        },
        PhaseView::Fetching => {
            if let EventView::FileWritten { bytes } = event {
                lemma_advance_keeps_total(walk.author, walk.stack, walk.total + bytes);
            }
        },
        _ => {},
    }
}

/// Law: a failure ends the walk. Whatever the walk was waiting for, a
/// failure aborts it with that failure, and whatever is reported afterwards
/// the walk stays aborted, keeps its byte count and asks for nothing more.
pub proof fn lemma_failure_is_final(walk: WalkView, error: InstallError, later: Seq<EventView>)
    requires
        !(walk.phase is Finished),
        !(walk.phase is Aborted),
    ensures
        step(walk, EventView::Failed { error }) == aborted(walk, error),
        run(aborted(walk, error).0, later) == aborted(walk, error).0,
        responses(aborted(walk, error).0, later).len() == later.len(),
        forall|i: int|
            0 <= i < later.len() ==> responses(aborted(walk, error).0, later)[i] == (
            ActionView::Abort { error }),
    decreases later.len(),
{
    let stopped = aborted(walk, error).0;
    if later.len() > 0 {
        assert(step(stopped, later[0]) == (stopped, ActionView::Abort { error }));
        lemma_failure_is_final(walk, error, later.drop_first());
        let answers = responses(stopped, later);
        let after = responses(stopped, later.drop_first());
        assert forall|i: int| 0 <= i < later.len() implies answers[i] == (ActionView::Abort {
            error,
        }) by {
            if i > 0 {
                assert(answers[i] == after[i - 1]);
            }
        }
    }
}

/// What the walk makes of the nodes at the head of a listing.
///
/// The walk stands in the directory `local_dir`, above the directories of
/// `below`, with the entries of `nodes` pending before those of `after`.
/// Fed with what mirroring `nodes` gives rise to, it asks for exactly the
/// actions that mirror them, adds their bytes, and goes on as if `nodes` had
/// never been listed.
proof fn lemma_nodes_mirrored(
    author: Seq<char>,
    below: Seq<FrameView>,
    local_dir: Seq<char>,
    nodes: Seq<RemoteNode>,
    after: Seq<RemoteEntryView>,
    total: nat,
    later: Seq<EventView>,
)
    ensures
        ({
            let before = advance(
                author,
                below.push(FrameView { local_dir, pending: listing_of(nodes) + after }),
                total,
            );
            let beyond = advance(
                author,
                below.push(FrameView { local_dir, pending: after }),
                total + tree_bytes(nodes),
            );
            &&& run(before.0, tree_events(nodes) + later) == run(beyond.0, later)
            &&& dialogue(before, tree_events(nodes) + later) == tree_actions(
                author,
                local_dir,
                nodes,
            ) + dialogue(beyond, later)
        }),
    decreases nodes,
{
    let pending = listing_of(nodes) + after;
    let stack = below.push(FrameView { local_dir, pending });
    let before = advance(author, stack, total);
    let beyond = advance(
        author,
        below.push(FrameView { local_dir, pending: after }),
        total + tree_bytes(nodes),
    );
    if nodes.len() == 0 {
        assert(pending =~= after);
        assert(tree_events(nodes) + later =~= later);
        assert(tree_actions(author, local_dir, nodes) + dialogue(beyond, later) =~= dialogue(
            beyond,
            later,
        ));
    } else {
        let first = nodes[0];
        let others = tail(nodes);
        let entry = first.entry;
        assert(pending[0] == entry);
        assert(pending.drop_first() =~= listing_of(others) + after);
        let next = below.push(FrameView { local_dir, pending: listing_of(others) + after });
        assert(stack.drop_last() =~= below);
        assert(stack.last().pending == pending);
        let local_path = child_path(local_dir, entry.name);
        let events = tree_events(nodes) + later;
        let further = tree_events(others) + later;
        match entry.kind {
            EntryKind::File => match entry.download_url {
                None => {
                    assert(before == advance(author, next, total));
                    assert(events =~= further);
                    assert(tree_actions(author, local_dir, nodes) =~= tree_actions(
                        author,
                        local_dir,
                        others,
                    ));
                    lemma_nodes_mirrored(author, below, local_dir, others, after, total, later);
                },
                Some(download_url) => {
                    let written = EventView::FileWritten { bytes: first.bytes };
                    let fetch = ActionView::FetchFile { download_url, local_path };
                    assert(before == (
                        WalkView { author, stack: next, total, phase: PhaseView::Fetching },
                        fetch,
                    ));
                    assert(events =~= seq![written] + further);
                    lemma_run_first(before.0, written, further);
                    let then = advance(author, next, total + first.bytes);
                    assert(step(before.0, written) == then);
                    lemma_nodes_mirrored(
                        author,
                        below,
                        local_dir,
                        others,
                        after,
                        total + first.bytes,
                        later,
                    );
                    assert(tree_actions(author, local_dir, nodes) =~= seq![fetch] + tree_actions(
                        author,
                        local_dir,
                        others,
                    ));
                    assert(dialogue(before, events) =~= seq![fetch] + dialogue(then, further));
                    assert(seq![fetch] + (tree_actions(author, local_dir, others) + dialogue(
                        beyond,
                        later,
                    )) =~= tree_actions(author, local_dir, nodes) + dialogue(beyond, later));
                },
            },
            EntryKind::Directory => {
                let inner = first.children;
                let created = EventView::DirectoryCreated;
                let listed = EventView::Listed { entries: listing_of(inner) };
                let create = ActionView::CreateDirectory { local_path };
                let list = ActionView::ListDirectory { author, remote_path: entry.remote_path };
                assert(before == (
                    WalkView {
                        author,
                        stack: next,
                        total,
                        phase: PhaseView::CreatingDirectory {
                            local_dir: local_path,
                            remote_path: entry.remote_path,
                        },
                    },
                    create,
                ));
                let inside = tree_events(inner) + further;
                assert(events =~= seq![created] + (seq![listed] + inside));
                lemma_run_first(before.0, created, seq![listed] + inside);
                let listing = step(before.0, created);
                assert(listing.1 == list);
                lemma_run_first(listing.0, listed, inside);
                let entered = step(listing.0, listed);
                assert(listing_of(inner) + Seq::<RemoteEntryView>::empty() =~= listing_of(inner));
                lemma_nodes_mirrored(
                    author,
                    next,
                    local_path,
                    inner,
                    Seq::empty(),
                    total,
                    further,
                );
                let emptied = next.push(
                    FrameView { local_dir: local_path, pending: Seq::empty() },
                );
                assert(emptied.drop_last() =~= next);
                let left = advance(author, next, total + tree_bytes(inner));
                assert(advance(author, emptied, total + tree_bytes(inner)) == left);
                lemma_nodes_mirrored(
                    author,
                    below,
                    local_dir,
                    others,
                    after,
                    total + tree_bytes(inner),
                    later,
                );
                let within = tree_actions(author, local_path, inner);
                let beside = tree_actions(author, local_dir, others);
                assert(tree_actions(author, local_dir, nodes) =~= seq![create, list] + within
                    + beside);
                assert(dialogue(before, events) =~= seq![create] + (seq![list] + dialogue(
                    entered,
                    inside,
                )));
                assert(dialogue(entered, inside) == within + dialogue(left, further));
                assert(dialogue(left, further) == beside + dialogue(beyond, later));
                assert(seq![create] + (seq![list] + (within + (beside + dialogue(beyond, later))))
                    =~= tree_actions(author, local_dir, nodes) + dialogue(beyond, later));
            },
        }
    }
}

/// The actions that mirror a tree are creations, listings and fetches: the
/// walk is neither finished nor given up by any of them.
pub proof fn lemma_tree_actions_go_on(
    author: Seq<char>,
    local_dir: Seq<char>,
    nodes: Seq<RemoteNode>,
)
    ensures
        forall|i: int|
            0 <= i < tree_actions(author, local_dir, nodes).len() ==> !(#[trigger] tree_actions(
                author,
                local_dir,
                nodes,
            )[i] is Finish) && !(tree_actions(author, local_dir, nodes)[i] is Abort),
    decreases nodes,
{
    if nodes.len() > 0 {
        let first = nodes[0];
        let local_path = child_path(local_dir, first.entry.name);
        lemma_tree_actions_go_on(author, local_path, first.children);
        lemma_tree_actions_go_on(author, local_dir, tail(nodes));
    }
}

/// There is one answer for each event.
pub proof fn lemma_responses_len(walk: WalkView, events: Seq<EventView>)
    ensures
        responses(walk, events).len() == events.len(),
    decreases events.len(),
{
    if events.len() > 0 {
        lemma_responses_len(step(walk, events[0]).0, events.drop_first());
    }
}

/// Law: a walk mirrors the whole tree.
///
/// Whatever the remote tree below `remote_path` is, if everything the walk
/// asks for succeeds, then the walk creates the destination, lists the
/// root, asks for exactly the actions that mirror the tree, and finishes
/// with the bytes of all files that have a download address.
pub proof fn lemma_walk_mirrors_tree(
    author: Seq<char>,
    remote_path: Seq<char>,
    local_dir: Seq<char>,
    nodes: Seq<RemoteNode>,
)
    ensures
        ({
            let events = seq![
                EventView::DirectoryCreated,
                EventView::Listed { entries: listing_of(nodes) },
            ] + tree_events(nodes);
            let started = begin(author, remote_path, local_dir);
            &&& run(started.0, events) == WalkView {
                author,
                stack: Seq::empty(),
                total: tree_bytes(nodes),
                phase: PhaseView::Finished,
            }
            &&& dialogue(started, events) == seq![
                ActionView::CreateDirectory { local_path: local_dir },
                ActionView::ListDirectory { author, remote_path },
            ] + tree_actions(author, local_dir, nodes) + seq![
                ActionView::Finish { total_bytes: tree_bytes(nodes) },
            ]
        }),
{
    let created = EventView::DirectoryCreated;
    let listed = EventView::Listed { entries: listing_of(nodes) };
    let create = ActionView::CreateDirectory { local_path: local_dir };
    let list = ActionView::ListDirectory { author, remote_path };
    let finish = ActionView::Finish { total_bytes: tree_bytes(nodes) };
    let inside = tree_events(nodes);
    let events = seq![created, listed] + inside;
    let started = begin(author, remote_path, local_dir);
    let none = Seq::<EventView>::empty();
    let bottom = Seq::<FrameView>::empty();
    assert(events =~= seq![created] + (seq![listed] + inside));
    lemma_run_first(started.0, created, seq![listed] + inside);
    let listing = step(started.0, created);
    assert(listing.1 == list);
    lemma_run_first(listing.0, listed, inside);
    let entered = step(listing.0, listed);
    assert(listing_of(nodes) + Seq::<RemoteEntryView>::empty() =~= listing_of(nodes));
    assert(inside + none =~= inside);
    lemma_nodes_mirrored(author, bottom, local_dir, nodes, Seq::empty(), 0, none);
    let emptied = bottom.push(FrameView { local_dir, pending: Seq::empty() });
    assert(emptied.drop_last() =~= bottom);
    let done = advance(author, bottom, tree_bytes(nodes));
    assert(advance(author, emptied, tree_bytes(nodes)) == done);
    assert(dialogue(done, none) =~= seq![finish]);
    assert(dialogue(started, events) =~= seq![create] + (seq![list] + dialogue(entered, inside)));
    assert(seq![create] + (seq![list] + (tree_actions(author, local_dir, nodes) + seq![finish]))
        =~= seq![create, list] + tree_actions(author, local_dir, nodes) + seq![finish]);
}

} // verus!
