//! Undo and redo: an ordered list of full canvas snapshots and a cursor that
//! marks the one on screen. A new snapshot replaces everything after the
//! cursor.

use crate::canvas::{Canvas, Grid};
use vstd::prelude::*;

verus! {

/// The mathematical model of a history: the snapshots, oldest first, and the
/// index of the current one.
pub struct Timeline {
    pub snapshots: Seq<Grid>,
    pub cursor: nat,
}

impl Timeline {
    /// There is at least one snapshot and the cursor points at one.
    pub open spec fn wf(self) -> bool {
        self.cursor < self.snapshots.len()
    }

    /// A history that holds only its first snapshot.
    pub open spec fn seed(first: Grid) -> Timeline {
        Timeline { snapshots: seq![first], cursor: 0 }
    }

    /// The snapshot under the cursor.
    pub open spec fn current(self) -> Grid {
        self.snapshots[self.cursor as int]
    }

    /// Whether there is an older snapshot to go back to.
    pub open spec fn can_undo(self) -> bool {
        self.cursor > 0
    }

    /// Whether there is a newer snapshot to go forward to.
    pub open spec fn can_redo(self) -> bool {
        self.cursor + 1 < self.snapshots.len()
    }

    /// The history after a commit: everything after the cursor is dropped, the
    /// new snapshot is appended and becomes current.
    pub open spec fn push(self, snapshot: Grid) -> Timeline {
        Timeline {
            snapshots: self.snapshots.take(self.cursor as int + 1).push(snapshot),
            cursor: self.cursor + 1,
        }
    }

    /// The history after an undo: the cursor one step back, or the same
    /// history at the oldest snapshot.
    pub open spec fn undo(self) -> Timeline {
        if self.can_undo() {
            Timeline { cursor: (self.cursor - 1) as nat, ..self }
        } else {
            self
        }
    }

    /// The history after a redo: the cursor one step forward, or the same
    /// history at the newest snapshot.
    pub open spec fn redo(self) -> Timeline {
        if self.can_redo() {
            Timeline { cursor: self.cursor + 1, ..self }
        } else {
            self
        }
    }

    /// Commit, undo and redo keep a history well formed.
    pub proof fn lemma_steps_keep_wf(self, snapshot: Grid)
        requires
            self.wf(),
        ensures
            self.push(snapshot).wf(),
            self.undo().wf(),
            self.redo().wf(),
    {
    }

    /// A commit makes the new snapshot current, keeps every snapshot up to the
    /// old cursor and leaves nothing to redo; undoing it shows the snapshot
    /// that was current before.
    pub proof fn lemma_push(self, snapshot: Grid)
        requires
            self.wf(),
        ensures
            self.push(snapshot).current() == snapshot,
            self.push(snapshot).snapshots.len() == self.cursor + 2,
            forall|i: int|
                0 <= i <= self.cursor ==> self.push(snapshot).snapshots[i] == self.snapshots[i],
            !self.push(snapshot).can_redo(),
            self.push(snapshot).redo() == self.push(snapshot),
            self.push(snapshot).undo().current() == self.current(),
    {
    }

    /// Undo followed by redo, and redo followed by undo, come back to the
    /// same history wherever the first step moved the cursor.
    pub proof fn lemma_undo_redo(self)
        requires
            self.wf(),
        ensures
            self.can_undo() ==> self.undo().redo() == self,
            self.can_redo() ==> self.redo().undo() == self,
            !self.can_undo() ==> self.undo() == self,
            !self.can_redo() ==> self.redo() == self,
    {
    }

    /// Starting from a first snapshot `s0` and two commits `s1` and `s2`: undo
    /// shows `s1`, a second undo shows `s0`, a third changes nothing; redo from
    /// `s0` shows `s1`; and a commit of `s3` after one undo drops `s2` for
    /// good, so that a redo after it changes nothing.
    pub proof fn lemma_two_commits(s0: Grid, s1: Grid, s2: Grid, s3: Grid)
        ensures
            ({
                let h = Timeline::seed(s0).push(s1).push(s2);
                let branched = h.undo().push(s3);
                &&& h.current() == s2
                &&& h.undo().current() == s1
                &&& h.undo().undo().current() == s0
                &&& h.undo().undo().undo() == h.undo().undo()
                &&& h.undo().undo().redo().current() == s1
                &&& branched.snapshots == seq![s0, s1, s3]
                &&& branched.current() == s3
                &&& branched.redo() == branched
            }),
    {
        let h = Timeline::seed(s0).push(s1).push(s2);
        assert(h.snapshots =~= seq![s0, s1, s2]);
        assert(h.undo().push(s3).snapshots =~= seq![s0, s1, s3]);
    }
}

/// The snapshots of an editing session with a cursor for undo and redo. Each
/// snapshot is a full, independent copy of the canvas.
///
/// The snapshots are kept as the current one between two stacks: the older
/// ones, oldest at the bottom, and the newer ones, newest at the bottom. This
/// way there always is a current snapshot, and undo and redo move one canvas
/// from stack to stack.
pub struct History {
    older: Vec<Canvas>,
    current: Canvas,
    newer: Vec<Canvas>,
}

/// The models of a stack of canvases, bottom first.
pub open spec fn grids(stack: Seq<Canvas>) -> Seq<Grid> {
    stack.map_values(|c: Canvas| c@)
}

impl View for History {
    type V = Timeline;

    closed spec fn view(&self) -> Timeline {
        Timeline {
            snapshots: grids(self.older@) + seq![self.current@] + grids(self.newer@.reverse()),
            cursor: self.older@.len(),
        }
    }
}

impl History {
    /// A history seeded with its first snapshot.
    pub fn new(initial: Canvas) -> (history: History)
        ensures
            history@ == Timeline::seed(initial@),
            history@.wf(),
    {
        let history = History { older: Vec::new(), current: initial, newer: Vec::new() };
        assert(history@.snapshots =~= seq![initial@]);
        history
    }

    /// The index of the current snapshot.
    pub fn cursor(&self) -> (i: usize)
        ensures
            i == self@.cursor,
            self@.wf(),
    {
        self.older.len()
    }

    /// Whether there is an older snapshot to go back to.
    pub fn can_undo(&self) -> (b: bool)
        ensures
            b == self@.can_undo(),
    {
        self.older.len() > 0
    }

    /// Whether there is a newer snapshot to go forward to.
    pub fn can_redo(&self) -> (b: bool)
        ensures
            b == self@.can_redo(),
    {
        self.newer.len() > 0
    }

    /// A copy of the current snapshot.
    pub fn current(&self) -> (canvas: Canvas)
        ensures
            canvas@ == self@.current(),
            canvas@.wf(),
    {
        self.current.clone_for_preview()
    }

    /// Records a commit: drops every snapshot after the cursor, appends
    /// `snapshot` and moves the cursor to it.
    pub fn push(&mut self, snapshot: Canvas)
        ensures
            final(self)@ == old(self)@.push(snapshot@),
            final(self)@.wf(),
    {
        let ghost before = self@;
        let ghost added = snapshot@;
        let mut shown = snapshot;
        std::mem::swap(&mut self.current, &mut shown);
        self.older.push(shown);
        self.newer.clear();
        assert(self@.snapshots =~= before.push(added).snapshots);
    }

    /// Steps back to the previous snapshot and returns a copy of it. At the
    /// oldest snapshot nothing changes and `None` is returned.
    pub fn undo(&mut self) -> (shown: Option<Canvas>)
        ensures
            final(self)@ == old(self)@.undo(),
            final(self)@.wf(),
            shown is Some <==> old(self)@.can_undo(),
            shown matches Some(canvas) ==> canvas@ == final(self)@.current() && canvas@.wf(),
    {
        let ghost before = self@;
        match self.older.pop() {
            Some(previous) => {
                let mut shown = previous;
                std::mem::swap(&mut self.current, &mut shown);
                self.newer.push(shown);
                assert(self@.snapshots =~= before.snapshots);
                Some(self.current.clone_for_preview())
            },
            None => None,
        }
    }

    /// Steps forward to the next snapshot and returns a copy of it. At the
    /// newest snapshot nothing changes and `None` is returned.
    pub fn redo(&mut self) -> (shown: Option<Canvas>)
        ensures
            final(self)@ == old(self)@.redo(),
            final(self)@.wf(),
            shown is Some <==> old(self)@.can_redo(),
            shown matches Some(canvas) ==> canvas@ == final(self)@.current() && canvas@.wf(),
    {
        let ghost before = self@;
        match self.newer.pop() {
            Some(next) => {
                let mut shown = next;
                std::mem::swap(&mut self.current, &mut shown);
                self.older.push(shown);
                assert(self@.snapshots =~= before.snapshots);
                Some(self.current.clone_for_preview())
            },
            None => None,
        }
    }
}

} // verus!
