//! The history of reversible deletes: a bounded stack of actions, and the
//! session's counters of what was deleted.

use std::collections::VecDeque;
use vstd::prelude::*;

verus! {

/// One reversible delete. The file name and the timestamp together tell
/// where its staged copy lies.
#[derive(Debug)]
pub struct TrashAction {
    /// Absolute path at which the file stood.
    pub file_path: String,
    pub file_name: String,
    /// Size in bytes at the time of the delete.
    pub original_size: u64,
    /// Time of the delete, in seconds since the epoch.
    pub trash_timestamp: u64,
}

/// The mathematical value of a [`TrashAction`].
pub struct TrashActionView {
    pub file_path: Seq<char>,
    pub file_name: Seq<char>,
    pub original_size: u64,
    pub trash_timestamp: u64,
}

impl View for TrashAction {
    type V = TrashActionView;

    open spec fn view(&self) -> TrashActionView {
        TrashActionView {
            file_path: self.file_path@,
            file_name: self.file_name@,
            original_size: self.original_size,
            trash_timestamp: self.trash_timestamp,
        }
    }
}

impl Clone for TrashAction {
    fn clone(&self) -> (copy: Self)
        ensures
            copy == *self,
    {
        TrashAction {
            file_path: self.file_path.clone(),
            file_name: self.file_name.clone(),
            original_size: self.original_size,
            trash_timestamp: self.trash_timestamp,
        }
    }
}

/// The mathematical value of an [`UndoStack`].
#[verifier::ext_equal]
pub struct UndoStackView {
    /// The actions that can be undone, the most recent last.
    pub history: Seq<TrashActionView>,
    /// How many actions the history is meant to hold.
    pub capacity: usize,
    /// Files deleted in the session and not restored.
    pub deleted_count: u64,
    /// Bytes freed in the session and not restored.
    pub deleted_bytes: u64,
}

impl UndoStackView {
    /// A stack of the given capacity before anything was deleted.
    pub open spec fn empty(capacity: usize) -> UndoStackView {
        UndoStackView { history: Seq::empty(), capacity, deleted_count: 0, deleted_bytes: 0 }
    }

    /// The most that the history ever holds: the capacity, but one action
    /// where the capacity is 0, since a push always keeps what it is given.
    pub open spec fn limit(self) -> int {
        if self.capacity == 0 {
            1
        } else {
            self.capacity as int
        }
    }

    /// The history holds no more than [`UndoStackView::limit`].
    pub open spec fn bounded(self) -> bool {
        self.history.len() <= self.limit()
    }

    /// The stack after a push: a history that is full loses its oldest
    /// action, then the new action is appended.
    pub open spec fn after_push(self, action: TrashActionView) -> UndoStackView {
        UndoStackView {
            history: if 0 < self.history.len() && self.capacity <= self.history.len() {
                self.history.drop_first().push(action)
            } else {
                self.history.push(action)
            },
            ..self
        }
    }

    /// The action that a pop returns.
    pub open spec fn top(self) -> Option<TrashActionView> {
        if self.history.len() > 0 {
            Some(self.history.last())
        } else {
            None
        }
    }

    /// The stack after a pop.
    pub open spec fn after_pop(self) -> UndoStackView {
        UndoStackView {
            history: if self.history.len() > 0 {
                self.history.drop_last()
            } else {
                self.history
            },
            ..self
        }
    }

    /// The counters have room for one more delete of `size` bytes.
    pub open spec fn can_record(self, size: u64) -> bool {
        self.deleted_count < u64::MAX && self.deleted_bytes + size <= u64::MAX
    }

    /// The stack after a delete of `size` bytes was recorded.
    pub open spec fn after_delete(self, size: u64) -> UndoStackView {
        UndoStackView {
            deleted_count: (self.deleted_count + 1) as u64,
            deleted_bytes: (self.deleted_bytes + size) as u64,
            ..self
        }
    }

    /// The stack after an undo of `size` bytes was recorded. Neither counter
    /// goes below zero.
    pub open spec fn after_undo(self, size: u64) -> UndoStackView {
        UndoStackView {
            deleted_count: if self.deleted_count > 0 {
                (self.deleted_count - 1) as u64
            } else {
                0
            },
            deleted_bytes: if self.deleted_bytes >= size {
                (self.deleted_bytes - size) as u64
            } else {
                0
            },
            ..self
        }
    }

    /// The stack after the given actions were pushed, the first one first.
    pub open spec fn after_pushes(self, actions: Seq<TrashActionView>) -> UndoStackView
        decreases actions.len(),
    {
        if actions.len() == 0 {
            self
        } else {
            self.after_pushes(actions.drop_last()).after_push(actions.last())
        }
    }

    /// The stack after `count` pops.
    pub open spec fn after_pops(self, count: nat) -> UndoStackView
        decreases count,
    {
        if count == 0 {
            self
        } else {
            self.after_pops((count - 1) as nat).after_pop()
        }
    }
}

/// The last `count` items of `items`, or all of them where there are fewer.
pub open spec fn most_recent<T>(items: Seq<T>, count: int) -> Seq<T> {
    if count >= items.len() {
        items
    } else {
        items.skip(items.len() - count)
    }
}

/// The history of deletes that can be undone, with the session's counters.
///
/// The stack is changed through `&mut`, so no two operations on it overlap; a
/// caller that shares it between threads keeps it behind a lock.
#[derive(Debug)]
pub struct UndoStack {
    actions: VecDeque<TrashAction>,
    max_size: usize,
    total_deleted_count: u64,
    total_deleted_bytes: u64,
}

impl View for UndoStack {
    type V = UndoStackView;

    closed spec fn view(&self) -> UndoStackView {
        UndoStackView {
            history: Seq::new(self.actions@.len(), |i: int| self.actions@[i]@),
            capacity: self.max_size,
            deleted_count: self.total_deleted_count,
            deleted_bytes: self.total_deleted_bytes,
        }
    }
}

impl UndoStack {
    /// An empty history that keeps the `max_size` most recent actions.
    pub fn new(max_size: usize) -> (stack: Self)
        ensures
            stack@ == UndoStackView::empty(max_size),
    {
        let stack = Self {
            actions: VecDeque::new(),
            max_size,
            total_deleted_count: 0,
            total_deleted_bytes: 0,
        };
        assert(stack@ =~= UndoStackView::empty(max_size));
        stack
    }

    /// Appends `action` to the history. Where the history is full, the
    /// oldest action leaves first.
    pub fn push(&mut self, action: TrashAction)
        ensures
            final(self)@ == old(self)@.after_push(action@),
            old(self)@.bounded() ==> final(self)@.bounded(),
    {
        if self.actions.len() >= self.max_size {
            self.actions.pop_front();
        }
        self.actions.push_back(action);
        assert(self@ =~= old(self)@.after_push(action@));
    }

    /// Takes the most recent action off the history; `None` where the
    /// history is empty.
    pub fn pop(&mut self) -> (popped: Option<TrashAction>)
        ensures
            match popped {
                Some(action) => Some(action@) == old(self)@.top(),
                None => old(self)@.top() is None,
            },
            final(self)@ == old(self)@.after_pop(),
    {
        let popped = self.actions.pop_back();
        assert(self@ =~= old(self)@.after_pop());
        popped
    }

    /// Records a delete of `size` bytes in the session's counters.
    pub fn increment_stats(&mut self, size: u64)
        requires
            old(self)@.can_record(size),
        ensures
            final(self)@ == old(self)@.after_delete(size),
    {
        self.total_deleted_count = self.total_deleted_count + 1;
        self.total_deleted_bytes = self.total_deleted_bytes + size;
        assert(self@ =~= old(self)@.after_delete(size));
    }

    /// Records an undo of `size` bytes in the session's counters, neither of
    /// which goes below zero.
    pub fn decrement_stats(&mut self, size: u64)
        ensures
            final(self)@ == old(self)@.after_undo(size),
    {
        if self.total_deleted_count > 0 {
            self.total_deleted_count = self.total_deleted_count - 1;
        }
        if self.total_deleted_bytes >= size {
            self.total_deleted_bytes = self.total_deleted_bytes - size;
        } else {
            self.total_deleted_bytes = 0;
        }
        assert(self@ =~= old(self)@.after_undo(size));
    }

    /// The session's counters: files deleted, bytes freed.
    pub fn stats(&self) -> (stats: (u64, u64))
        ensures
            stats == (self@.deleted_count, self@.deleted_bytes),
    {
        (self.total_deleted_count, self.total_deleted_bytes)
    }

    /// Tells whether the counters have room for a delete of `size` bytes.
    pub fn can_record(&self, size: u64) -> (room: bool)
        ensures
            room == self@.can_record(size),
    {
        self.total_deleted_count < u64::MAX && self.total_deleted_bytes <= u64::MAX - size
    }
}

/// A history of capacity at least 1 that holds no more actions than its
/// capacity still does so after a push, and the action pushed is its last.
pub proof fn lemma_history_stays_within_capacity(stack: UndoStackView, action: TrashActionView)
    requires
        stack.capacity >= 1,
        stack.history.len() <= stack.capacity,
    ensures
        stack.after_push(action).history.len() <= stack.capacity,
        stack.after_push(action).history.last() == action,
{
}

/// Pushes never let the history grow beyond its limit, and what they change
/// is the history alone.
pub proof fn lemma_pushes_stay_bounded(stack: UndoStackView, actions: Seq<TrashActionView>)
    requires
        stack.bounded(),
    ensures
        stack.after_pushes(actions).bounded(),
        stack.after_pushes(actions).capacity == stack.capacity,
        stack.after_pushes(actions).deleted_count == stack.deleted_count,
        stack.after_pushes(actions).deleted_bytes == stack.deleted_bytes,
    decreases actions.len(),
{
    if actions.len() > 0 {
        lemma_pushes_stay_bounded(stack, actions.drop_last());
    }
}

/// After any run of pushes the history holds the most recent actions, as
/// many as the limit allows, in the order in which they were pushed.
pub proof fn lemma_pushes_keep_most_recent(stack: UndoStackView, actions: Seq<TrashActionView>)
    requires
        stack.bounded(),
    ensures
        stack.after_pushes(actions).history == most_recent(
            stack.history + actions,
            stack.limit(),
        ),
    decreases actions.len(),
{
    if actions.len() == 0 {
        assert(stack.history + actions =~= stack.history);
    } else {
        let earlier = actions.drop_last();
        lemma_pushes_keep_most_recent(stack, earlier);
        lemma_pushes_stay_bounded(stack, earlier);
        let before = stack.after_pushes(earlier);
        assert(stack.history + actions =~= (stack.history + earlier).push(actions.last()));
        assert(before.after_push(actions.last()).history =~= most_recent(
            stack.history + actions,
            stack.limit(),
        ));
    }
}

/// Pushing more actions than fit into an empty stack of capacity at least 1
/// keeps exactly the `capacity` most recent ones.
pub proof fn lemma_eviction_keeps_newest(capacity: usize, actions: Seq<TrashActionView>)
    requires
        capacity >= 1,
        actions.len() >= capacity,
    ensures
        UndoStackView::empty(capacity).after_pushes(actions).history == actions.skip(
            actions.len() - capacity,
        ),
{
    let stack = UndoStackView::empty(capacity);
    lemma_pushes_keep_most_recent(stack, actions);
    assert(stack.history + actions =~= actions);
}

/// Pops return the history from its end: the pop that follows `count`
/// earlier ones returns the action that stands `count` places before the
/// last, and nothing once the history is used up.
pub proof fn lemma_pops_return_latest_first(stack: UndoStackView, count: nat)
    ensures
        stack.after_pops(count).history == stack.history.take(
            if count <= stack.history.len() {
                stack.history.len() - count
            } else {
                0
            },
        ),
        stack.after_pops(count).top() == if count < stack.history.len() {
            Some(stack.history[stack.history.len() - 1 - count])
        } else {
            None
        },
    decreases count,
{
    if count > 0 {
        lemma_pops_return_latest_first(stack, (count - 1) as nat);
    }
    assert(stack.after_pops(count).history =~= stack.history.take(
        if count <= stack.history.len() {
            stack.history.len() - count
        } else {
            0
        },
    ));
}

/// An undo takes one file and `size` bytes off the counters, or as much as
/// they hold: whatever the size, neither counter goes below zero.
pub proof fn lemma_undo_stops_at_zero(stack: UndoStackView, size: u64)
    ensures
        stack.after_undo(size).deleted_count == if stack.deleted_count - 1 >= 0 {
            stack.deleted_count - 1
        } else {
            0
        },
        stack.after_undo(size).deleted_bytes == if stack.deleted_bytes - size >= 0 {
            stack.deleted_bytes - size
        } else {
            0
        },
        stack.after_undo(size).history == stack.history,
        stack.after_undo(size).capacity == stack.capacity,
{
}

/// Recording a delete and then an undo of the same size leaves the counters
/// as they were.
pub proof fn lemma_undo_reverts_delete(stack: UndoStackView, size: u64)
    requires
        stack.can_record(size),
    ensures
        stack.after_delete(size).after_undo(size) == stack,
{
}

} // verus!
