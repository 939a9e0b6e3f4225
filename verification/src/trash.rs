//! Reversible deletes. A delete stages a copy of the file before the file
//! itself goes to the trash of the operating system, and an undo brings the
//! staged copy back.
//!
//! The file operations are the caller's. Each value here stands for a point
//! in a delete or an undo; the caller reports how an operation went and gets
//! the next point, so that nothing is trashed that was not staged and nothing
//! is recorded that did not happen.

use vstd::prelude::*;
use vstd::string::StringExecFns;
use crate::classifier::spec_is_hidden;
use crate::error::ExplorerError;
use crate::undo_action::{TrashAction, TrashActionView, UndoStack, UndoStackView};

verus! {

/// The character that writes the digit `d`.
pub open spec fn digit(d: nat) -> char {
    ('0' as int + d) as char
}

/// The decimal numeral of `n`, without leading zeros.
pub open spec fn decimal(n: nat) -> Seq<char>
    decreases n,
{
    if n < 10 {
        seq![digit(n)]
    } else {
        decimal(n / 10).push(digit(n % 10))
    }
}

/// The name of the staged copy of a file: the timestamp of the delete as a
/// decimal numeral, a `_`, and the name of the file.
pub open spec fn staging_name(file_name: Seq<char>, timestamp: u64) -> Seq<char> {
    decimal(timestamp as nat) + seq!['_'] + file_name
}

/// `c` is one of the digits `0` to `9`.
pub open spec fn is_digit(c: char) -> bool {
    '0' as int <= c as int <= '9' as int
}

/// A decimal numeral holds digits only, and at least one.
pub proof fn lemma_decimal_holds_digits(n: nat)
    ensures
        decimal(n).len() >= 1,
        forall|i: int| 0 <= i < decimal(n).len() ==> is_digit(#[trigger] decimal(n)[i]),
    decreases n,
{
    if n >= 10 {
        lemma_decimal_holds_digits(n / 10);
    }
}

/// Different numbers have different numerals.
pub proof fn lemma_decimal_tells_numbers_apart(a: nat, b: nat)
    requires
        decimal(a) == decimal(b),
    ensures
        a == b,
    decreases a,
{
    lemma_decimal_holds_digits(a / 10);
    lemma_decimal_holds_digits(b / 10);
    if a < 10 && b < 10 {
        assert(decimal(a)[0] == digit(a));
        assert(decimal(b)[0] == digit(b));
        assert(digit(a) as int == '0' as int + a);
        assert(digit(b) as int == '0' as int + b);
    } else if a >= 10 && b >= 10 {
        assert(decimal(a).drop_last() =~= decimal(a / 10));
        assert(decimal(b).drop_last() =~= decimal(b / 10));
        assert(decimal(a).last() == digit(a % 10));
        assert(decimal(b).last() == digit(b % 10));
        assert(digit(a % 10) as int == '0' as int + a % 10);
        assert(digit(b % 10) as int == '0' as int + b % 10);
        lemma_decimal_tells_numbers_apart(a / 10, b / 10);
    } else {
        assert(decimal(a).len() != decimal(b).len());
    }
}

/// Staging names do not collide: two deletes share a staging name only if
/// they share the file name and the timestamp.
pub proof fn lemma_staging_names_tell_deletes_apart(
    first_name: Seq<char>,
    first_timestamp: u64,
    second_name: Seq<char>,
    second_timestamp: u64,
)
    requires
        staging_name(first_name, first_timestamp) == staging_name(second_name, second_timestamp),
    ensures
        first_name == second_name,
        first_timestamp == second_timestamp,
{
    let first = decimal(first_timestamp as nat);
    let second = decimal(second_timestamp as nat);
    let staged = staging_name(first_name, first_timestamp);
    lemma_decimal_holds_digits(first_timestamp as nat);
    lemma_decimal_holds_digits(second_timestamp as nat);
    assert(staged[first.len() as int] == '_');
    assert(staging_name(second_name, second_timestamp)[second.len() as int] == '_');
    if first.len() < second.len() {
        assert(staged[first.len() as int] == second[first.len() as int]);
    } else if second.len() < first.len() {
        assert(staged[second.len() as int] == first[second.len() as int]);
    } else {
        assert(first =~= staged.take(first.len() as int));
        assert(second =~= staged.take(second.len() as int));
        lemma_decimal_tells_numbers_apart(first_timestamp as nat, second_timestamp as nat);
        assert(first_name =~= staged.skip(first.len() as int + 1));
        assert(second_name =~= staged.skip(second.len() as int + 1));
    }
}

/// The numeral of one digit.
fn digit_text(d: u64) -> (text: &'static str)
    requires
        d < 10,
    ensures
        text@ == seq![digit(d as nat)],
{
    proof {
        reveal_strlit("0");
        reveal_strlit("1");
        reveal_strlit("2");
        reveal_strlit("3");
        reveal_strlit("4");
        reveal_strlit("5");
        reveal_strlit("6");
        reveal_strlit("7");
        reveal_strlit("8");
        reveal_strlit("9");
    }
    let text = match d {
        0 => "0",
        1 => "1",
        2 => "2",
        3 => "3",
        4 => "4",
        5 => "5",
        6 => "6",
        7 => "7",
        8 => "8",
        _ => "9",
    };
    assert(text@ =~= seq![digit(d as nat)]);
    text
}

/// Appends the decimal numeral of `n` to `text`.
fn append_decimal(text: &mut String, n: u64)
    ensures
        final(text)@ == old(text)@ + decimal(n as nat),
    decreases n,
{
    if n >= 10 {
        append_decimal(text, n / 10);
    }
    text.append(digit_text(n % 10));
    assert(text@ =~= old(text)@ + decimal(n as nat));
}

/// The name under which the copy of `original_name`, deleted at `timestamp`,
/// lies in the staging directory.
pub fn generate_staging_name(original_name: &str, timestamp: u64) -> (name: String)
    ensures
        name@ == staging_name(original_name@, timestamp),
{
    proof {
        reveal_strlit("_");
    }
    let mut name = String::new();
    append_decimal(&mut name, timestamp);
    name.append("_");
    name.append(original_name);
    assert(name@ =~= staging_name(original_name@, timestamp));
    name
}

/// The name of the staging directory inside the directory of the
/// application's data. The name is hidden, so no scan lists it.
pub fn staging_dir_name() -> (name: &'static str)
    ensures
        name@ == ".undo_staging"@,
        spec_is_hidden(name@),
{
    proof {
        reveal_strlit(".undo_staging");
    }
    ".undo_staging"
}

/// A delete that was planned. Nothing on disk has changed.
#[derive(Debug)]
pub struct PendingDelete {
    action: TrashAction,
}

/// A delete whose copy lies in the staging directory. The file itself is
/// still in its place.
#[derive(Debug)]
pub struct StagedDelete {
    action: TrashAction,
}

impl View for PendingDelete {
    type V = TrashActionView;

    closed spec fn view(&self) -> TrashActionView {
        self.action@
    }
}

impl View for StagedDelete {
    type V = TrashActionView;

    closed spec fn view(&self) -> TrashActionView {
        self.action@
    }
}

/// Plans the delete of the file at `path`, from what was read of it: its
/// size, or `None` where nothing is at the path; and its name, or `None`
/// where the path has no final name that is text. `timestamp` is the time of
/// the delete in seconds since the epoch.
pub fn plan_delete(
    path: String,
    size: Option<u64>,
    file_name: Option<String>,
    timestamp: u64,
) -> (plan: Result<PendingDelete, ExplorerError>)
    ensures
        match (size, file_name) {
            (None, _) => plan == Err::<PendingDelete, ExplorerError>(ExplorerError::NotFound),
            (Some(_), None) => plan == Err::<PendingDelete, ExplorerError>(
                ExplorerError::InvalidName,
            ),
            (Some(original_size), Some(name)) => plan is Ok && plan->Ok_0@ == (TrashActionView {
                file_path: path@,
                file_name: name@,
                original_size,
                trash_timestamp: timestamp,
            }),
        },
{
    match size {
        None => Err(ExplorerError::NotFound),
        Some(original_size) => match file_name {
            None => Err(ExplorerError::InvalidName),
            Some(name) => Ok(
                PendingDelete {
                    action: TrashAction {
                        file_path: path,
                        file_name: name,
                        original_size,
                        trash_timestamp: timestamp,
                    },
                },
            ),
        },
    }
}

impl PendingDelete {
    /// The action that the delete will record.
    pub fn action(&self) -> (action: &TrashAction)
        ensures
            action@ == self@,
    {
        &self.action
    }

    /// The name under which the copy is to lie in the staging directory.
    pub fn staging_name(&self) -> (name: String)
        ensures
            name@ == staging_name(self@.file_name, self@.trash_timestamp),
    {
        generate_staging_name(self.action.file_name.as_str(), self.action.trash_timestamp)
    }

    /// Takes the report of the copy into the staging directory. Without a
    /// copy the delete ends here, and the file stays untouched.
    pub fn staged(self, copied: bool) -> (next: Result<StagedDelete, ExplorerError>)
        ensures
            copied ==> next is Ok && next->Ok_0@ == self@,
            !copied ==> next == Err::<StagedDelete, ExplorerError>(ExplorerError::StagingFailed),
    {
        if copied {
            Ok(StagedDelete { action: self.action })
        } else {
            Err(ExplorerError::StagingFailed)
        }
    }
}

impl StagedDelete {
    /// The action that the delete will record.
    pub fn action(&self) -> (action: &TrashAction)
        ensures
            action@ == self@,
    {
        &self.action
    }

    /// The name under which the copy lies in the staging directory.
    pub fn staging_name(&self) -> (name: String)
        ensures
            name@ == staging_name(self@.file_name, self@.trash_timestamp),
    {
        generate_staging_name(self.action.file_name.as_str(), self.action.trash_timestamp)
    }

    /// Takes the report of the move of the file to the trash. A move
    /// that happened is pushed onto the history and counted; one that failed
    /// leaves the stack as it was.
    pub fn trashed(self, moved: bool, stack: &mut UndoStack) -> (done: Result<
        TrashAction,
        ExplorerError,
    >)
        requires
            moved ==> old(stack)@.can_record(self@.original_size),
        ensures
            moved ==> done is Ok && done->Ok_0@ == self@ && final(stack)@ == old(
                stack,
            )@.after_push(self@).after_delete(self@.original_size),
            !moved ==> done == Err::<TrashAction, ExplorerError>(ExplorerError::TrashFailed)
                && final(stack)@ == old(stack)@,
    {
        if moved {
            stack.push(self.action.clone());
            stack.increment_stats(self.action.original_size);
            Ok(self.action)
        } else {
            Err(ExplorerError::TrashFailed)
        }
    }
}

/// What was read of the places that a restore touches.
#[derive(Debug, Clone, Copy, PartialEq, Eq)]
pub struct RestoreProbe {
    /// Whether the staged copy exists.
    pub staged_exists: bool,
    /// Whether the directory that held the file exists; `None` where the
    /// path of the file has no parent.
    pub parent_exists: Option<bool>,
    /// Whether anything stands at the path where the file stood.
    pub target_exists: bool,
}

impl RestoreProbe {
    /// Why the restore cannot go on, if it cannot: the staged copy is
    /// missed first, then the directory, then a free place for the file.
    pub open spec fn refusal(self) -> Option<ExplorerError> {
        if !self.staged_exists {
            Some(ExplorerError::StagingMissing)
        } else if self.parent_exists == Some(false) {
            Some(ExplorerError::TargetDirGone)
        } else if self.target_exists {
            Some(ExplorerError::TargetExists)
        } else {
            None
        }
    }
}

/// What the caller does next to bring a staged copy back.
#[derive(Debug, Clone, Copy, PartialEq, Eq, Structural)]
pub enum RestoreStep {
    /// Move the staged copy to the path where the file stood.
    Rename,
    /// The move failed: copy the staged copy to that path.
    Copy,
    /// The copy is made: remove the staged copy.
    RemoveStaged,
    /// The file is back and the staged copy is gone.
    Restored,
    /// The copy or the removal failed.
    Failed,
}

impl RestoreStep {
    /// The step that follows, given how this one went.
    pub open spec fn spec_after(self, succeeded: bool) -> RestoreStep {
        match self {
            RestoreStep::Rename => if succeeded {
                RestoreStep::Restored
            } else {
                RestoreStep::Copy
            },
            RestoreStep::Copy => if succeeded {
                RestoreStep::RemoveStaged
            } else {
                RestoreStep::Failed
            },
            RestoreStep::RemoveStaged => if succeeded {
                RestoreStep::Restored
            } else {
                RestoreStep::Failed
            },
            RestoreStep::Restored => RestoreStep::Restored,
            RestoreStep::Failed => RestoreStep::Failed,
        }
    }

    /// The step that follows, given how this one went. A restore that has
    /// ended stays as it is.
    pub fn after(self, succeeded: bool) -> (next: RestoreStep)
        ensures
            next == self.spec_after(succeeded),
    {
        match self {
            RestoreStep::Rename => if succeeded {
                RestoreStep::Restored
            } else {
                RestoreStep::Copy
            },
            RestoreStep::Copy => if succeeded {
                RestoreStep::RemoveStaged
            } else {
                RestoreStep::Failed
            },
            RestoreStep::RemoveStaged => if succeeded {
                RestoreStep::Restored
            } else {
                RestoreStep::Failed
            },
            RestoreStep::Restored => RestoreStep::Restored,
            RestoreStep::Failed => RestoreStep::Failed,
        }
    }
}

impl RestoreStep {
    /// The restore has ended, well or badly.
    pub open spec fn is_final(self) -> bool {
        self == RestoreStep::Restored || self == RestoreStep::Failed
    }
}

/// A restore ends within three reports, and it ends well exactly where the
/// move succeeded, or else the copy and the removal of the staged copy both
/// did. Once ended it stays as it is.
pub proof fn lemma_restore_ends(moved: bool, copied: bool, removed: bool, more: bool)
    ensures
        ({
            let end = RestoreStep::Rename.spec_after(moved).spec_after(copied).spec_after(
                removed,
            );
            &&& end.is_final()
            &&& end == RestoreStep::Restored <==> moved || (copied && removed)
            &&& end.spec_after(more) == end
            &&& moved ==> RestoreStep::Rename.spec_after(moved) == RestoreStep::Restored
        }),
{
}

/// An undo whose action has left the history. Nothing on disk has changed.
#[derive(Debug)]
pub struct PendingRestore {
    action: TrashAction,
}

/// An undo that found its places in order, and how far the restore has come.
#[derive(Debug)]
pub struct ActiveRestore {
    action: TrashAction,
    step: RestoreStep,
}

/// The mathematical value of an [`ActiveRestore`].
pub struct RestoreProgress {
    pub action: TrashActionView,
    pub step: RestoreStep,
}

impl View for PendingRestore {
    type V = TrashActionView;

    closed spec fn view(&self) -> TrashActionView {
        self.action@
    }
}

impl View for ActiveRestore {
    type V = RestoreProgress;

    closed spec fn view(&self) -> RestoreProgress {
        RestoreProgress { action: self.action@, step: self.step }
    }
}

/// Starts an undo: takes the most recent action off the history. `None`
/// says that there is nothing to undo, which is no failure.
pub fn begin_undo(stack: &mut UndoStack) -> (pending: Option<PendingRestore>)
    ensures
        match pending {
            Some(p) => Some(p@) == old(stack)@.top(),
            None => old(stack)@.top() is None,
        },
        final(stack)@ == old(stack)@.after_pop(),
{
    match stack.pop() {
        Some(action) => Some(PendingRestore { action }),
        None => None,
    }
}

impl PendingRestore {
    /// The action that is being undone.
    pub fn action(&self) -> (action: &TrashAction)
        ensures
            action@ == self@,
    {
        &self.action
    }

    /// The name under which the staged copy lies in the staging directory.
    pub fn staging_name(&self) -> (name: String)
        ensures
            name@ == staging_name(self@.file_name, self@.trash_timestamp),
    {
        generate_staging_name(self.action.file_name.as_str(), self.action.trash_timestamp)
    }

    /// Judges what was read of the staged copy and of the path where the
    /// file stood. The restore goes on only where the copy is there, the
    /// directory is there, and nothing stands in the file's place.
    pub fn check(self, probe: RestoreProbe) -> (ready: Result<ActiveRestore, ExplorerError>)
        ensures
            match probe.refusal() {
                Some(error) => ready == Err::<ActiveRestore, ExplorerError>(error),
                None => ready is Ok && ready->Ok_0@ == (RestoreProgress {
                    action: self@,
                    step: RestoreStep::Rename,
                }),
            },
    {
        if !probe.staged_exists {
            return Err(ExplorerError::StagingMissing);
        }
        match probe.parent_exists {
            Some(exists) => {
                if !exists {
                    return Err(ExplorerError::TargetDirGone);
                }
            },
            None => {},
        }
        if probe.target_exists {
            return Err(ExplorerError::TargetExists);
        }
        Ok(ActiveRestore { action: self.action, step: RestoreStep::Rename })
    }
}

impl ActiveRestore {
    /// The action that is being undone.
    pub fn action(&self) -> (action: &TrashAction)
        ensures
            action@ == self@.action,
    {
        &self.action
    }

    /// The name under which the staged copy lies in the staging directory.
    pub fn staging_name(&self) -> (name: String)
        ensures
            name@ == staging_name(self@.action.file_name, self@.action.trash_timestamp),
    {
        generate_staging_name(self.action.file_name.as_str(), self.action.trash_timestamp)
    }

    /// What to do next.
    pub fn step(&self) -> (step: RestoreStep)
        ensures
            step == self@.step,
    {
        self.step
    }

    /// Takes the report of the step that was due.
    pub fn performed(self, succeeded: bool) -> (next: ActiveRestore)
        ensures
            next@ == (RestoreProgress {
                action: self@.action,
                step: self@.step.spec_after(succeeded),
            }),
    {
        ActiveRestore { action: self.action, step: self.step.after(succeeded) }
    }

    /// Ends the undo. A restore that reached [`RestoreStep::Restored`] is
    /// taken off the session's counters and its action returned; any other
    /// ends in [`ExplorerError::RestoreFailed`] and leaves the stack as it
    /// was.
    pub fn finish(self, stack: &mut UndoStack) -> (done: Result<TrashAction, ExplorerError>)
        ensures
            self@.step == RestoreStep::Restored ==> done is Ok && done->Ok_0@ == self@.action
                && final(stack)@ == old(stack)@.after_undo(self@.action.original_size),
            self@.step != RestoreStep::Restored ==> done == Err::<TrashAction, ExplorerError>(
                ExplorerError::RestoreFailed,
            ) && final(stack)@ == old(stack)@,
    {
        match self.step {
            RestoreStep::Restored => {
                stack.decrement_stats(self.action.original_size);
                Ok(self.action)
            },
            _ => Err(ExplorerError::RestoreFailed),
        }
    }
}

/// A delete followed at once by its undo returns the action that was
/// deleted and leaves the session's counters as they were before the delete.
/// The history is as before too, unless the delete had to evict its oldest
/// action.
pub proof fn lemma_undo_reverts_delete_in_stack(stack: UndoStackView, action: TrashActionView)
    requires
        stack.can_record(action.original_size),
    ensures
        ({
            let deleted = stack.after_push(action).after_delete(action.original_size);
            let undone = deleted.after_pop().after_undo(action.original_size);
            &&& deleted.top() == Some(action)
            &&& undone.deleted_count == stack.deleted_count
            &&& undone.deleted_bytes == stack.deleted_bytes
            &&& undone.capacity == stack.capacity
            &&& undone.history == if 0 < stack.history.len() && stack.capacity
                <= stack.history.len() {
                stack.history.drop_first()
            } else {
                stack.history
            }
        }),
{
    let deleted = stack.after_push(action).after_delete(action.original_size);
    let undone = deleted.after_pop().after_undo(action.original_size);
    assert(undone.history =~= if 0 < stack.history.len() && stack.capacity <= stack.history.len() {
        stack.history.drop_first()
    } else {
        stack.history
    });
}

} // verus!
