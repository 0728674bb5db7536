//! The decisions of a seeding run: which table to read, when to open, fill and
//! commit its transaction, and when to stop. The caller performs each action
//! and reports its outcome.
use crate::models::Table;
use crate::seed::seed_order_spec;
use vstd::prelude::*;

verus! {

/// Where a run stands within the current table.
#[derive(Debug, Clone, Copy, PartialEq, Eq)]
pub enum Phase {
    Read,
    Begin,
    Execute,
    Commit,
    Done,
    Failed,
}

/// What the caller is to do next.
#[derive(Debug, Clone, Copy, PartialEq, Eq)]
pub enum Action {
    /// Read the table's CSV file and build its batch; report `Loaded(rows)`.
    Read(Table),
    /// Open the table's transaction.
    Begin(Table),
    /// Run the upsert of the batch's row with this index.
    Execute(Table, usize),
    /// Commit the table's transaction.
    Commit(Table),
    /// Every table was seeded.
    Finish,
    /// An action failed: abandon the open transaction, if any, and stop.
    Abort,
}

/// How the last action went.
#[derive(Debug, Clone, Copy, PartialEq, Eq)]
pub enum Outcome {
    Loaded(usize),
    Succeeded,
    Failed,
}

/// A seeding run over the five tables in seeding order.
#[derive(Debug, Clone, Copy, PartialEq, Eq)]
pub struct SeedRun {
    /// The index in seeding order of the current table; the tables before it are committed.
    pub stage: usize,
    /// The number of rows in the current table's batch.
    pub rows: usize,
    /// The index of the next row to run; the rows before it ran without error.
    pub next_row: usize,
    pub phase: Phase,
}

pub open spec fn table_at(i: int) -> Table {
    seed_order_spec()[i]
}

impl SeedRun {
    pub open spec fn wf(&self) -> bool {
        &&& self.stage <= 5
        &&& (self.phase == Phase::Done <==> self.stage == 5)
        &&& self.next_row <= self.rows
        &&& (self.phase == Phase::Begin ==> self.next_row == 0)
        &&& (self.phase == Phase::Execute ==> self.next_row < self.rows)
        &&& (self.phase == Phase::Commit ==> self.next_row == self.rows)
    }

    /// The tables whose batches this run has committed.
    pub open spec fn committed(&self) -> Seq<Table> {
        seed_order_spec().take(self.stage as int)
    }

    pub open spec fn action_spec(&self) -> Action {
        match self.phase {
            Phase::Read => Action::Read(table_at(self.stage as int)),
            Phase::Begin => Action::Begin(table_at(self.stage as int)),
            Phase::Execute => Action::Execute(table_at(self.stage as int), self.next_row),
            Phase::Commit => Action::Commit(table_at(self.stage as int)),
            Phase::Done => Action::Finish,
            Phase::Failed => Action::Abort,
        }
    }

    /// The run after the current action ended with `o`.
    pub open spec fn after(&self, o: Outcome) -> SeedRun {
        match (self.phase, o) {
            (Phase::Read, Outcome::Loaded(n)) => SeedRun {
                rows: n,
                next_row: 0,
                phase: Phase::Begin,
                ..*self
            },
            (Phase::Begin, Outcome::Succeeded) => SeedRun {
                phase: if self.rows == 0 { Phase::Commit } else { Phase::Execute },
                ..*self
            },
            (Phase::Execute, Outcome::Succeeded) => SeedRun {
                next_row: (self.next_row + 1) as usize,
                phase: if self.next_row + 1 == self.rows { Phase::Commit } else { Phase::Execute },
                ..*self
            },
            (Phase::Commit, Outcome::Succeeded) => SeedRun {
                stage: (self.stage + 1) as usize,
                rows: 0,
                next_row: 0,
                phase: if self.stage + 1 == 5 { Phase::Done } else { Phase::Read },
            },
            (Phase::Done, _) => *self,
            _ => SeedRun { phase: Phase::Failed, ..*self },
        }
    }

    /// A run that has seeded nothing yet.
    pub fn new() -> (r: SeedRun)
        ensures
            r.wf(),
            r.stage == 0,
            r.phase == Phase::Read,
            r.committed() == Seq::<Table>::empty(),
    {
        let r = SeedRun { stage: 0, rows: 0, next_row: 0, phase: Phase::Read };
        assert(r.committed() =~= Seq::<Table>::empty());
        r
    }

    /// The next action of the run.
    pub fn action(&self) -> (r: Action)
        requires
            self.wf(),
        ensures
            r == self.action_spec(),
    {
        let t = if self.stage < 5 { table_of(self.stage) } else { Table::Pick };
        match self.phase {
            Phase::Read => Action::Read(t),
            Phase::Begin => Action::Begin(t),
            Phase::Execute => Action::Execute(t, self.next_row),
            Phase::Commit => Action::Commit(t),
            Phase::Done => Action::Finish,
            Phase::Failed => Action::Abort,
        }
    }

    /// Records how the current action went.
    pub fn advance(&mut self, o: Outcome)
        requires
            old(self).wf(),
        ensures
            *final(self) == old(self).after(o),
            final(self).wf(),
    {
        match (self.phase, o) {
            (Phase::Read, Outcome::Loaded(n)) => {
                self.rows = n;
                self.next_row = 0;
                self.phase = Phase::Begin;
            },
            (Phase::Begin, Outcome::Succeeded) => {
                self.phase = if self.rows == 0 { Phase::Commit } else { Phase::Execute };
            },
            (Phase::Execute, Outcome::Succeeded) => {
                self.next_row = self.next_row + 1;
                self.phase = if self.next_row == self.rows { Phase::Commit } else { Phase::Execute };
            },
            (Phase::Commit, Outcome::Succeeded) => {
                self.stage = self.stage + 1;
                self.rows = 0;
                self.next_row = 0;
                self.phase = if self.stage == 5 { Phase::Done } else { Phase::Read };
            },
            (Phase::Done, _) => {},
            _ => {
                self.phase = Phase::Failed;
            },
        }
    }
}

fn table_of(i: usize) -> (r: Table)
    requires
        i < 5,
    ensures
        r == table_at(i as int),
{
    match i {
        0 => Table::Player,
        1 => Table::Team,
        2 => Table::Game,
        3 => Table::Matchup,
        _ => Table::Pick,
    }
}

/// A failure while a table's batch is open stops the run before that batch is
/// committed: the run aborts from then on, whatever is reported, and the
/// committed tables stay those that were committed before the failure.
pub proof fn lemma_failed_batch_not_committed(s: SeedRun, later: Seq<Outcome>)
    requires
        s.wf(),
        s.phase == Phase::Begin || s.phase == Phase::Execute || s.phase == Phase::Commit,
    ensures
        run_all(s.after(Outcome::Failed), later) == s.after(Outcome::Failed),
        s.after(Outcome::Failed).action_spec() == Action::Abort,
        s.after(Outcome::Failed).committed() == s.committed(),
    decreases later.len(),
{
    if later.len() > 0 {
        lemma_failed_batch_not_committed(s, later.drop_last());
    }
}

/// The run after a sequence of outcomes, one per action.
pub open spec fn run_all(s: SeedRun, outcomes: Seq<Outcome>) -> SeedRun
    decreases outcomes.len(),
{
    if outcomes.len() == 0 {
        s
    } else {
        run_all(s, outcomes.drop_last()).after(outcomes.last())
    }
}

/// A table's batch is committed only once every one of its rows ran without
/// error, and committing it extends the committed tables by that table, in
/// seeding order.
pub proof fn lemma_commit_after_all_rows(s: SeedRun)
    requires
        s.wf(),
        s.action_spec() is Commit,
    ensures
        s.next_row == s.rows,
        s.after(Outcome::Succeeded).committed() == s.committed().push(table_at(s.stage as int)),
{
    assert(s.after(Outcome::Succeeded).committed() =~= s.committed().push(table_at(s.stage as int)));
}

} // verus!
