use vstd::prelude::*;
use crate::confirm::{affirmative, is_affirmative};
use crate::execution::{outcome_of, views_of, ActionOutcome, Execution, PendingAction};
use crate::names::{valid_table_name, NameError, TableName};
use crate::reconcile::{
    all_stems_valid, all_valid, definition_names, missing, names_of, parse_names, stems_of,
    texts_of, to_create, to_drop,
};
use crate::statements::drop_statement_text;

verus! {

/// What the operator asked for: create the missing tables, or drop tables.
/// With a name, only that table is meant and no confirmation is asked.
#[derive(Debug)]
pub enum Command {
    Apply { name: Option<String> },
    Remove { name: Option<String> },
}

/// Which way a session changes the database.
#[derive(Debug, Clone, Copy, PartialEq, Eq, Structural)]
pub enum Mode {
    Apply,
    Remove,
}

/// What a session waits for next.
#[derive(Debug, Clone, Copy, PartialEq, Eq, Structural)]
pub enum Phase {
    AwaitingTables,
    AwaitingListing,
    AwaitingAnswer,
    AwaitingDefinitions,
    Running,
    Finished,
}

/// How a session ended.
#[derive(Debug)]
pub enum Conclusion {
    /// Every action succeeded.
    Done,
    /// There was nothing to create or drop.
    NothingToDo,
    /// The operator declined; nothing was changed.
    Aborted,
    /// Some actions failed; these are their outcomes, in the order they finished.
    Failed { failures: Vec<ActionOutcome> },
    /// A table name broke the naming rules; nothing was changed.
    Refused { error: NameError },
}

/// The work a session hands to its driver; each request but the last is
/// answered by the matching event.
#[derive(Debug)]
pub enum Request {
    /// Read the names of the tables in the database.
    QueryTables,
    /// List the file names in the definitions directory.
    ListDefinitions,
    /// Show these tables and read one line of answer.
    Confirm { tables: Vec<TableName> },
    /// Read the definition file of each of these tables, in this order.
    ReadDefinitions { tables: Vec<TableName> },
    /// Run all these statements concurrently and report each completion by
    /// its index.
    Execute { statements: Vec<String> },
    /// Some statements are still running.
    Wait,
    /// The session is over.
    Finish { conclusion: Conclusion },
}

/// Whether `r` asks to run exactly the guarded drop statements of `tables`.
pub open spec fn executes_drops(r: Request, tables: Seq<Seq<char>>) -> bool {
    r matches Request::Execute { statements } && statements@.len() == tables.len() && forall|i: int|
        0 <= i < tables.len() ==> #[trigger] statements@[i]@ == drop_statement_text(tables[i])
}

/// Whether `actions` drops exactly `tables`, in order.
pub open spec fn drops_of(actions: Seq<PendingAction>, tables: Seq<Seq<char>>) -> bool {
    actions.len() == tables.len() && forall|i: int|
        0 <= i < tables.len() ==> #[trigger] actions[i] is Drop && actions[i].table_of()@
            == tables[i]
}

/// Whether `actions` creates exactly `tables` from the texts `ddls`, in order.
pub open spec fn creates_of(
    actions: Seq<PendingAction>,
    tables: Seq<Seq<char>>,
    ddls: Seq<Seq<char>>,
) -> bool {
    actions.len() == tables.len() && actions.len() == ddls.len() && forall|i: int|
        0 <= i < tables.len() ==> #[trigger] actions[i] is Create && actions[i].table_of()@
            == tables[i] && actions[i].statement_text() == ddls[i]
}

/// Whether `r` ends the session because a table name was refused.
pub open spec fn finishes_refused(r: Request) -> bool {
    r matches Request::Finish { conclusion: Conclusion::Refused { .. } }
}

/// Drop actions for the given tables, in order.
pub fn drop_actions(tables: &Vec<TableName>) -> (r: Vec<PendingAction>)
    ensures
        drops_of(r@, names_of(tables@)),
{
    let mut r: Vec<PendingAction> = Vec::new();
    let mut i: usize = 0;
    while i < tables.len()
        invariant
            i <= tables@.len(),
            r@.len() == i,
            forall|j: int| 0 <= j < i ==> #[trigger] r@[j] is Drop && r@[j].table_of()@ == tables@[j]@,
        decreases tables@.len() - i,
    {
        r.push(PendingAction::Drop { table: tables[i].duplicate() });
        i = i + 1;
    }
    r
}

/// Create actions for the given tables with their definition texts, in order.
pub fn create_actions(tables: &Vec<TableName>, ddls: &Vec<String>) -> (r: Vec<PendingAction>)
    requires
        tables@.len() == ddls@.len(),
    ensures
        creates_of(r@, names_of(tables@), texts_of(ddls@)),
{
    let mut r: Vec<PendingAction> = Vec::new();
    let mut i: usize = 0;
    while i < tables.len()
        invariant
            i <= tables@.len(),
            tables@.len() == ddls@.len(),
            r@.len() == i,
            forall|j: int|
                0 <= j < i ==> #[trigger] r@[j] is Create && r@[j].table_of()@ == tables@[j]@
                    && r@[j].statement_text() == ddls@[j]@,
        decreases tables@.len() - i,
    {
        r.push(PendingAction::Create { table: tables[i].duplicate(), ddl: ddls[i].clone() });
        i = i + 1;
    }
    r
}

/// One invocation of the tool, from the first catalog read to the final
/// report. It makes every decision; its driver only does what it requests.
#[derive(Debug)]
pub struct Session {
    mode: Mode,
    phase: Phase,
    existing: Vec<TableName>,
    pending: Vec<TableName>,
    confirmed: bool,
    run: Execution,
}

impl Session {
    pub closed spec fn mode_view(&self) -> Mode {
        self.mode
    }

    pub closed spec fn phase_view(&self) -> Phase {
        self.phase
    }

    /// The tables found in the database, in catalog order.
    pub closed spec fn existing_view(&self) -> Seq<Seq<char>> {
        names_of(self.existing@)
    }

    /// The tables the session means to create or drop.
    pub closed spec fn pending_view(&self) -> Seq<Seq<char>> {
        names_of(self.pending@)
    }

    /// Whether the operator approved the change or named its one target.
    pub closed spec fn confirmed_view(&self) -> bool {
        self.confirmed
    }

    /// The bookkeeping of the statements that were handed out.
    pub closed spec fn run_view(&self) -> Execution {
        self.run
    }

    /// Statements run only after approval, and their bookkeeping stays sound.
    pub open spec fn wf(&self) -> bool {
        &&& self.phase_view() == Phase::Running ==> self.confirmed_view()
            && self.run_view().wf()
        &&& self.phase_view() == Phase::AwaitingDefinitions ==> self.confirmed_view()
    }

    /// Starts a session for a command.
    pub fn start(command: Command) -> (r: (Session, Request))
        ensures
            r.0.wf(),
            match command {
                Command::Apply { name: None } => r.0.mode_view() == Mode::Apply && r.0.phase_view()
                    == Phase::AwaitingTables && !r.0.confirmed_view() && r.1 is QueryTables,
                Command::Remove { name: None } => r.0.mode_view() == Mode::Remove
                    && r.0.phase_view() == Phase::AwaitingTables && !r.0.confirmed_view()
                    && r.1 is QueryTables,
                Command::Apply { name: Some(n) } => r.0.mode_view() == Mode::Apply && if valid_table_name(n@) {
                    &&& r.0.phase_view() == Phase::AwaitingDefinitions
                    &&& r.0.confirmed_view()
                    &&& r.0.pending_view() == seq![n@]
                    &&& r.1 matches Request::ReadDefinitions { tables } && names_of(tables@)
                        == seq![n@]
                } else {
                    r.0.phase_view() == Phase::Finished && finishes_refused(r.1)
                },
                Command::Remove { name: Some(n) } => r.0.mode_view() == Mode::Remove && if valid_table_name(n@) {
                    &&& r.0.phase_view() == Phase::Running
                    &&& r.0.confirmed_view()
                    &&& r.0.pending_view() == seq![n@]
                    &&& drops_of(r.0.run_view().actions_view(), seq![n@])
                    &&& r.0.run_view().outcomes_view().len() == 0
                    &&& !r.0.run_view().done_view()[0]
                    &&& executes_drops(r.1, seq![n@])
                } else {
                    r.0.phase_view() == Phase::Finished && finishes_refused(r.1)
                },
            },
    {
        let (mode, name) = match command {
            Command::Apply { name } => (Mode::Apply, name),
            Command::Remove { name } => (Mode::Remove, name),
        };
        let mut s = Session {
            mode,
            phase: Phase::AwaitingTables,
            existing: Vec::new(),
            pending: Vec::new(),
            confirmed: false,
            run: Execution::new(Vec::new()),
        };
        match name {
            None => (s, Request::QueryTables),
            Some(n) => match TableName::parse(n.as_str()) {
                Err(error) => {
                    s.phase = Phase::Finished;
                    (s, Request::Finish { conclusion: Conclusion::Refused { error } })
                },
                Ok(t) => {
                    s.pending.push(t);
                    s.confirmed = true;
                    assert(names_of(s.pending@) =~= seq![n@]);
                    let r = s.begin();
                    (s, r)
                },
            },
        }
    }

    /// Moves from approval to work: definitions to read for a creation, or
    /// drop statements to run.
    fn begin(&mut self) -> (r: Request)
        requires
            old(self).confirmed,
        ensures
            final(self).wf(),
            final(self).confirmed,
            final(self).mode == old(self).mode,
            final(self).pending == old(self).pending,
            old(self).mode == Mode::Apply ==> {
                &&& final(self).phase == Phase::AwaitingDefinitions
                &&& r matches Request::ReadDefinitions { tables } && names_of(tables@) == names_of(
                    old(self).pending@,
                )
            },
            old(self).mode == Mode::Remove ==> {
                &&& final(self).phase == Phase::Running
                &&& drops_of(final(self).run.actions_view(), names_of(old(self).pending@))
                &&& final(self).run.outcomes_view().len() == 0
                &&& forall|i: int|
                    0 <= i < old(self).pending@.len() ==> !#[trigger] final(self).run.done_view()[i]
                &&& executes_drops(r, names_of(old(self).pending@))
            },
    {
        match self.mode {
            Mode::Apply => {
                self.phase = Phase::AwaitingDefinitions;
                Request::ReadDefinitions { tables: to_drop(&self.pending) }
            },
            Mode::Remove => {
                let actions = drop_actions(&self.pending);
                self.run = Execution::new(actions);
                self.phase = Phase::Running;
                let statements = self.run.statements();
                proof {
                    assert forall|i: int| 0 <= i < self.pending@.len() implies #[trigger] statements@[i]@
                        == drop_statement_text(names_of(self.pending@)[i]) by {
                        assert(self.run.actions_view()[i] is Drop);
                    }
                }
                Request::Execute { statements }
            },
        }
    }

    /// Takes the names of the tables found in the database.
    pub fn on_tables(&mut self, tables: &Vec<String>) -> (r: Request)
        requires
            old(self).wf(),
            old(self).phase_view() == Phase::AwaitingTables,
        ensures
            final(self).wf(),
            final(self).mode_view() == old(self).mode_view(),
            !final(self).confirmed_view(),
            !all_valid(texts_of(tables@)) ==> final(self).phase_view() == Phase::Finished
                && finishes_refused(r),
            all_valid(texts_of(tables@)) && old(self).mode_view() == Mode::Apply ==> {
                &&& final(self).phase_view() == Phase::AwaitingListing
                &&& final(self).existing_view() == texts_of(tables@)
                &&& r is ListDefinitions
            },
            all_valid(texts_of(tables@)) && old(self).mode_view() == Mode::Remove ==> if tables@.len()
                == 0 {
                final(self).phase_view() == Phase::Finished
                    && r matches Request::Finish { conclusion: Conclusion::NothingToDo }
            } else {
                &&& final(self).phase_view() == Phase::AwaitingAnswer
                &&& final(self).pending_view() == texts_of(tables@)
                &&& r matches Request::Confirm { tables: t } && names_of(t@) == texts_of(tables@)
            },
    {
        self.confirmed = false;
        match parse_names(tables) {
            Err(error) => {
                self.phase = Phase::Finished;
                Request::Finish { conclusion: Conclusion::Refused { error } }
            },
            Ok(existing) => match self.mode {
                Mode::Apply => {
                    self.existing = existing;
                    self.phase = Phase::AwaitingListing;
                    Request::ListDefinitions
                },
                Mode::Remove => {
                    if existing.len() == 0 {
                        self.phase = Phase::Finished;
                        Request::Finish { conclusion: Conclusion::NothingToDo }
                    } else {
                        self.pending = to_drop(&existing);
                        self.existing = existing;
                        self.phase = Phase::AwaitingAnswer;
                        Request::Confirm { tables: to_drop(&self.pending) }
                    }
                },
            },
        }
    }

    /// Takes the file names found in the definitions directory.
    pub fn on_listing(&mut self, files: &Vec<String>) -> (r: Request)
        requires
            old(self).wf(),
            old(self).phase_view() == Phase::AwaitingListing,
        ensures
            final(self).wf(),
            final(self).mode_view() == old(self).mode_view(),
            !final(self).confirmed_view(),
            !all_stems_valid(texts_of(files@)) ==> final(self).phase_view() == Phase::Finished
                && finishes_refused(r),
            all_stems_valid(texts_of(files@)) ==> ({
                let m = missing(stems_of(texts_of(files@)), old(self).existing_view());
                if m.len() == 0 {
                    final(self).phase_view() == Phase::Finished
                        && r matches Request::Finish { conclusion: Conclusion::NothingToDo }
                } else {
                    &&& final(self).phase_view() == Phase::AwaitingAnswer
                    &&& final(self).pending_view() == m
                    &&& r matches Request::Confirm { tables } && names_of(tables@) == m
                }
            }),
    {
        self.confirmed = false;
        match definition_names(files) {
            Err(error) => {
                self.phase = Phase::Finished;
                Request::Finish { conclusion: Conclusion::Refused { error } }
            },
            Ok(defs) => {
                let todo = to_create(&defs, &self.existing);
                if todo.len() == 0 {
                    self.phase = Phase::Finished;
                    Request::Finish { conclusion: Conclusion::NothingToDo }
                } else {
                    self.pending = todo;
                    self.phase = Phase::AwaitingAnswer;
                    Request::Confirm { tables: to_drop(&self.pending) }
                }
            },
        }
    }

    /// Takes the operator's answer. Anything but an approval ends the session
    /// with nothing changed.
    pub fn on_answer(&mut self, line: &str) -> (r: Request)
        requires
            old(self).wf(),
            old(self).phase_view() == Phase::AwaitingAnswer,
        ensures
            final(self).wf(),
            final(self).mode_view() == old(self).mode_view(),
            final(self).pending_view() == old(self).pending_view(),
            !is_affirmative(line@) ==> {
                &&& final(self).phase_view() == Phase::Finished
                &&& !final(self).confirmed_view()
                &&& r matches Request::Finish { conclusion: Conclusion::Aborted }
            },
            is_affirmative(line@) ==> final(self).confirmed_view(),
            is_affirmative(line@) && old(self).mode_view() == Mode::Apply ==> {
                &&& final(self).phase_view() == Phase::AwaitingDefinitions
                &&& r matches Request::ReadDefinitions { tables } && names_of(tables@)
                    == old(self).pending_view()
            },
            is_affirmative(line@) && old(self).mode_view() == Mode::Remove ==> {
                &&& final(self).phase_view() == Phase::Running
                &&& drops_of(final(self).run_view().actions_view(), old(self).pending_view())
                &&& final(self).run_view().outcomes_view().len() == 0
                &&& forall|i: int|
                    0 <= i < old(self).pending_view().len()
                        ==> !#[trigger] final(self).run_view().done_view()[i]
                &&& executes_drops(r, old(self).pending_view())
            },
    {
        if !affirmative(line) {
            self.confirmed = false;
            self.phase = Phase::Finished;
            return Request::Finish { conclusion: Conclusion::Aborted };
        }
        self.confirmed = true;
        self.begin()
    }

    /// Takes the text of each pending table's definition file, in the order
    /// they were requested, and hands out the statements to run.
    pub fn on_definitions(&mut self, ddls: &Vec<String>) -> (r: Request)
        requires
            old(self).wf(),
            old(self).phase_view() == Phase::AwaitingDefinitions,
            ddls@.len() == old(self).pending_view().len(),
        ensures
            final(self).wf(),
            final(self).mode_view() == old(self).mode_view(),
            final(self).confirmed_view(),
            final(self).phase_view() == Phase::Running,
            creates_of(final(self).run_view().actions_view(), old(self).pending_view(), texts_of(ddls@)),
            final(self).run_view().outcomes_view().len() == 0,
            forall|i: int|
                0 <= i < ddls@.len() ==> !#[trigger] final(self).run_view().done_view()[i],
            r matches Request::Execute { statements } && texts_of(statements@) == texts_of(ddls@),
    {
        let actions = create_actions(&self.pending, ddls);
        self.run = Execution::new(actions);
        self.phase = Phase::Running;
        let statements = self.run.statements();
        proof {
            assert forall|i: int| 0 <= i < ddls@.len() implies #[trigger] texts_of(statements@)[i]
                == texts_of(ddls@)[i] by {
                assert(self.run.actions_view()[i] is Create);
            }
            assert(texts_of(statements@) =~= texts_of(ddls@));
        }
        Request::Execute { statements }
    }

    /// Whether statement `i` was handed out and has not been reported yet.
    pub fn awaits(&self, i: usize) -> (r: bool)
        requires
            self.wf(),
        ensures
            r == (self.phase_view() == Phase::Running && i < self.run_view().actions_view().len()
                && !self.run_view().done_view()[i as int]),
    {
        match self.phase {
            Phase::Running => self.run.is_pending(i),
            _ => false,
        }
    }

    /// Takes the result of statement `i`. Once every statement has reported,
    /// the session ends: done when all succeeded, failed with every failure
    /// otherwise.
    pub fn on_completed(&mut self, i: usize, result: Result<(), String>) -> (r: Request)
        requires
            old(self).wf(),
            old(self).phase_view() == Phase::Running,
            i < old(self).run_view().actions_view().len(),
            !old(self).run_view().done_view()[i as int],
        ensures
            final(self).wf(),
            final(self).mode_view() == old(self).mode_view(),
            final(self).confirmed_view(),
            final(self).run_view().wf(),
            final(self).run_view().actions_view() == old(self).run_view().actions_view(),
            final(self).run_view().done_view() == old(self).run_view().done_view().update(
                i as int,
                true,
            ),
            views_of(final(self).run_view().outcomes_view()) == views_of(
                old(self).run_view().outcomes_view(),
            ).push(outcome_of(old(self).run_view().actions_view()[i as int], result)),
            !final(self).run_view().drained() ==> final(self).phase_view() == Phase::Running
                && r is Wait,
            final(self).run_view().drained() ==> final(self).phase_view() == Phase::Finished,
            final(self).run_view().drained() && final(self).run_view().failures_view().len() == 0
                ==> r matches Request::Finish { conclusion: Conclusion::Done },
            final(self).run_view().drained() && final(self).run_view().failures_view().len() > 0
                ==> (r matches Request::Finish { conclusion: Conclusion::Failed { failures } }
                && views_of(failures@) == final(self).run_view().failures_view()),
    {
        let ghost before = self.run.outcomes_view();
        self.run.record(i, result);
        proof {
            let now = self.run.outcomes_view();
            assert(views_of(now) =~= views_of(before).push(now.last()@)) by {
                assert forall|j: int| 0 <= j < before.len() implies views_of(now)[j] == views_of(
                    before,
                )[j] by {
                    assert(now.drop_last()[j] == before[j]);
                }
            }
        }
        if !self.run.is_drained() {
            return Request::Wait;
        }
        self.phase = Phase::Finished;
        let failures = self.run.failures();
        if failures.len() == 0 {
            Request::Finish { conclusion: Conclusion::Done }
        } else {
            Request::Finish { conclusion: Conclusion::Failed { failures } }
        }
    }

    /// What the session waits for next.
    pub fn phase(&self) -> (r: Phase)
        ensures
            r == self.phase_view(),
    {
        self.phase
    }

    /// The outcomes reported so far, in the order they finished.
    pub fn outcomes(&self) -> (r: &Vec<ActionOutcome>)
        ensures
            r@ == self.run_view().outcomes_view(),
    {
        self.run.outcomes()
    }
}

} // verus!
