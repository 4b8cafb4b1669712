use vstd::prelude::*;
use crate::names::TableName;
use crate::statements::{drop_statement, drop_statement_text};

verus! {

/// One change to the database, derived for a single run.
#[derive(Debug)]
pub enum PendingAction {
    /// Create a table by running its definition text verbatim.
    Create { table: TableName, ddl: String },
    /// Drop a table with the guarded drop statement.
    Drop { table: TableName },
}

/// How one action ended.
#[derive(Debug)]
pub enum ActionOutcome {
    Success { table: TableName },
    Failure { table: TableName, cause: String },
}

impl PendingAction {
    /// The table the action is about.
    pub open spec fn table_of(self) -> TableName {
        match self {
            PendingAction::Create { table, .. } => table,
            PendingAction::Drop { table } => table,
        }
    }

    /// The statement text the action runs.
    pub open spec fn statement_text(self) -> Seq<char> {
        match self {
            PendingAction::Create { ddl, .. } => ddl@,
            PendingAction::Drop { table } => drop_statement_text(table@),
        }
    }

    /// The table the action is about.
    pub fn table(&self) -> (r: &TableName)
        ensures
            *r == self.table_of(),
    {
        match self {
            PendingAction::Create { table, .. } => table,
            PendingAction::Drop { table } => table,
        }
    }

    /// The statement to hand to the database for this action.
    pub fn statement(&self) -> (r: String)
        ensures
            r@ == self.statement_text(),
    {
        match self {
            PendingAction::Create { ddl, .. } => ddl.clone(),
            PendingAction::Drop { table } => drop_statement(table),
        }
    }
}

/// An outcome as plain text: the table, and for a failure its cause.
pub enum OutcomeView {
    Success { table: Seq<char> },
    Failure { table: Seq<char>, cause: Seq<char> },
}

impl View for ActionOutcome {
    type V = OutcomeView;

    open spec fn view(&self) -> OutcomeView {
        match self {
            ActionOutcome::Success { table } => OutcomeView::Success { table: table@ },
            ActionOutcome::Failure { table, cause } => OutcomeView::Failure {
                table: table@,
                cause: cause@,
            },
        }
    }
}

/// The outcome that the result of running an action's statement gives.
pub open spec fn outcome_of(a: PendingAction, result: Result<(), String>) -> OutcomeView {
    match result {
        Ok(()) => OutcomeView::Success { table: a.table_of()@ },
        Err(cause) => OutcomeView::Failure { table: a.table_of()@, cause: cause@ },
    }
}

impl ActionOutcome {
    /// The table the outcome is about.
    pub open spec fn table_of(self) -> TableName {
        match self {
            ActionOutcome::Success { table } => table,
            ActionOutcome::Failure { table, .. } => table,
        }
    }

    /// Whether the action failed.
    pub fn is_failure(&self) -> (r: bool)
        ensures
            r == self is Failure,
    {
        match self {
            ActionOutcome::Success { .. } => false,
            ActionOutcome::Failure { .. } => true,
        }
    }

    /// A copy of this outcome.
    pub fn duplicate(&self) -> (r: ActionOutcome)
        ensures
            r@ == self@,
    {
        match self {
            ActionOutcome::Success { table } => ActionOutcome::Success { table: table.duplicate() },
            ActionOutcome::Failure { table, cause } => ActionOutcome::Failure {
                table: table.duplicate(),
                cause: cause.clone(),
            },
        }
    }
}

/// The views of a list of outcomes, in order.
pub open spec fn views_of(os: Seq<ActionOutcome>) -> Seq<OutcomeView> {
    os.map_values(|o: ActionOutcome| o@)
}

/// The bookkeeping of one concurrent run: the submitted actions, which of
/// them have finished, and their outcomes in the order they finished.
#[derive(Debug)]
pub struct Execution {
    actions: Vec<PendingAction>,
    done: Vec<bool>,
    order: Vec<usize>,
    outcomes: Vec<ActionOutcome>,
}

impl Execution {
    /// The submitted actions, in submission order.
    pub closed spec fn actions_view(&self) -> Seq<PendingAction> {
        self.actions@
    }

    /// For each action, whether it has finished.
    pub closed spec fn done_view(&self) -> Seq<bool> {
        self.done@
    }

    /// For each outcome, the index of the action it belongs to.
    pub closed spec fn order_view(&self) -> Seq<usize> {
        self.order@
    }

    /// The outcomes, in the order the actions finished.
    pub closed spec fn outcomes_view(&self) -> Seq<ActionOutcome> {
        self.outcomes@
    }

    /// Whether every action has finished.
    pub open spec fn drained(&self) -> bool {
        forall|i: int| 0 <= i < self.done_view().len() ==> #[trigger] self.done_view()[i]
    }

    /// The failed outcomes, in the order they finished.
    pub open spec fn failures_view(&self) -> Seq<OutcomeView> {
        views_of(self.outcomes_view()).filter(|v: OutcomeView| v is Failure)
    }

    /// Each outcome belongs to a finished action, no action has two outcomes,
    /// and every finished action has one.
    pub open spec fn wf(&self) -> bool {
        let n = self.actions_view().len();
        let ord = self.order_view();
        &&& n <= usize::MAX
        &&& self.done_view().len() == n
        &&& ord.len() == self.outcomes_view().len()
        &&& ord.no_duplicates()
        &&& forall|j: int|
            0 <= j < ord.len() ==> #[trigger] ord[j] < n && self.done_view()[ord[j] as int]
                && self.outcomes_view()[j].table_of()@ == self.actions_view()[ord[j] as int].table_of()@
        &&& forall|i: int| 0 <= i < n && #[trigger] self.done_view()[i] ==> ord.contains(i as usize)
    }

    /// Starts a run of the given actions; none has finished yet.
    pub fn new(actions: Vec<PendingAction>) -> (r: Execution)
        ensures
            r.wf(),
            r.actions_view() == actions@,
            r.outcomes_view().len() == 0,
            forall|i: int| 0 <= i < actions@.len() ==> !#[trigger] r.done_view()[i],
    {
        let mut done: Vec<bool> = Vec::new();
        let mut i: usize = 0;
        while i < actions.len()
            invariant
                i <= actions@.len(),
                done@.len() == i,
                forall|j: int| 0 <= j < i ==> !#[trigger] done@[j],
            decreases actions@.len() - i,
        {
            done.push(false);
            i = i + 1;
        }
        Execution { actions, done, order: Vec::new(), outcomes: Vec::new() }
    }

    /// The number of submitted actions.
    pub fn len(&self) -> (r: usize)
        ensures
            r == self.actions_view().len(),
    {
        self.actions.len()
    }

    /// Whether action `i` was submitted and has not finished.
    pub fn is_pending(&self, i: usize) -> (r: bool)
        requires
            self.wf(),
        ensures
            r == (i < self.actions_view().len() && !self.done_view()[i as int]),
    {
        i < self.actions.len() && !self.done[i]
    }

    /// The statement of action `i`.
    pub fn statement(&self, i: usize) -> (r: String)
        requires
            i < self.actions_view().len(),
        ensures
            r@ == self.actions_view()[i as int].statement_text(),
    {
        self.actions[i].statement()
    }

    /// The statements of all actions, in submission order.
    pub fn statements(&self) -> (r: Vec<String>)
        ensures
            r@.len() == self.actions_view().len(),
            forall|i: int|
                0 <= i < r@.len() ==> #[trigger] r@[i]@ == self.actions_view()[i].statement_text(),
    {
        let mut r: Vec<String> = Vec::new();
        let mut i: usize = 0;
        while i < self.actions.len()
            invariant
                i <= self.actions@.len(),
                r@.len() == i,
                forall|j: int| 0 <= j < i ==> #[trigger] r@[j]@ == self.actions@[j].statement_text(),
            decreases self.actions@.len() - i,
        {
            r.push(self.actions[i].statement());
            i = i + 1;
        }
        r
    }

    /// Records that action `i` finished with `result`: its outcome is added
    /// after those already recorded.
    pub fn record(&mut self, i: usize, result: Result<(), String>)
        requires
            old(self).wf(),
            i < old(self).actions_view().len(),
            !old(self).done_view()[i as int],
        ensures
            final(self).wf(),
            final(self).actions_view() == old(self).actions_view(),
            final(self).done_view() == old(self).done_view().update(i as int, true),
            final(self).order_view() == old(self).order_view().push(i),
            final(self).outcomes_view().len() == old(self).outcomes_view().len() + 1,
            final(self).outcomes_view().drop_last() == old(self).outcomes_view(),
            final(self).outcomes_view().last()@ == outcome_of(old(self).actions_view()[i as int], result),
    {
        let ghost old_order = self.order@;
        let table = self.actions[i].table().duplicate();
        let outcome = match result {
            Ok(()) => ActionOutcome::Success { table },
            Err(cause) => ActionOutcome::Failure { table, cause },
        };
        self.done.set(i, true);
        self.order.push(i);
        self.outcomes.push(outcome);
        proof {
            assert(self.outcomes@.drop_last() == old(self).outcomes@);
            assert forall|j: int| 0 <= j < self.order@.len() implies #[trigger] self.order@[j] < self.actions@.len()
                && self.done@[self.order@[j] as int]
                && self.outcomes@[j].table_of()@ == self.actions@[self.order@[j] as int].table_of()@ by {
                if j < old_order.len() {
                    assert(self.order@[j] == old_order[j]);
                }
            }
            assert forall|k: int| 0 <= k < self.actions@.len() && #[trigger] self.done@[k] implies self.order@.contains(k as usize) by {
                if k == i {
                    assert(self.order@[old_order.len() as int] == i);
                } else {
                    let j = choose|j: int| 0 <= j < old_order.len() && old_order[j] == k as usize;
                    assert(self.order@[j] == k as usize);
                }
            }
        }
    }

    /// Whether every action has finished.
    pub fn is_drained(&self) -> (r: bool)
        ensures
            r == self.drained(),
    {
        let mut i: usize = 0;
        while i < self.done.len()
            invariant
                i <= self.done@.len(),
                forall|j: int| 0 <= j < i ==> #[trigger] self.done@[j],
            decreases self.done@.len() - i,
        {
            if !self.done[i] {
                assert(!self.done_view()[i as int]);
                return false;
            }
            i = i + 1;
        }
        true
    }

    /// The failed outcomes, in the order they finished: the table and cause of
    /// every failure.
    pub fn failures(&self) -> (r: Vec<ActionOutcome>)
        ensures
            views_of(r@) == self.failures_view(),
    {
        let ghost vs = views_of(self.outcomes@);
        let ghost p = |v: OutcomeView| v is Failure;
        let mut r: Vec<ActionOutcome> = Vec::new();
        let mut i: usize = 0;
        while i < self.outcomes.len()
            invariant
                i <= self.outcomes@.len(),
                vs == views_of(self.outcomes@),
                p == (|v: OutcomeView| v is Failure),
                views_of(r@) == vs.take(i as int).filter(p),
            decreases self.outcomes@.len() - i,
        {
            proof {
                assert(vs.take(i + 1).drop_last() == vs.take(i as int));
                reveal(Seq::filter);
            }
            if self.outcomes[i].is_failure() {
                let o = self.outcomes[i].duplicate();
                r.push(o);
                assert(views_of(r@) == views_of(r@).drop_last().push(o@));
            }
            i = i + 1;
        }
        assert(vs.take(self.outcomes@.len() as int) == vs);
        r
    }

    /// The outcomes recorded so far, in the order the actions finished.
    pub fn outcomes(&self) -> (r: &Vec<ActionOutcome>)
        ensures
            r@ == self.outcomes_view(),
    {
        &self.outcomes
    }
}

/// Once every submitted action has finished, each one has exactly one
/// outcome: every action index occurs once in the completion order, and there
/// are as many outcomes as actions, each naming its action's table.
pub proof fn lemma_one_outcome_per_action(e: &Execution)
    requires
        e.wf(),
        e.drained(),
    ensures
        e.outcomes_view().len() == e.actions_view().len(),
        e.order_view().no_duplicates(),
        forall|i: usize| i < e.actions_view().len() ==> #[trigger] e.order_view().contains(i),
        forall|j: int|
            0 <= j < e.outcomes_view().len() ==> #[trigger] e.order_view()[j] < e.actions_view().len()
                && e.outcomes_view()[j].table_of()@ == e.actions_view()[e.order_view()[j] as int].table_of()@,
{
    let n = e.actions_view().len();
    let ord = e.order_view();
    assert forall|i: usize| i < n implies #[trigger] ord.contains(i) by {
        assert(e.done_view()[i as int]);
    }
    let o = ord.map_values(|x: usize| x as int);
    assert(o.no_duplicates()) by {
        assert forall|a: int, b: int| 0 <= a < o.len() && 0 <= b < o.len() && a != b implies o[a] != o[b] by {
            assert(ord[a] != ord[b]);
        }
    }
    assert(o.to_set() =~= vstd::set_lib::set_int_range(0, n as int)) by {
        assert forall|x: int| o.to_set().contains(x) implies 0 <= x < n by {
            let j = choose|j: int| 0 <= j < o.len() && o[j] == x;
            assert(ord[j] < n);
        }
        assert forall|x: int| 0 <= x < n implies o.to_set().contains(x) by {
            assert(ord.contains(x as usize));
            let j = choose|j: int| 0 <= j < ord.len() && ord[j] == x as usize;
            assert(o[j] == x);
        }
    }
    o.unique_seq_to_set();
    vstd::set_lib::lemma_int_range(0, n as int);
}

} // verus!
