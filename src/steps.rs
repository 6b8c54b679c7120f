//! Batch replace of a workflow's steps, driven one statement at a time.
//! The driver decides which statement comes next; the caller runs it inside
//! one transaction and reports whether it succeeded. A failure anywhere ends
//! the replace without a commit, so the transaction is rolled back.
//! Listing a workflow's steps puts them in ascending step order.
use vstd::prelude::*;

verus! {

/// One step as the caller supplies it.
#[derive(Debug)]
pub struct StepInput {
    pub prompt: String,
    pub step_order: i32,
}

/// A stored step row, as readers of the store see it: workflow id, prompt
/// and order.
pub type StepRow = (i64, Seq<char>, i32);

/// Where the replace stands.
#[derive(Clone, Copy, Debug, PartialEq, Eq, Structural)]
pub enum Phase {
    Begin,
    Delete,
    Insert(usize),
    Commit,
    Done(bool),
}

/// The next thing the caller does against the store.
#[derive(Debug)]
pub enum TxAction {
    /// Open the transaction.
    Begin,
    /// Remove every step of the workflow, inside the transaction.
    DeleteSteps { workflow_id: i64 },
    /// Add one step, inside the transaction.
    InsertStep { workflow_id: i64, prompt: String, step_order: i32 },
    /// Commit the transaction.
    Commit,
    /// Report the outcome; an uncommitted transaction is dropped, which
    /// rolls it back.
    Finish { ok: bool },
}

pub open spec fn next_phase(ph: Phase, n_steps: nat, ok: bool) -> Phase {
    match ph {
        Phase::Done(r) => Phase::Done(r),
        _ => if !ok {
            Phase::Done(false)
        } else {
            match ph {
                Phase::Begin => Phase::Delete,
                Phase::Delete => if n_steps == 0 {
                    Phase::Commit
                } else {
                    Phase::Insert(0)
                },
                Phase::Insert(k) => if k + 1 < n_steps {
                    Phase::Insert((k + 1) as usize)
                } else {
                    Phase::Commit
                },
                Phase::Commit => Phase::Done(true),
                Phase::Done(r) => Phase::Done(r),
            }
        },
    }
}

pub open spec fn action_at(ph: Phase, workflow_id: i64, steps: Seq<StepInput>) -> TxAction {
    match ph {
        Phase::Begin => TxAction::Begin,
        Phase::Delete => TxAction::DeleteSteps { workflow_id },
        Phase::Insert(k) => TxAction::InsertStep {
            workflow_id,
            prompt: steps[k as int].prompt,
            step_order: steps[k as int].step_order,
        },
        Phase::Commit => TxAction::Commit,
        Phase::Done(r) => TxAction::Finish { ok: r },
    }
}

/// The rows of `rows` that belong to another workflow than `workflow_id`.
pub open spec fn without(rows: Seq<StepRow>, workflow_id: i64) -> Seq<StepRow> {
    rows.filter(|r: StepRow| r.0 != workflow_id)
}

pub open spec fn rows_of(workflow_id: i64, steps: Seq<StepInput>) -> Seq<StepRow> {
    steps.map_values(|s: StepInput| (workflow_id, s.prompt@, s.step_order))
}

/// The step table after a successful replace.
pub open spec fn replaced(rows: Seq<StepRow>, workflow_id: i64, steps: Seq<StepInput>) -> Seq<
    StepRow,
> {
    without(rows, workflow_id) + rows_of(workflow_id, steps)
}

/// Transactional store semantics for the step table: `.0` is what readers
/// see (committed), `.1` what the open transaction has staged. A failed
/// statement changes nothing.
pub open spec fn store_apply(
    db: (Seq<StepRow>, Seq<StepRow>),
    a: TxAction,
    ok: bool,
) -> (Seq<StepRow>, Seq<StepRow>) {
    if !ok {
        db
    } else {
        match a {
            TxAction::Begin => (db.0, db.0),
            TxAction::DeleteSteps { workflow_id } => (db.0, without(db.1, workflow_id)),
            TxAction::InsertStep { workflow_id, prompt, step_order } => (
                db.0,
                db.1.push((workflow_id, prompt@, step_order)),
            ),
            TxAction::Commit => (db.1, db.1),
            TxAction::Finish { .. } => db,
        }
    }
}

/// Phase and store after the driver has been fed `results`, one per
/// statement, starting from a store whose step table is `before`.
pub open spec fn run(
    workflow_id: i64,
    steps: Seq<StepInput>,
    before: Seq<StepRow>,
    results: Seq<bool>,
) -> (Phase, (Seq<StepRow>, Seq<StepRow>))
    decreases results.len(),
{
    if results.len() == 0 {
        (Phase::Begin, (before, before))
    } else {
        let (ph, db) = run(workflow_id, steps, before, results.drop_last());
        let ok = results.last();
        (
            next_phase(ph, steps.len(), ok),
            store_apply(db, action_at(ph, workflow_id, steps), ok),
        )
    }
}

pub open spec fn run_inv(
    ph: Phase,
    db: (Seq<StepRow>, Seq<StepRow>),
    workflow_id: i64,
    steps: Seq<StepInput>,
    before: Seq<StepRow>,
) -> bool {
    match ph {
        Phase::Begin => db.0 == before,
        Phase::Delete => db.0 == before && db.1 == before,
        Phase::Insert(k) => k < steps.len() && db.0 == before && db.1 == without(before, workflow_id)
            + rows_of(workflow_id, steps.take(k as int)),
        Phase::Commit => db.0 == before && db.1 == replaced(before, workflow_id, steps),
        Phase::Done(false) => db.0 == before,
        Phase::Done(true) => db.0 == replaced(before, workflow_id, steps),
    }
}

proof fn lemma_run_inv(
    workflow_id: i64,
    steps: Seq<StepInput>,
    before: Seq<StepRow>,
    results: Seq<bool>,
)
    requires
        steps.len() <= usize::MAX,
    ensures
        run_inv(
            run(workflow_id, steps, before, results).0,
            run(workflow_id, steps, before, results).1,
            workflow_id,
            steps,
            before,
        ),
    decreases results.len(),
{
    if results.len() > 0 {
        let prev = results.drop_last();
        lemma_run_inv(workflow_id, steps, before, prev);
        let (ph, db) = run(workflow_id, steps, before, prev);
        let f = |s: StepInput| (workflow_id, s.prompt@, s.step_order);
        match ph {
            Phase::Delete => {
                assert(steps.take(0) =~= Seq::<StepInput>::empty());
                assert(rows_of(workflow_id, steps.take(0)) =~= Seq::<StepRow>::empty());
                assert(without(before, workflow_id) + Seq::<StepRow>::empty() =~= without(
                    before,
                    workflow_id,
                ));
                if steps.len() == 0 {
                    assert(rows_of(workflow_id, steps) =~= Seq::<StepRow>::empty());
                }
            },
            Phase::Insert(k) => {
                assert(steps.take(k + 1) =~= steps.take(k as int).push(steps[k as int]));
                assert(rows_of(workflow_id, steps.take(k + 1)) =~= rows_of(
                    workflow_id,
                    steps.take(k as int),
                ).push(f(steps[k as int])));
                assert((without(before, workflow_id) + rows_of(workflow_id, steps.take(k as int))).push(
                    f(steps[k as int]),
                ) =~= without(before, workflow_id) + rows_of(workflow_id, steps.take(k + 1)));
                if k + 1 == steps.len() {
                    assert(steps.take(k + 1) =~= steps);
                }
            },
            _ => {},
        }
    }
}

/// Whatever statement fails, readers never see a partial replace: until the
/// commit succeeds the visible step table is the one from before the call,
/// a replace that ends in failure leaves it exactly as it was, and one that
/// ends in success leaves the other workflows' steps and the new steps.
pub proof fn lemma_replace_atomic(
    workflow_id: i64,
    steps: Seq<StepInput>,
    before: Seq<StepRow>,
    results: Seq<bool>,
)
    requires
        steps.len() <= usize::MAX,
    ensures
        ({
            let (ph, db) = run(workflow_id, steps, before, results);
            &&& db.0 == before || ph == Phase::Done(true)
            &&& ph == Phase::Done(false) ==> db.0 == before
            &&& ph == Phase::Done(true) ==> db.0 == replaced(before, workflow_id, steps)
        }),
{
    lemma_run_inv(workflow_id, steps, before, results);
}

/// A step as read back from the store.
#[derive(Debug)]
pub struct StoredStep {
    pub id: i64,
    pub workflow_id: i64,
    pub prompt: String,
    pub step_order: i32,
}

pub open spec fn sorted_by_order(s: Seq<StoredStep>) -> bool {
    forall|i: int, j: int| 0 <= i < j < s.len() ==> s[i].step_order <= s[j].step_order
}

fn copy_step(s: &StoredStep) -> (r: StoredStep)
    ensures
        r == *s,
{
    StoredStep {
        id: s.id,
        workflow_id: s.workflow_id,
        prompt: s.prompt.clone(),
        step_order: s.step_order,
    }
}

/// A workflow's steps in the order they are listed: ascending step order,
/// whatever order they were stored in. No step is added or lost.
pub fn order_steps(rows: &Vec<StoredStep>) -> (r: Vec<StoredStep>)
    ensures
        sorted_by_order(r@),
        r@.to_multiset() == rows@.to_multiset(),
        r@.len() == rows@.len(),
{
    let mut r: Vec<StoredStep> = Vec::new();
    let mut i: usize = 0;
    assert(r@ =~= rows@.subrange(0, 0));
    while i < rows.len()
        invariant
            i <= rows@.len(),
            sorted_by_order(r@),
            r@.to_multiset() == rows@.subrange(0, i as int).to_multiset(),
            r@.len() == i,
        decreases rows@.len() - i,
    {
        let x = copy_step(&rows[i]);
        let mut p: usize = 0;
        while p < r.len() && r[p].step_order <= x.step_order
            invariant
                p <= r@.len(),
                forall|q: int| 0 <= q < p ==> r@[q].step_order <= x.step_order,
            decreases r@.len() - p,
        {
            p = p + 1;
        }
        let ghost before = r@;
        r.insert(p, x);
        proof {
            assert(rows@.subrange(0, i as int + 1) =~= rows@.subrange(0, i as int).push(rows@[i as int]));
            assert(r@ == before.insert(p as int, x));
            vstd::seq_lib::to_multiset_insert(before, p as int, x);
            rows@.subrange(0, i as int).to_multiset_ensures();
            assert(rows@.subrange(0, i as int).push(rows@[i as int]).to_multiset()
                == rows@.subrange(0, i as int).to_multiset().insert(rows@[i as int]));
            assert forall|a: int, b: int| 0 <= a < b < r@.len() implies r@[a].step_order
                <= r@[b].step_order by {
                if p < before.len() {
                    assert(before[p as int].step_order > x.step_order);
                }
            }
        }
        i = i + 1;
    }
    assert(rows@.subrange(0, rows@.len() as int) =~= rows@);
    r
}

/// The step orders of a listing, in listing order.
pub open spec fn orders(s: Seq<StoredStep>) -> Seq<i32> {
    s.map_values(|x: StoredStep| x.step_order)
}

pub open spec fn ascending(s: Seq<i32>) -> bool {
    forall|i: int, j: int| 0 <= i < j < s.len() ==> s[i] <= s[j]
}

proof fn lemma_orders_multiset(s: Seq<StoredStep>, t: Seq<StoredStep>)
    requires
        s.to_multiset() == t.to_multiset(),
    ensures
        orders(s).to_multiset() == orders(t).to_multiset(),
    decreases s.len(),
{
    broadcast use vstd::seq_lib::group_to_multiset_ensures;
    broadcast use vstd::multiset::group_multiset_axioms;

    s.to_multiset_ensures();
    t.to_multiset_ensures();
    assert(s.len() == s.to_multiset().len());
    assert(t.len() == t.to_multiset().len());
    if s.len() == 0 {
        assert(t.len() == 0);
        assert(orders(s) =~= orders(t));
    } else {
        let x = s.last();
        let sp = s.drop_last();
        assert(s =~= sp.push(x));
        assert(s.to_multiset() == sp.to_multiset().insert(x));
        assert(t.to_multiset().count(x) > 0);
        assert(t.contains(x));
        let i = choose|i: int| 0 <= i < t.len() && t[i] == x;
        let tp = t.remove(i);
        assert(tp.to_multiset() == t.to_multiset().remove(t[i]));
        assert(sp.to_multiset() =~= tp.to_multiset());
        lemma_orders_multiset(sp, tp);
        assert(orders(s) =~= orders(sp).push(x.step_order));
        assert(orders(s).to_multiset() == orders(sp).to_multiset().insert(x.step_order));
        assert(orders(tp) =~= orders(t).remove(i));
        assert(orders(t)[i] == x.step_order);
        assert(orders(t).remove(i).to_multiset() == orders(t).to_multiset().remove(x.step_order));
        assert(orders(t).to_multiset().count(x.step_order) > 0);
        assert(orders(t).to_multiset().remove(x.step_order).insert(x.step_order) =~= orders(
            t,
        ).to_multiset());
    }
}

proof fn lemma_ascending_unique(s: Seq<i32>, t: Seq<i32>)
    requires
        ascending(s),
        ascending(t),
        s.to_multiset() == t.to_multiset(),
    ensures
        s == t,
    decreases s.len(),
{
    broadcast use vstd::seq_lib::group_to_multiset_ensures;
    broadcast use vstd::multiset::group_multiset_axioms;

    s.to_multiset_ensures();
    t.to_multiset_ensures();
    assert(s.len() == s.to_multiset().len());
    assert(t.len() == t.to_multiset().len());
    if s.len() == 0 {
        assert(t.len() == 0);
        assert(s =~= t);
    } else {
        assert(t.len() == s.len());
        let a = s[0];
        let b = t[0];
        assert(s.to_multiset().count(a) > 0);
        assert(t.contains(a));
        assert(t.to_multiset().count(b) > 0);
        assert(s.contains(b));
        assert(a == b);
        let sr = s.remove(0);
        let tr = t.remove(0);
        assert(sr.to_multiset() == s.to_multiset().remove(a));
        assert(tr.to_multiset() == t.to_multiset().remove(b));
        assert(ascending(sr));
        assert(ascending(tr));
        lemma_ascending_unique(sr, tr);
        assert forall|k: int| 0 <= k < s.len() implies s[k] == t[k] by {
            if k > 0 {
                assert(s[k] == sr[k - 1]);
                assert(t[k] == tr[k - 1]);
            }
        }
        assert(s =~= t);
    }
}

/// The listed order does not depend on the order the steps were stored in:
/// two workflows whose stored steps carry the same step orders (as a
/// multiset) list them with the same sequence of step orders, given any two
/// results that meet `order_steps`'s contract.
pub proof fn lemma_listing_order_independent(
    rows1: Seq<StoredStep>,
    rows2: Seq<StoredStep>,
    listed1: Seq<StoredStep>,
    listed2: Seq<StoredStep>,
)
    requires
        orders(rows1).to_multiset() == orders(rows2).to_multiset(),
        sorted_by_order(listed1),
        listed1.to_multiset() == rows1.to_multiset(),
        sorted_by_order(listed2),
        listed2.to_multiset() == rows2.to_multiset(),
    ensures
        orders(listed1) == orders(listed2),
{
    lemma_orders_multiset(listed1, rows1);
    lemma_orders_multiset(listed2, rows2);
    lemma_ascending_unique(orders(listed1), orders(listed2));
}

/// Drives the replace of one workflow's steps.
pub struct StepReplace {
    pub workflow_id: i64,
    pub steps: Vec<StepInput>,
    pub phase: Phase,
}

impl StepReplace {
    pub open spec fn wf(&self) -> bool {
        match self.phase {
            Phase::Insert(k) => k < self.steps@.len(),
            _ => true,
        }
    }

    pub fn new(workflow_id: i64, steps: Vec<StepInput>) -> (r: StepReplace)
        ensures
            r.wf(),
            r.workflow_id == workflow_id,
            r.steps@ == steps@,
            r.phase == Phase::Begin,
    {
        StepReplace { workflow_id, steps, phase: Phase::Begin }
    }

    /// The statement to run next, or the outcome once the replace is over.
    pub fn next_action(&self) -> (r: TxAction)
        requires
            self.wf(),
        ensures
            r == action_at(self.phase, self.workflow_id, self.steps@),
    {
        match self.phase {
            Phase::Begin => TxAction::Begin,
            Phase::Delete => TxAction::DeleteSteps { workflow_id: self.workflow_id },
            Phase::Insert(k) => TxAction::InsertStep {
                workflow_id: self.workflow_id,
                prompt: self.steps[k].prompt.clone(),
                step_order: self.steps[k].step_order,
            },
            Phase::Commit => TxAction::Commit,
            Phase::Done(r) => TxAction::Finish { ok: r },
        }
    }

    /// Records whether the statement just run succeeded.
    pub fn on_result(&mut self, ok: bool)
        requires
            old(self).wf(),
        ensures
            final(self).wf(),
            final(self).workflow_id == old(self).workflow_id,
            final(self).steps@ == old(self).steps@,
            final(self).phase == next_phase(old(self).phase, old(self).steps@.len(), ok),
    {
        let n = self.steps.len();
        self.phase = match self.phase {
            Phase::Done(r) => Phase::Done(r),
            _ => if !ok {
                Phase::Done(false)
            } else {
                match self.phase {
                    Phase::Begin => Phase::Delete,
                    Phase::Delete => if n == 0 {
                        Phase::Commit
                    } else {
                        Phase::Insert(0)
                    },
                    Phase::Insert(k) => if k + 1 < n {
                        Phase::Insert(k + 1)
                    } else {
                        Phase::Commit
                    },
                    Phase::Commit => Phase::Done(true),
                    Phase::Done(r) => Phase::Done(r),
                }
            },
        };
    }

    /// `Some(ok)` once the replace is over.
    pub fn outcome(&self) -> (r: Option<bool>)
        ensures
            r == (match self.phase {
                Phase::Done(ok) => Some(ok),
                _ => None,
            }),
    {
        match self.phase {
            Phase::Done(ok) => Some(ok),
            _ => None,
        }
    }
}

} // verus!
