//! Behavior trees: nodes ticked with a context, and the sequence,
//! selector and condition nodes that combine them.
//!
//! A node's own tick is defined by whoever implements it; what the library
//! states is how the combining nodes use their children's results.
use vstd::prelude::*;
use std::sync::Arc;
use crate::world::BlockPos;
use crate::entity_ai::memory::EntityMemory;

verus! {

/// The outcome of ticking a node.
#[derive(Clone, Copy, PartialEq, Eq, Debug, Structural)]
pub enum BehaviorStatus {
    Success,
    Failure,
    Running,
}

/// What a node sees and may change when it is ticked.
pub struct BehaviorContext {
    /// The ticked entity, by id.
    pub entity: u64,
    pub position: Option<BlockPos>,
    /// The entity's target, by id.
    pub target: Option<u64>,
    pub memory: EntityMemory,
    pub current_tick: u64,
}

/// A node of a behavior tree.
pub trait BehaviorNode: Send + Sync {
    /// Whether ticking the node for `entity` may take the context from
    /// `before` to `after` and give `status`.
    spec fn ticks(&self, entity: u64, before: BehaviorContext, after: BehaviorContext, status: BehaviorStatus) -> bool;

    /// Runs the node once.
    fn tick(&self, entity: u64, ctx: &mut BehaviorContext) -> (r: BehaviorStatus)
        ensures
            self.ticks(entity, *old(ctx), *final(ctx), r),
    ;
}

/// A test a condition node makes before running its child: a predicate
/// on the context.
pub trait BehaviorCondition: Send + Sync {
    /// Whether the condition holds in `ctx`.
    spec fn holds(&self, ctx: BehaviorContext) -> bool;

    /// Whether the child may run: whether the condition holds.
    fn check(&self, ctx: &BehaviorContext) -> (r: bool)
        ensures
            r == self.holds(*ctx),
    ;
}

/// The result of a node that runs children in order and stops at the
/// first whose result is not `pass`, given the results of the children it
/// ran: that result, or `pass` when every child gave it.
pub open spec fn combined_result(trace: Seq<BehaviorStatus>, pass: BehaviorStatus) -> BehaviorStatus {
    if trace.len() > 0 && trace.last() != pass {
        trace.last()
    } else {
        pass
    }
}

/// Whether `trace` can be the results of the children that a node of `n`
/// children ran, when it stops at the first result that is not `pass`:
/// every result but the last is `pass`, and it stops early only on a
/// result that is not.
pub open spec fn short_circuit_trace(trace: Seq<BehaviorStatus>, n: int, pass: BehaviorStatus) -> bool {
    &&& trace.len() <= n
    &&& forall|i: int| 0 <= i < trace.len() - 1 ==> trace[i] == pass
    &&& trace.len() < n ==> trace.len() > 0 && trace.last() != pass
}

/// A node that stops at the first result that is not `pass` gives `pass`
/// exactly when it ran every child and each gave `pass`: a sequence
/// succeeds exactly when all its children succeed, a selector fails
/// exactly when all its children fail.
pub proof fn lemma_passes_iff_all_pass(trace: Seq<BehaviorStatus>, n: int, pass: BehaviorStatus)
    requires
        short_circuit_trace(trace, n, pass),
    ensures
        (combined_result(trace, pass) == pass) <==> (trace.len() == n && forall|i: int| 0 <= i < trace.len() ==> trace[i] == pass),
{
    if combined_result(trace, pass) == pass && trace.len() > 0 {
        assert(trace[trace.len() - 1] == pass);
    }
}

/// The children that ran, each once and in order, gave the results
/// `trace`: child `i` took the context from `ctxs[i]` to `ctxs[i + 1]` and
/// gave `trace[i]`.
pub open spec fn ran_children(
    children: Seq<Arc<dyn BehaviorNode>>,
    entity: u64,
    ctxs: Seq<BehaviorContext>,
    trace: Seq<BehaviorStatus>,
) -> bool {
    &&& ctxs.len() == trace.len() + 1
    &&& trace.len() <= children.len()
    &&& forall|i: int|
        0 <= i < trace.len() ==> #[trigger] children[i].ticks(entity, ctxs[i], ctxs[i + 1], trace[i])
}

/// A run of children that stops at the first result that is not `pass`,
/// from the context `before` to `after`, with that combined result.
pub open spec fn short_circuit_run(
    children: Seq<Arc<dyn BehaviorNode>>,
    entity: u64,
    before: BehaviorContext,
    after: BehaviorContext,
    status: BehaviorStatus,
    pass: BehaviorStatus,
) -> bool {
    exists|ctxs: Seq<BehaviorContext>, trace: Seq<BehaviorStatus>|
        #![trigger ran_children(children, entity, ctxs, trace)]
        {
            &&& ran_children(children, entity, ctxs, trace)
            &&& ctxs[0] == before
            &&& ctxs.last() == after
            &&& short_circuit_trace(trace, children.len() as int, pass)
            &&& status == combined_result(trace, pass)
        }
}

/// Where every child can only give `pass`, a run that stops at the first
/// other result runs every child and gives `pass`: a sequence of children
/// that always succeed succeeds, a selector of children that always fail
/// fails.
pub proof fn lemma_run_of_passing_children(
    children: Seq<Arc<dyn BehaviorNode>>,
    entity: u64,
    before: BehaviorContext,
    after: BehaviorContext,
    status: BehaviorStatus,
    pass: BehaviorStatus,
)
    requires
        short_circuit_run(children, entity, before, after, status, pass),
        forall|i: int, b: BehaviorContext, a: BehaviorContext, s: BehaviorStatus|
            0 <= i < children.len() && #[trigger] children[i].ticks(entity, b, a, s) ==> s == pass,
    ensures
        status == pass,
        exists|ctxs: Seq<BehaviorContext>, trace: Seq<BehaviorStatus>|
            #![trigger ran_children(children, entity, ctxs, trace)]
            ran_children(children, entity, ctxs, trace) && trace.len() == children.len(),
{
    let (ctxs, trace) = choose|ctxs: Seq<BehaviorContext>, trace: Seq<BehaviorStatus>|
        #![trigger ran_children(children, entity, ctxs, trace)]
        {
            &&& ran_children(children, entity, ctxs, trace)
            &&& ctxs[0] == before
            &&& ctxs.last() == after
            &&& short_circuit_trace(trace, children.len() as int, pass)
            &&& status == combined_result(trace, pass)
        };
    assert forall|i: int| 0 <= i < trace.len() implies trace[i] == pass by {
        assert(children[i].ticks(entity, ctxs[i], ctxs[i + 1], trace[i]));
    }
    if trace.len() < children.len() {
        assert(trace[trace.len() - 1] == pass);
    }
}

/// Where the children before `j` can only give `pass` and child `j` never
/// gives it, a run that stops at the first other result ticks exactly the
/// children up to `j` and gives what child `j` gave: a selector whose first
/// child fails and second succeeds succeeds after ticking both.
pub proof fn lemma_run_stops_at(
    children: Seq<Arc<dyn BehaviorNode>>,
    entity: u64,
    before: BehaviorContext,
    after: BehaviorContext,
    status: BehaviorStatus,
    pass: BehaviorStatus,
    j: int,
)
    requires
        0 <= j < children.len(),
        short_circuit_run(children, entity, before, after, status, pass),
        forall|i: int, b: BehaviorContext, a: BehaviorContext, s: BehaviorStatus|
            0 <= i < j && #[trigger] children[i].ticks(entity, b, a, s) ==> s == pass,
        forall|b: BehaviorContext, a: BehaviorContext, s: BehaviorStatus|
            #[trigger] children[j].ticks(entity, b, a, s) ==> s != pass,
    ensures
        status != pass,
        exists|ctxs: Seq<BehaviorContext>, trace: Seq<BehaviorStatus>|
            #![trigger ran_children(children, entity, ctxs, trace)]
            ran_children(children, entity, ctxs, trace) && trace.len() == j + 1 && status == trace[j],
{
    let (ctxs, trace) = choose|ctxs: Seq<BehaviorContext>, trace: Seq<BehaviorStatus>|
        #![trigger ran_children(children, entity, ctxs, trace)]
        {
            &&& ran_children(children, entity, ctxs, trace)
            &&& ctxs[0] == before
            &&& ctxs.last() == after
            &&& short_circuit_trace(trace, children.len() as int, pass)
            &&& status == combined_result(trace, pass)
        };
    assert forall|i: int| 0 <= i < trace.len() && i < j implies trace[i] == pass by {
        assert(children[i].ticks(entity, ctxs[i], ctxs[i + 1], trace[i]));
    }
    if trace.len() <= j {
        if trace.len() > 0 {
            assert(trace[trace.len() - 1] == pass);
        }
    }
    assert(trace.len() > j);
    assert(children[j].ticks(entity, ctxs[j], ctxs[j + 1], trace[j]));
    assert(trace[j] != pass);
    if trace.len() > j + 1 {
        assert(trace[j] == pass);
    }
}

/// Ticks the children in order, stopping at the first result that is not
/// `pass`; the combined result and the children's results.
fn run_until_not(
    children: &Vec<Arc<dyn BehaviorNode>>,
    entity: u64,
    ctx: &mut BehaviorContext,
    pass: BehaviorStatus,
) -> (r: (BehaviorStatus, Vec<BehaviorStatus>))
    ensures
        short_circuit_trace(r.1@, children@.len() as int, pass),
        r.0 == combined_result(r.1@, pass),
        r.1@.len() == 0 ==> *final(ctx) == *old(ctx),
        exists|ctxs: Seq<BehaviorContext>|
            #![trigger ran_children(children@, entity, ctxs, r.1@)]
            ran_children(children@, entity, ctxs, r.1@) && ctxs[0] == *old(ctx) && ctxs.last() == *final(ctx),
{
    let mut trace: Vec<BehaviorStatus> = Vec::new();
    let ghost mut ctxs: Seq<BehaviorContext> = seq![*ctx];
    let mut i: usize = 0;
    while i < children.len()
        invariant
            i <= children@.len(),
            i == 0 ==> *ctx == *old(ctx),
            trace@.len() == i,
            forall|j: int| 0 <= j < trace@.len() ==> trace@[j] == pass,
            ran_children(children@, entity, ctxs, trace@),
            ctxs[0] == *old(ctx),
            ctxs.last() == *ctx,
        decreases children@.len() - i,
    {
        let ghost before = *ctx;
        let ghost old_ctxs = ctxs;
        let ghost old_trace = trace@;
        let s = children[i].tick(entity, ctx);
        trace.push(s);
        proof {
            ctxs = ctxs.push(*ctx);
            assert forall|j: int| 0 <= j < trace@.len() implies #[trigger] children@[j].ticks(
                entity,
                ctxs[j],
                ctxs[j + 1],
                trace@[j],
            ) by {
                if j < i {
                    assert(old_trace[j] == trace@[j]);
                    assert(ctxs[j] == old_ctxs[j] && ctxs[j + 1] == old_ctxs[j + 1]);
                }
            }
        }
        proof {
            assert(ctxs[0] == old_ctxs[0]);
            assert(ran_children(children@, entity, ctxs, trace@));
        }
        if s != pass {
            return (s, trace);
        }
        i = i + 1;
    }
    (pass, trace)
}

/// Runs its children in order while they succeed.
pub struct Sequence {
    pub children: Vec<Arc<dyn BehaviorNode>>,
}

impl Sequence {
    /// Ticks the children in order until one fails or is still running;
    /// that child's result, or success when all succeeded; and the results
    /// of the children that ran.
    pub fn tick_traced(&self, entity: u64, ctx: &mut BehaviorContext) -> (r: (BehaviorStatus, Vec<BehaviorStatus>))
        ensures
            short_circuit_trace(r.1@, self.children@.len() as int, BehaviorStatus::Success),
            r.0 == combined_result(r.1@, BehaviorStatus::Success),
            r.1@.len() == 0 ==> *final(ctx) == *old(ctx),
            exists|ctxs: Seq<BehaviorContext>|
                #![trigger ran_children(self.children@, entity, ctxs, r.1@)]
                ran_children(self.children@, entity, ctxs, r.1@) && ctxs[0] == *old(ctx) && ctxs.last()
                    == *final(ctx),
    {
        run_until_not(&self.children, entity, ctx, BehaviorStatus::Success)
    }
}

impl BehaviorNode for Sequence {
    /// The children ran each once, in order, stopping at the first result
    /// that is not success, which is the result; success when
    /// every child gave it (see [`short_circuit_run`]).
    open spec fn ticks(&self, entity: u64, before: BehaviorContext, after: BehaviorContext, status: BehaviorStatus) -> bool {
        short_circuit_run(self.children@, entity, before, after, status, BehaviorStatus::Success)
    }

    /// See [`Sequence::tick_traced`]; with no children, success, and
    /// the context is left alone.
    fn tick(&self, entity: u64, ctx: &mut BehaviorContext) -> (r: BehaviorStatus)
        ensures
            self.children@.len() == 0 ==> r == BehaviorStatus::Success && *final(ctx) == *old(ctx),
    {
        let (r, trace) = self.tick_traced(entity, ctx);
        proof {
            let ctxs = choose|ctxs: Seq<BehaviorContext>|
                #![trigger ran_children(self.children@, entity, ctxs, trace@)]
                ran_children(self.children@, entity, ctxs, trace@) && ctxs[0] == *old(ctx) && ctxs.last()
                    == *ctx;
            assert(ran_children(self.children@, entity, ctxs, trace@));
        }
        r
    }
}

/// Runs its children in order while they fail.
pub struct Selector {
    pub children: Vec<Arc<dyn BehaviorNode>>,
}

impl Selector {
    /// Ticks the children in order until one succeeds or is still
    /// running; that child's result, or failure when all failed; and the
    /// results of the children that ran.
    pub fn tick_traced(&self, entity: u64, ctx: &mut BehaviorContext) -> (r: (BehaviorStatus, Vec<BehaviorStatus>))
        ensures
            short_circuit_trace(r.1@, self.children@.len() as int, BehaviorStatus::Failure),
            r.0 == combined_result(r.1@, BehaviorStatus::Failure),
            r.1@.len() == 0 ==> *final(ctx) == *old(ctx),
            exists|ctxs: Seq<BehaviorContext>|
                #![trigger ran_children(self.children@, entity, ctxs, r.1@)]
                ran_children(self.children@, entity, ctxs, r.1@) && ctxs[0] == *old(ctx) && ctxs.last()
                    == *final(ctx),
    {
        run_until_not(&self.children, entity, ctx, BehaviorStatus::Failure)
    }
}

impl BehaviorNode for Selector {
    /// The children ran each once, in order, stopping at the first result
    /// that is not failure, which is the result; failure when
    /// every child gave it (see [`short_circuit_run`]).
    open spec fn ticks(&self, entity: u64, before: BehaviorContext, after: BehaviorContext, status: BehaviorStatus) -> bool {
        short_circuit_run(self.children@, entity, before, after, status, BehaviorStatus::Failure)
    }

    /// See [`Selector::tick_traced`]; with no children, failure, and
    /// the context is left alone.
    fn tick(&self, entity: u64, ctx: &mut BehaviorContext) -> (r: BehaviorStatus)
        ensures
            self.children@.len() == 0 ==> r == BehaviorStatus::Failure && *final(ctx) == *old(ctx),
    {
        let (r, trace) = self.tick_traced(entity, ctx);
        proof {
            let ctxs = choose|ctxs: Seq<BehaviorContext>|
                #![trigger ran_children(self.children@, entity, ctxs, trace@)]
                ran_children(self.children@, entity, ctxs, trace@) && ctxs[0] == *old(ctx) && ctxs.last()
                    == *ctx;
            assert(ran_children(self.children@, entity, ctxs, trace@));
        }
        r
    }
}

/// Runs its child only when its condition holds.
pub struct Condition {
    pub condition: Arc<dyn BehaviorCondition>,
    pub child: Arc<dyn BehaviorNode>,
}

impl Condition {
    /// Checks the condition; when it holds, the child's result, else
    /// failure without running the child. Also whether it held and the
    /// child's result.
    pub fn tick_traced(&self, entity: u64, ctx: &mut BehaviorContext) -> (r: (BehaviorStatus, bool, Option<BehaviorStatus>))
        ensures
            r.1 == self.condition.holds(*old(ctx)),
            r.1 ==> (r.2 matches Some(s) && r.0 == s && self.child.ticks(entity, *old(ctx), *final(ctx), s)),
            !r.1 ==> r.2 is None && r.0 == BehaviorStatus::Failure && *final(ctx) == *old(ctx),
    {
        if self.condition.check(ctx) {
            let s = self.child.tick(entity, ctx);
            (s, true, Some(s))
        } else {
            (BehaviorStatus::Failure, false, None)
        }
    }
}

impl BehaviorNode for Condition {
    /// Where the condition holds on the context, what the child's tick
    /// may do; else failure with the context left alone.
    open spec fn ticks(&self, entity: u64, before: BehaviorContext, after: BehaviorContext, status: BehaviorStatus) -> bool {
        if self.condition.holds(before) {
            self.child.ticks(entity, before, after, status)
        } else {
            status == BehaviorStatus::Failure && after == before
        }
    }

    /// See [`Condition::tick_traced`].
    fn tick(&self, entity: u64, ctx: &mut BehaviorContext) -> (r: BehaviorStatus)
        ensures
            !self.condition.holds(*old(ctx)) ==> r == BehaviorStatus::Failure && *final(ctx) == *old(ctx),
    {
        self.tick_traced(entity, ctx).0
    }
}

} // verus!
