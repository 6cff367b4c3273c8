use std::sync::atomic::{AtomicU32, Ordering};
use std::sync::Arc;

use mili_rust::entity_ai::behavior::{
    BehaviorCondition, BehaviorContext, BehaviorNode, BehaviorStatus, Condition, Selector, Sequence,
};
use mili_rust::entity_ai::memory::EntityMemory;

struct CountAction {
    count: Arc<AtomicU32>,
}

impl BehaviorNode for CountAction {
    fn ticks(&self, _: u64, before: BehaviorContext, after: BehaviorContext, status: BehaviorStatus) -> bool {
        status == BehaviorStatus::Success && after.current_tick == before.current_tick
    }

    fn tick(&self, _entity: u64, _ctx: &mut BehaviorContext) -> BehaviorStatus {
        self.count.fetch_add(1, Ordering::SeqCst);
        BehaviorStatus::Success
    }
}

struct FailAction;

impl BehaviorNode for FailAction {
    fn ticks(&self, _: u64, before: BehaviorContext, after: BehaviorContext, status: BehaviorStatus) -> bool {
        status == BehaviorStatus::Failure && after.current_tick == before.current_tick
    }

    fn tick(&self, _: u64, _: &mut BehaviorContext) -> BehaviorStatus {
        BehaviorStatus::Failure
    }
}

struct RunningAction;

impl BehaviorNode for RunningAction {
    fn ticks(&self, _: u64, before: BehaviorContext, after: BehaviorContext, status: BehaviorStatus) -> bool {
        status == BehaviorStatus::Running && after.current_tick == before.current_tick
    }

    fn tick(&self, _: u64, _: &mut BehaviorContext) -> BehaviorStatus {
        BehaviorStatus::Running
    }
}

fn context() -> BehaviorContext {
    BehaviorContext {
        entity: 0,
        position: None,
        target: None,
        memory: EntityMemory::new(),
        current_tick: 0,
    }
}

#[test]
fn test_sequence_all_success() {
    let count = Arc::new(AtomicU32::new(0));
    let seq = Sequence {
        children: vec![
            Arc::new(CountAction {
                count: count.clone(),
            }),
            Arc::new(CountAction {
                count: count.clone(),
            }),
        ],
    };

    let mut ctx = context();
    let status = seq.tick(0, &mut ctx);
    assert_eq!(status, BehaviorStatus::Success);
    assert_eq!(count.load(Ordering::SeqCst), 2);
}

#[test]
fn test_selector_first_success() {
    let count = Arc::new(AtomicU32::new(0));
    let sel = Selector {
        children: vec![
            Arc::new(FailAction),
            Arc::new(CountAction {
                count: count.clone(),
            }),
        ],
    };

    let mut ctx = context();
    let status = sel.tick(0, &mut ctx);
    assert_eq!(status, BehaviorStatus::Success);
    assert_eq!(count.load(Ordering::SeqCst), 1);
}

#[test]
fn sequence_stops_at_first_failure() {
    let count = Arc::new(AtomicU32::new(0));
    let seq = Sequence {
        children: vec![
            Arc::new(CountAction { count: count.clone() }),
            Arc::new(FailAction),
            Arc::new(CountAction { count: count.clone() }),
        ],
    };
    let mut ctx = context();
    let (status, trace) = seq.tick_traced(0, &mut ctx);
    assert_eq!(status, BehaviorStatus::Failure);
    assert_eq!(trace, vec![BehaviorStatus::Success, BehaviorStatus::Failure]);
    assert_eq!(count.load(Ordering::SeqCst), 1);
}

#[test]
fn selector_of_failures_fails_and_running_stops() {
    let sel = Selector {
        children: vec![Arc::new(FailAction), Arc::new(FailAction)],
    };
    let mut ctx = context();
    assert_eq!(sel.tick(0, &mut ctx), BehaviorStatus::Failure);
    let sel2 = Selector {
        children: vec![Arc::new(RunningAction), Arc::new(FailAction)],
    };
    let (status, trace) = sel2.tick_traced(0, &mut ctx);
    assert_eq!(status, BehaviorStatus::Running);
    assert_eq!(trace.len(), 1);
    let empty = Sequence { children: vec![] };
    assert_eq!(empty.tick(0, &mut ctx), BehaviorStatus::Success);
}

struct AtTick(u64);

impl BehaviorCondition for AtTick {
    fn holds(&self, ctx: BehaviorContext) -> bool {
        ctx.current_tick == self.0
    }

    fn check(&self, ctx: &BehaviorContext) -> bool {
        ctx.current_tick == self.0
    }
}

#[test]
fn condition_runs_child_only_when_it_holds() {
    let count = Arc::new(AtomicU32::new(0));
    let cond = Condition {
        condition: Arc::new(AtTick(5)),
        child: Arc::new(CountAction { count: count.clone() }),
    };
    let mut ctx = context();
    assert_eq!(cond.tick(0, &mut ctx), BehaviorStatus::Failure);
    assert_eq!(count.load(Ordering::SeqCst), 0);
    ctx.current_tick = 5;
    assert_eq!(cond.tick(0, &mut ctx), BehaviorStatus::Success);
    assert_eq!(count.load(Ordering::SeqCst), 1);
}
