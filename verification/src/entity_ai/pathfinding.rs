//! The outcome of a path search.
use vstd::prelude::*;
use crate::world::BlockPos;

verus! {

/// What a path search found.
#[derive(Clone, Debug)]
pub enum PathfindingResult {
    /// A path reaching the goal.
    Path(Vec<BlockPos>),
    /// A path towards the goal that stops short of it.
    Partial(Vec<BlockPos>),
    /// No path.
    Failed,
}

impl PathfindingResult {
    /// Sorts a found path by whether it ends at the goal: a path whose last
    /// step is the goal is complete, any other is partial.
    pub fn from_steps(path: Vec<BlockPos>, goal: BlockPos) -> (r: PathfindingResult)
        ensures
            path@.len() > 0 && path@.last() == goal ==> (r matches PathfindingResult::Path(p) && p@ == path@),
            !(path@.len() > 0 && path@.last() == goal) ==> (r matches PathfindingResult::Partial(p) && p@ == path@),
    {
        let ends_at_goal = path.len() > 0 && path[path.len() - 1] == goal;
        if ends_at_goal {
            PathfindingResult::Path(path)
        } else {
            PathfindingResult::Partial(path)
        }
    }
}

} // verus!
