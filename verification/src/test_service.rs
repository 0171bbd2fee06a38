//! The test service: executing a range of blocks from disk.
//!
//! The service looks for the input of each block in turn, and executes the blocks whose input is
//! there. A block that cannot be executed does not hold up the others. The machine here makes the
//! decisions. Its caller carries out each action and reports the event that came of it.

use vstd::prelude::*;
use crate::inputs::InputPathError;

verus! {

/// What the service waits for.
#[derive(Clone, Copy, Debug, PartialEq, Eq, Structural)]
pub enum TestState {
    /// The input of a block.
    Locating { block: u64, end: u64 },
    /// The end of an execution.
    Executing { block: u64, end: u64 },
    /// Nothing: each block has had its turn.
    Finished,
    /// Nothing: a block has no input path.
    Failed,
}

/// What happened.
#[derive(Debug)]
pub enum TestEvent {
    /// The path of a block's input, and whether there is a file.
    Located { input: Result<String, InputPathError>, exists: bool },
    /// An execution ended, well or not.
    Executed,
}

/// What is to be done.
#[derive(Clone, Debug)]
pub enum TestAction {
    /// Find the input of a block.
    Locate { block: u64 },
    /// Execute a block.
    Execute { block: u64, input_path: String },
    /// Stop.
    Finish,
    /// Stop with an error.
    Fail(InputPathError),
}

/// Going on with the block `block` of a range that ends with `end`.
pub open spec fn test_turn(block: u64, end: u64) -> (TestState, TestAction) {
    if block <= end {
        (TestState::Locating { block, end }, TestAction::Locate { block })
    } else {
        (TestState::Finished, TestAction::Finish)
    }
}

/// Going on after the block `block`.
pub open spec fn test_next(block: u64, end: u64) -> (TestState, TestAction) {
    if block < end {
        test_turn((block + 1) as u64, end)
    } else {
        (TestState::Finished, TestAction::Finish)
    }
}

/// Whether an event can happen in a state.
pub open spec fn test_expects(state: TestState, event: TestEvent) -> bool {
    match state {
        TestState::Locating { .. } => event is Located,
        TestState::Executing { .. } => event is Executed,
        TestState::Finished => false,
        TestState::Failed => false,
    }
}

/// The state and the action that follow an event.
pub open spec fn test_step(state: TestState, event: TestEvent) -> (TestState, TestAction) {
    match (state, event) {
        (TestState::Locating { block, end }, TestEvent::Located { input: Err(e), .. }) => (
            TestState::Failed,
            TestAction::Fail(e),
        ),
        (TestState::Locating { block, end }, TestEvent::Located { input: Ok(path), exists }) =>
            if exists {
                (
                    TestState::Executing { block, end },
                    TestAction::Execute { block, input_path: path },
                )
            } else {
                test_next(block, end)
            },
        (TestState::Executing { block, end }, TestEvent::Executed) => test_next(block, end),
        _ => (state, TestAction::Finish),
    }
}

/// Begins with the blocks `start_block` to `end_block`, both included.
pub fn start_test_service(start_block: u64, end_block: u64) -> (r: (TestState, TestAction))
    ensures
        r == test_turn(start_block, end_block),
{
    if start_block <= end_block {
        (
            TestState::Locating { block: start_block, end: end_block },
            TestAction::Locate { block: start_block },
        )
    } else {
        (TestState::Finished, TestAction::Finish)
    }
}

impl TestState {
    /// Goes on after an event.
    pub fn step(self, event: TestEvent) -> (r: (TestState, TestAction))
        requires
            test_expects(self, event),
        ensures
            r == test_step(self, event),
    {
        let (block, end): (u64, u64) = match self {
            TestState::Locating { block, end } => match event {
                TestEvent::Located { input: Err(e), .. } => {
                    return (TestState::Failed, TestAction::Fail(e));
                },
                TestEvent::Located { input: Ok(path), exists } => {
                    if exists {
                        return (
                            TestState::Executing { block, end },
                            TestAction::Execute { block, input_path: path },
                        );
                    }
                    (block, end)
                },
                TestEvent::Executed => {
                    return (self, TestAction::Finish);
                },
            },
            TestState::Executing { block, end } => (block, end),
            TestState::Finished | TestState::Failed => {
                return (self, TestAction::Finish);
            },
        };
        if block < end {
            start_test_service(block + 1, end)
        } else {
            (TestState::Finished, TestAction::Finish)
        }
    }
}

/// The blocks that are looked for when an action is carried out.
pub open spec fn located(action: TestAction) -> Seq<u64> {
    match action {
        TestAction::Locate { block } => seq![block],
        _ => Seq::<u64>::empty(),
    }
}

/// The state after a history of events, and the blocks that were looked for by then. Events that
/// cannot happen leave no trace.
pub open spec fn test_history(start: u64, end: u64, events: Seq<TestEvent>) -> (TestState, Seq<u64>)
    decreases events.len(),
{
    if events.len() == 0 {
        let (state, action) = test_turn(start, end);
        (state, located(action))
    } else {
        let (state, seen) = test_history(start, end, events.drop_last());
        if test_expects(state, events.last()) {
            let (next, action) = test_step(state, events.last());
            (next, seen + located(action))
        } else {
            (state, seen)
        }
    }
}

/// The blocks are looked for one after the other from the first one on, each once and none left out,
/// and none after the last one. A service that has finished has looked for all of them.
pub proof fn law_each_block_has_its_turn(start: u64, end: u64, events: Seq<TestEvent>)
    ensures
        ({
            let (state, seen) = test_history(start, end, events);
            &&& forall|i: int| 0 <= i < seen.len() ==> #[trigger] seen[i] == start + i
            &&& forall|i: int| 0 <= i < seen.len() ==> #[trigger] seen[i] <= end
            &&& state is Finished ==> seen.len() == (if start <= end {
                end - start + 1
            } else {
                0
            })
            &&& state matches TestState::Locating { block, end: last } ==> {
                &&& last == end
                &&& seen.len() > 0
                &&& seen.last() == block
            }
            &&& state matches TestState::Executing { block, end: last } ==> {
                &&& last == end
                &&& seen.len() > 0
                &&& seen.last() == block
            }
        }),
    decreases events.len(),
{
    if events.len() > 0 {
        law_each_block_has_its_turn(start, end, events.drop_last());
    }
}

/// What becomes of a block of the range. A block whose input is there is executed with that input, one
/// whose input is not there is passed over, and one without an input path ends the service with its
/// error. After a block has had its turn the next one has, up to the last.
pub proof fn law_turn_of_a_block(block: u64, end: u64, input: Result<String, InputPathError>)
    requires
        block <= end,
    ensures
        input matches Ok(path) ==> {
            let (state, action) = test_step(
                TestState::Locating { block, end },
                TestEvent::Located { input, exists: true },
            );
            &&& action == (TestAction::Execute { block, input_path: path })
            &&& state == (TestState::Executing { block, end })
        },
        input matches Err(e) ==> forall|exists: bool| #[trigger]
            test_step(
                TestState::Locating { block, end },
                TestEvent::Located { input, exists },
            ) == (TestState::Failed, TestAction::Fail(e)),
        input is Ok ==> {
            let passed = test_step(
                TestState::Locating { block, end },
                TestEvent::Located { input, exists: false },
            );
            let executed = test_step(TestState::Executing { block, end }, TestEvent::Executed);
            &&& passed == executed
            &&& block == end ==> passed == (TestState::Finished, TestAction::Finish)
            &&& block < end ==> {
                &&& passed.0 == (TestState::Locating { block: (block + 1) as u64, end })
                &&& passed.1 == (TestAction::Locate { block: (block + 1) as u64 })
            }
        },
{
}

/// How the service begins: with the first block of the range, and not at all with an empty range.
pub proof fn law_first_turn(start: u64, end: u64)
    ensures
        start <= end ==> test_turn(start, end) == (
            TestState::Locating { block: start, end },
            TestAction::Locate { block: start },
        ),
        start > end ==> test_turn(start, end) == (TestState::Finished, TestAction::Finish),
{
}

} // verus!
