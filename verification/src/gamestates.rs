//! The game-state stack and its per-tick driver.
//!
//! Active game states (gameplay, pause) live on a stack whose order encodes
//! UI layering: the topmost state was pushed last and receives input first.
//! Each tick walks the stack top to bottom, updates every state through its
//! double-buffered frame pair, clears the input batch as soon as a state
//! blocks it, and collects at most one transition request — a second request
//! in the same tick is a fatal logic error, proved unreachable here for the
//! states this crate ships.

use vstd::prelude::*;
use crate::gameplay::{
    FrameModel, GameplayStateFrameData, frame_wf, gameplay_step, initial_frame,
    update_gameplay_state,
};
use crate::input::{WindowMessages, msgs_in_range};

verus! {

/// What a state's per-tick update tells the stack driver.
#[derive(Clone, Copy, PartialEq, Eq, Structural, Debug)]
pub struct UpdateBehaviourDesc {
    /// Whether a state transition is required after this tick.
    pub transition_state: GameStateTransitionState,
    /// Whether this state consumed the input batch, hiding it from states
    /// lower in the stack.
    pub block_input: bool,
}

/// The kinds of game state that can be pushed onto the stack.
#[derive(Clone, Copy, PartialEq, Eq, Structural, Debug)]
pub enum GameStateType {
    Pause,
    Gameplay,
}

/// A state-stack transition request: keep the stack as it is, push a new
/// state on top, or pop the topmost state.
#[derive(Clone, Copy, PartialEq, Eq, Structural, Debug)]
pub enum GameStateTransitionState {
    Unchanged,
    TransitionToNewState(GameStateType),
    ReturnToPreviousState,
}

/// Raised when two states request a stack transition in the same tick — a
/// programming defect, not a recoverable condition.
#[derive(Clone, Copy, PartialEq, Eq, Structural, Debug)]
pub enum StackUpdateError {
    ConflictingTransitions,
}

/// Per-tick data of the pause state. The pause overlay's visual fade-in is
/// floating-point render-side state and lives with the renderer; the
/// simulation itself carries nothing across pause ticks.
#[derive(Clone, Copy, PartialEq, Eq, Structural, Debug)]
pub struct PauseStateFrameData {
}

impl PauseStateFrameData {
    pub fn new() -> (frame: PauseStateFrameData) {
        PauseStateFrameData {  }
    }
}

/// A gameplay instance: its two alternately written frame buffers.
pub struct GameplayState {
    pub frame_data0: GameplayStateFrameData,
    pub frame_data1: GameplayStateFrameData,
}

impl GameplayState {
    /// Creates a gameplay instance with both frame buffers holding the
    /// seeded initial frame.
    pub fn new() -> (s: GameplayState)
        ensures
            s.frame_data0@ == initial_frame(),
            s.frame_data1@ == initial_frame(),
    {
        GameplayState {
            frame_data0: GameplayStateFrameData::new(),
            frame_data1: GameplayStateFrameData::new(),
        }
    }
}

/// A pause instance: its two (empty) frame buffers.
pub struct PauseState {
    pub frame_data0: PauseStateFrameData,
    pub frame_data1: PauseStateFrameData,
}

impl PauseState {
    pub fn new() -> (s: PauseState) {
        PauseState { frame_data0: PauseStateFrameData::new(), frame_data1: PauseStateFrameData::new() }
    }
}

/// One entry of the game-state stack.
pub enum GameStateData {
    Gameplay(GameplayState),
    Pause(PauseState),
}

/// Mathematical model of a stack entry: a gameplay entry is its two frame
/// models, a pause entry carries no simulation state.
#[verifier::ext_equal]
pub ghost enum StackEntryModel {
    Gameplay { frame0: FrameModel, frame1: FrameModel },
    Pause,
}

impl View for GameStateData {
    type V = StackEntryModel;

    open spec fn view(&self) -> StackEntryModel {
        match *self {
            GameStateData::Gameplay(ref s) => StackEntryModel::Gameplay {
                frame0: s.frame_data0@,
                frame1: s.frame_data1@,
            },
            GameStateData::Pause(_) => StackEntryModel::Pause,
        }
    }
}

/// The model of a whole stack, bottom first.
pub open spec fn stack_view(s: Seq<GameStateData>) -> Seq<StackEntryModel> {
    Seq::new(s.len(), |i: int| s[i]@)
}

pub open spec fn entry_wf(e: StackEntryModel) -> bool {
    match e {
        StackEntryModel::Gameplay { frame0, frame1 } => frame_wf(frame0) && frame_wf(frame1),
        StackEntryModel::Pause => true,
    }
}

pub open spec fn stack_wf(s: Seq<StackEntryModel>) -> bool {
    forall|i: int| 0 <= i < s.len() ==> entry_wf(s[i])
}

/// The batch contains a primary-button press.
pub open spec fn has_left_button_down(msgs: Seq<WindowMessages>) -> bool {
    exists|i: int| 0 <= i < msgs.len() && msgs[i] == WindowMessages::MouseLeftButtonDown
}

/// Advances one pause frame by one tick: a primary-button press resumes the
/// game by popping the pause state, and pause always swallows the input
/// batch so the gameplay below never sees it.
pub fn update_pause_state(
    prev_frame_params: &PauseStateFrameData,
    frame_params: &mut PauseStateFrameData,
    messages: &Vec<WindowMessages>,
) -> (r: UpdateBehaviourDesc)
    ensures
        r.block_input == true,
        r.transition_state == (if has_left_button_down(messages@) {
            GameStateTransitionState::ReturnToPreviousState
        } else {
            GameStateTransitionState::Unchanged
        }),
{
    let mut i: usize = 0;
    while i < messages.len()
        invariant
            i <= messages@.len(),
            forall|j: int| 0 <= j < i ==> messages@[j] != WindowMessages::MouseLeftButtonDown,
        decreases messages@.len() - i,
    {
        let m = messages[i];
        if let WindowMessages::MouseLeftButtonDown = m {
            return UpdateBehaviourDesc {
                transition_state: GameStateTransitionState::ReturnToPreviousState,
                block_input: true,
            };
        }
        i = i + 1;
    }
    UpdateBehaviourDesc {
        transition_state: GameStateTransitionState::Unchanged,
        block_input: true,
    }
}

/// Applies a pending transition request to the stack: pushing constructs
/// the new state's double-buffered frame data, popping removes the topmost
/// entry; an empty stack after a pop is the caller's signal to terminate.
pub fn execute_possible_state_transition(
    state_transition: GameStateTransitionState,
    game_state_stack: &mut Vec<GameStateData>,
)
    ensures
        state_transition == GameStateTransitionState::Unchanged ==> stack_view(
            final(game_state_stack)@,
        ) == stack_view(old(game_state_stack)@),
        state_transition == GameStateTransitionState::TransitionToNewState(
            GameStateType::Gameplay,
        ) ==> stack_view(final(game_state_stack)@) == stack_view(old(game_state_stack)@).push(
            (StackEntryModel::Gameplay { frame0: initial_frame(), frame1: initial_frame() }),
        ),
        state_transition == GameStateTransitionState::TransitionToNewState(
            GameStateType::Pause,
        ) ==> stack_view(final(game_state_stack)@) == stack_view(old(game_state_stack)@).push(
            StackEntryModel::Pause,
        ),
        state_transition == GameStateTransitionState::ReturnToPreviousState ==> stack_view(
            final(game_state_stack)@,
        ) == (if old(game_state_stack)@.len() > 0 {
            stack_view(old(game_state_stack)@).drop_last()
        } else {
            stack_view(old(game_state_stack)@)
        }),
{
    match state_transition {
        GameStateTransitionState::TransitionToNewState(x) => {
            match x {
                GameStateType::Gameplay => {
                    game_state_stack.push(GameStateData::Gameplay(GameplayState::new()));
                },
                GameStateType::Pause => {
                    game_state_stack.push(GameStateData::Pause(PauseState::new()));
                },
            }
            proof {
                assert(stack_view(final(game_state_stack)@) =~= stack_view(
                    old(game_state_stack)@,
                ).push(final(game_state_stack)@.last()@));
            }
        },
        GameStateTransitionState::ReturnToPreviousState => {
            if game_state_stack.len() > 0 {
                let popped = game_state_stack.pop();
                proof {
                    assert(stack_view(final(game_state_stack)@) =~= stack_view(
                        old(game_state_stack)@,
                    ).drop_last());
                }
            }
        },
        GameStateTransitionState::Unchanged => {
            proof {
                assert(stack_view(final(game_state_stack)@) =~= stack_view(old(game_state_stack)@));
            }
        },
    }
}

/// Merges one state's transition request into the tick's pending request;
/// the later request wins only when nothing is pending.
pub open spec fn merge_transition(
    pending: GameStateTransitionState,
    incoming: GameStateTransitionState,
) -> GameStateTransitionState {
    if incoming == GameStateTransitionState::Unchanged {
        pending
    } else {
        incoming
    }
}

/// Records a state's transition request against the request already pending
/// this tick. At most one state may request a transition per tick: a second
/// simultaneous request is rejected as a fatal logic error.
pub fn record_transition_request(
    pending: GameStateTransitionState,
    incoming: GameStateTransitionState,
) -> (r: Result<GameStateTransitionState, StackUpdateError>)
    ensures
        r == (if incoming == GameStateTransitionState::Unchanged || pending
            == GameStateTransitionState::Unchanged {
            Result::<GameStateTransitionState, StackUpdateError>::Ok(
                merge_transition(pending, incoming),
            )
        } else {
            Result::<GameStateTransitionState, StackUpdateError>::Err(
                StackUpdateError::ConflictingTransitions,
            )
        }),
{
    match incoming {
        GameStateTransitionState::Unchanged => Result::Ok(pending),
        _ => {
            match pending {
                GameStateTransitionState::Unchanged => Result::Ok(incoming),
                _ => Result::Err(StackUpdateError::ConflictingTransitions),
            }
        },
    }
}

/// One stack entry's tick: a gameplay entry writes the frame buffer chosen
/// by the tick parity from the other one and passes the batch on; a pause
/// entry swallows the batch and may request a pop.
pub open spec fn entry_step(e: StackEntryModel, msgs: Seq<WindowMessages>, even: bool) -> (
    StackEntryModel,
    Seq<WindowMessages>,
    GameStateTransitionState,
) {
    match e {
        StackEntryModel::Gameplay { frame0, frame1 } => {
            let updated = if even {
                StackEntryModel::Gameplay { frame0, frame1: gameplay_step(frame0, msgs) }
            } else {
                StackEntryModel::Gameplay { frame0: gameplay_step(frame1, msgs), frame1 }
            };
            (updated, msgs, GameStateTransitionState::Unchanged)
        },
        StackEntryModel::Pause => {
            let transition = if has_left_button_down(msgs) {
                GameStateTransitionState::ReturnToPreviousState
            } else {
                GameStateTransitionState::Unchanged
            };
            (StackEntryModel::Pause, Seq::<WindowMessages>::empty(), transition)
        },
    }
}

/// Walks entries `i` down to `0`, threading the (possibly cleared) input
/// batch and the pending transition request through the walk.
pub open spec fn stack_step(
    entries: Seq<StackEntryModel>,
    i: int,
    msgs: Seq<WindowMessages>,
    even: bool,
    pending: GameStateTransitionState,
) -> (Seq<StackEntryModel>, Seq<WindowMessages>, GameStateTransitionState)
    decreases i + 1,
{
    if i < 0 || i >= entries.len() {
        (entries, msgs, pending)
    } else {
        let stepped = entry_step(entries[i], msgs, even);
        stack_step(
            entries.update(i, stepped.0),
            i - 1,
            stepped.1,
            even,
            merge_transition(pending, stepped.2),
        )
    }
}

/// One tick of the whole stack, started at the top with a fresh pending
/// request: the updated entries, the remains of the input batch, and the
/// tick's single transition request.
pub open spec fn stack_tick(
    entries: Seq<StackEntryModel>,
    msgs: Seq<WindowMessages>,
    even: bool,
) -> (Seq<StackEntryModel>, Seq<WindowMessages>, GameStateTransitionState) {
    stack_step(entries, entries.len() - 1, msgs, even, GameStateTransitionState::Unchanged)
}

spec fn stack_with_processed(
    stack: Seq<GameStateData>,
    processed: Seq<GameStateData>,
) -> Seq<StackEntryModel> {
    stack_view(stack) + stack_view(processed).reverse()
}

/// Advances every stacked state by one fixed tick, top of the stack first.
/// On even ticks each state reads frame buffer 0 and writes buffer 1, on
/// odd ticks the reverse. A state that blocks input clears the batch before
/// lower states see it; because every pause entry blocks, at most one entry
/// can request a transition per tick, and the conflicting-request abort is
/// unreachable.
pub fn update_gamestate_stack(
    update_frame_number: u64,
    game_state_stack: &mut Vec<GameStateData>,
    messages: &mut Vec<WindowMessages>,
) -> (r: GameStateTransitionState)
    requires
        stack_wf(stack_view(old(game_state_stack)@)),
        msgs_in_range(old(messages)@),
    ensures
        stack_view(final(game_state_stack)@) == stack_tick(
            stack_view(old(game_state_stack)@),
            old(messages)@,
            update_frame_number % 2 == 0,
        ).0,
        final(messages)@ == stack_tick(
            stack_view(old(game_state_stack)@),
            old(messages)@,
            update_frame_number % 2 == 0,
        ).1,
        r == stack_tick(
            stack_view(old(game_state_stack)@),
            old(messages)@,
            update_frame_number % 2 == 0,
        ).2,
        stack_wf(stack_view(final(game_state_stack)@)),
{
    let ghost orig_models = stack_view(old(game_state_stack)@);
    let ghost msgs0 = old(messages)@;
    let even = update_frame_number % 2 == 0;

    let mut game_state_transition = GameStateTransitionState::Unchanged;
    let mut processed: Vec<GameStateData> = Vec::new();

    while game_state_stack.len() > 0
        invariant
            msgs_in_range(messages@),
            stack_wf(stack_view(game_state_stack@)),
            stack_wf(stack_view(processed@)),
            game_state_transition != GameStateTransitionState::Unchanged ==> messages@.len() == 0,
            stack_step(
                orig_models,
                orig_models.len() - 1,
                msgs0,
                even,
                GameStateTransitionState::Unchanged,
            ) == stack_step(
                stack_with_processed(game_state_stack@, processed@),
                game_state_stack@.len() - 1,
                messages@,
                even,
                game_state_transition,
            ),
        decreases game_state_stack.len(),
    {
        let ghost stack_before = game_state_stack@;
        let ghost processed_before = processed@;
        let ghost msgs_before = messages@;
        let ghost pending_before = game_state_transition;
        let ghost combined = stack_with_processed(stack_before, processed_before);
        let ghost top = (stack_before.len() - 1) as int;

        let mut entry = game_state_stack.pop().unwrap();
        proof {
            assert(entry@ == combined[top]);
            assert(entry_wf(entry@)) by {
                assert(stack_view(stack_before)[top] == entry@);
            }
        }

        let state_status = match &mut entry {
            GameStateData::Gameplay(game_state) => {
                if even {
                    update_gameplay_state(
                        &game_state.frame_data0,
                        &mut game_state.frame_data1,
                        messages,
                    )
                } else {
                    update_gameplay_state(
                        &game_state.frame_data1,
                        &mut game_state.frame_data0,
                        messages,
                    )
                }
            },
            GameStateData::Pause(pause_state) => {
                if even {
                    update_pause_state(
                        &pause_state.frame_data0,
                        &mut pause_state.frame_data1,
                        messages,
                    )
                } else {
                    update_pause_state(
                        &pause_state.frame_data1,
                        &mut pause_state.frame_data0,
                        messages,
                    )
                }
            },
        };

        if state_status.block_input {
            // lower states must observe no input this tick
            messages.clear();
        }

        match record_transition_request(game_state_transition, state_status.transition_state) {
            Result::Ok(merged) => {
                game_state_transition = merged;
            },
            Result::Err(_) => {
                // two transition requests in one tick: proved impossible,
                // since a request only comes from a state that also blocked
                // and cleared the batch
                vstd::pervasive::unreached::<()>()
            },
        }

        processed.push(entry);

        proof {
            let stepped = entry_step(combined[top], msgs_before, even);
            assert(entry@ == stepped.0);
            assert(messages@ == stepped.1);
            assert(game_state_transition == merge_transition(pending_before, stepped.2));
            assert(stack_with_processed(game_state_stack@, processed@) =~= combined.update(
                top,
                stepped.0,
            ));
            assert forall|i: int| 0 <= i < game_state_stack@.len() implies entry_wf(
                stack_view(game_state_stack@)[i],
            ) by {
                assert(stack_view(game_state_stack@)[i] == game_state_stack@[i]@);
                assert(stack_view(stack_before)[i] == stack_before[i]@);
            }
            assert forall|i: int| 0 <= i < processed@.len() implies entry_wf(
                stack_view(processed@)[i],
            ) by {
                assert(stack_view(processed@)[i] == processed@[i]@);
                if i < processed_before.len() {
                    assert(stack_view(processed_before)[i] == processed_before[i]@);
                } else {
                    assert(processed@[i]@ == entry@);
                }
            }
        }
    }

    // the stack was drained top-first into `processed`; rebuild it
    while processed.len() > 0
        invariant
            stack_wf(stack_view(game_state_stack@)),
            stack_wf(stack_view(processed@)),
            stack_with_processed(game_state_stack@, processed@) == stack_tick(
                orig_models,
                msgs0,
                even,
            ).0,
        decreases processed.len(),
    {
        let ghost stack_before = game_state_stack@;
        let ghost processed_before = processed@;
        let entry = processed.pop().unwrap();
        game_state_stack.push(entry);
        proof {
            assert(entry@ == processed_before.last()@) by {
                assert(stack_view(processed_before)[processed_before.len() - 1]
                    == processed_before.last()@);
            }
            assert(entry_wf(entry@)) by {
                assert(stack_view(processed_before)[processed_before.len() - 1]
                    == processed_before.last()@);
            }
            assert(stack_with_processed(game_state_stack@, processed@) =~= stack_tick(
                orig_models,
                msgs0,
                even,
            ).0);
            assert forall|i: int| 0 <= i < game_state_stack@.len() implies entry_wf(
                stack_view(game_state_stack@)[i],
            ) by {
                assert(stack_view(game_state_stack@)[i] == game_state_stack@[i]@);
                if i < stack_before.len() {
                    assert(stack_view(stack_before)[i] == stack_before[i]@);
                } else {
                    assert(game_state_stack@[i]@ == entry@);
                }
            }
            assert forall|i: int| 0 <= i < processed@.len() implies entry_wf(
                stack_view(processed@)[i],
            ) by {
                assert(stack_view(processed@)[i] == processed@[i]@);
                assert(stack_view(processed_before)[i] == processed_before[i]@);
            }
        }
    }

    proof {
        assert(stack_view(game_state_stack@) =~= stack_with_processed(
            game_state_stack@,
            processed@,
        ));
    }

    game_state_transition
}

} // verus!
