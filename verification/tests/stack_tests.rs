use match3_core::gameplay::GameState;
use match3_core::gamestates::{
    execute_possible_state_transition, record_transition_request, update_gamestate_stack,
    update_pause_state, GameStateData, GameStateTransitionState, GameStateType, PauseState,
    PauseStateFrameData, StackUpdateError, UpdateBehaviourDesc,
};
use match3_core::input::{MousePositionChangedData, WindowMessages};

fn moved(x: i32, y: i32) -> WindowMessages {
    WindowMessages::MousePositionChanged(MousePositionChangedData { x, y })
}

fn click(x: i32, y: i32) -> Vec<WindowMessages> {
    vec![moved(x, y), WindowMessages::MouseLeftButtonDown]
}

fn fresh_gameplay_stack() -> Vec<GameStateData> {
    let mut stack: Vec<GameStateData> = Vec::new();
    execute_possible_state_transition(
        GameStateTransitionState::TransitionToNewState(GameStateType::Gameplay),
        &mut stack,
    );
    stack
}

#[test]
fn pushing_and_popping_states() {
    let mut stack: Vec<GameStateData> = Vec::new();
    execute_possible_state_transition(
        GameStateTransitionState::TransitionToNewState(GameStateType::Gameplay),
        &mut stack,
    );
    assert_eq!(stack.len(), 1);
    assert!(matches!(stack[0], GameStateData::Gameplay(_)));

    execute_possible_state_transition(
        GameStateTransitionState::TransitionToNewState(GameStateType::Pause),
        &mut stack,
    );
    assert_eq!(stack.len(), 2);
    assert!(matches!(stack[1], GameStateData::Pause(_)));

    execute_possible_state_transition(GameStateTransitionState::Unchanged, &mut stack);
    assert_eq!(stack.len(), 2);

    execute_possible_state_transition(GameStateTransitionState::ReturnToPreviousState, &mut stack);
    assert_eq!(stack.len(), 1);
    assert!(matches!(stack[0], GameStateData::Gameplay(_)));

    // an empty stack after the last pop is the signal to terminate
    execute_possible_state_transition(GameStateTransitionState::ReturnToPreviousState, &mut stack);
    assert!(stack.is_empty());
    execute_possible_state_transition(GameStateTransitionState::ReturnToPreviousState, &mut stack);
    assert!(stack.is_empty());
}

#[test]
fn pushed_gameplay_state_starts_waiting() {
    let stack = fresh_gameplay_stack();
    match &stack[0] {
        GameStateData::Gameplay(gs) => {
            assert_eq!(gs.frame_data0.state, GameState::WaitingForSelection1);
            assert_eq!(gs.frame_data1.state, GameState::WaitingForSelection1);
            assert_eq!(gs.frame_data0.grid_items, gs.frame_data1.grid_items);
        },
        GameStateData::Pause(_) => panic!("expected a gameplay entry"),
    }
}

#[test]
fn even_tick_reads_buffer_zero_and_writes_buffer_one() {
    let mut stack = fresh_gameplay_stack();
    let mut messages = click(230, 460);
    let r = update_gamestate_stack(0, &mut stack, &mut messages);
    assert_eq!(r, GameStateTransitionState::Unchanged);
    // gameplay does not block input
    assert_eq!(messages.len(), 2);
    match &stack[0] {
        GameStateData::Gameplay(gs) => {
            assert_eq!(gs.frame_data0.state, GameState::WaitingForSelection1);
            assert!(matches!(gs.frame_data1.state, GameState::WaitingForSelection2(_)));
        },
        GameStateData::Pause(_) => panic!("expected a gameplay entry"),
    }
}

#[test]
fn odd_tick_reads_buffer_one_and_writes_buffer_zero() {
    let mut stack = fresh_gameplay_stack();
    let mut messages = click(230, 460);
    let r = update_gamestate_stack(1, &mut stack, &mut messages);
    assert_eq!(r, GameStateTransitionState::Unchanged);
    match &stack[0] {
        GameStateData::Gameplay(gs) => {
            assert!(matches!(gs.frame_data0.state, GameState::WaitingForSelection2(_)));
            assert_eq!(gs.frame_data1.state, GameState::WaitingForSelection1);
        },
        GameStateData::Pause(_) => panic!("expected a gameplay entry"),
    }
}

#[test]
fn pause_on_click_requests_a_pop_and_blocks_input() {
    let mut stack = fresh_gameplay_stack();
    execute_possible_state_transition(
        GameStateTransitionState::TransitionToNewState(GameStateType::Pause),
        &mut stack,
    );
    let mut messages = click(230, 460);
    let r = update_gamestate_stack(0, &mut stack, &mut messages);
    assert_eq!(r, GameStateTransitionState::ReturnToPreviousState);
    // pause swallowed the batch before gameplay could see it
    assert!(messages.is_empty());
    match &stack[0] {
        GameStateData::Gameplay(gs) => {
            assert_eq!(gs.frame_data1.state, GameState::WaitingForSelection1);
        },
        GameStateData::Pause(_) => panic!("expected a gameplay entry"),
    }
    // the outer loop then applies the pop
    execute_possible_state_transition(r, &mut stack);
    assert_eq!(stack.len(), 1);
    assert!(matches!(stack[0], GameStateData::Gameplay(_)));
}

#[test]
fn pause_without_click_stays_and_still_blocks() {
    let mut stack = fresh_gameplay_stack();
    execute_possible_state_transition(
        GameStateTransitionState::TransitionToNewState(GameStateType::Pause),
        &mut stack,
    );
    let mut messages = vec![moved(10, 20), WindowMessages::MouseFocusLost];
    let r = update_gamestate_stack(0, &mut stack, &mut messages);
    assert_eq!(r, GameStateTransitionState::Unchanged);
    assert!(messages.is_empty());
    assert_eq!(stack.len(), 2);
}

#[test]
fn stacked_pauses_yield_a_single_transition() {
    let mut stack = fresh_gameplay_stack();
    execute_possible_state_transition(
        GameStateTransitionState::TransitionToNewState(GameStateType::Pause),
        &mut stack,
    );
    execute_possible_state_transition(
        GameStateTransitionState::TransitionToNewState(GameStateType::Pause),
        &mut stack,
    );
    // only the topmost pause sees the click; the lower one observes a
    // cleared batch, so exactly one pop is requested
    let mut messages = click(230, 460);
    let r = update_gamestate_stack(0, &mut stack, &mut messages);
    assert_eq!(r, GameStateTransitionState::ReturnToPreviousState);
    assert!(messages.is_empty());
}

#[test]
fn update_pause_state_reports_the_click() {
    let prev = PauseStateFrameData::new();
    let mut next = PauseStateFrameData::new();
    let msgs = vec![moved(1, 1), WindowMessages::MouseLeftButtonDown];
    let r: UpdateBehaviourDesc = update_pause_state(&prev, &mut next, &msgs);
    assert!(r.block_input);
    assert_eq!(r.transition_state, GameStateTransitionState::ReturnToPreviousState);

    let msgs = vec![moved(1, 1), WindowMessages::MouseLeftButtonUp];
    let r = update_pause_state(&prev, &mut next, &msgs);
    assert!(r.block_input);
    assert_eq!(r.transition_state, GameStateTransitionState::Unchanged);
}

#[test]
fn recording_transitions_merges_at_most_one_request() {
    let push = GameStateTransitionState::TransitionToNewState(GameStateType::Pause);
    let pop = GameStateTransitionState::ReturnToPreviousState;
    let keep = GameStateTransitionState::Unchanged;

    assert_eq!(record_transition_request(keep, keep), Ok(keep));
    assert_eq!(record_transition_request(keep, push), Ok(push));
    assert_eq!(record_transition_request(pop, keep), Ok(pop));
    assert_eq!(record_transition_request(keep, pop), Ok(pop));
}

#[test]
fn simultaneous_transition_requests_are_fatal() {
    // a hypothetical tick in which one state wants to pause while another
    // already requested a pop must hit the one-transition-per-tick guard
    let push = GameStateTransitionState::TransitionToNewState(GameStateType::Pause);
    let pop = GameStateTransitionState::ReturnToPreviousState;
    assert_eq!(
        record_transition_request(pop, push),
        Err(StackUpdateError::ConflictingTransitions),
    );
    assert_eq!(
        record_transition_request(push, pop),
        Err(StackUpdateError::ConflictingTransitions),
    );
    assert_eq!(
        record_transition_request(pop, pop),
        Err(StackUpdateError::ConflictingTransitions),
    );
}

#[test]
fn pause_state_construction() {
    let p = PauseState::new();
    assert_eq!(p.frame_data0, PauseStateFrameData::new());
    assert_eq!(p.frame_data1, PauseStateFrameData::new());
}

#[test]
fn empty_stack_tick_is_a_no_op() {
    let mut stack: Vec<GameStateData> = Vec::new();
    let mut messages = click(230, 460);
    let r = update_gamestate_stack(0, &mut stack, &mut messages);
    assert_eq!(r, GameStateTransitionState::Unchanged);
    assert!(stack.is_empty());
    assert_eq!(messages.len(), 2);
}

#[test]
fn consecutive_ticks_alternate_the_buffers() {
    let mut stack = fresh_gameplay_stack();
    // tick 0 carries the click into buffer 1; tick 1 copies buffer 1 into
    // buffer 0 with no further input
    let mut messages = click(230, 460);
    update_gamestate_stack(0, &mut stack, &mut messages);
    let mut messages: Vec<WindowMessages> = Vec::new();
    update_gamestate_stack(1, &mut stack, &mut messages);
    match &stack[0] {
        GameStateData::Gameplay(gs) => {
            assert!(matches!(gs.frame_data0.state, GameState::WaitingForSelection2(_)));
            assert!(matches!(gs.frame_data1.state, GameState::WaitingForSelection2(_)));
            assert_eq!(gs.frame_data0.mouse_pos_worldspace_y, 500);
        },
        GameStateData::Pause(_) => panic!("expected a gameplay entry"),
    }
}
