//! Playback of a video beside its audio track: the lifecycle that joins the
//! two pipelines, and the pacing of frames against one clock.
//!
//! Nothing here sleeps, spawns or draws. The caller does, as the actions
//! returned here tell it, and reports back what happened.

use vstd::prelude::*;

verus! {

/// One of the two pipelines of a playback.
#[derive(Clone, Copy, Debug, PartialEq, Eq, Structural)]
pub enum Pipeline {
    Video,
    Audio,
}

/// The pipelines still at work while a playback runs.
#[derive(Clone, Copy, Debug, PartialEq, Eq, Structural)]
pub enum Active {
    Both,
    VideoOnly,
    AudioOnly,
}

/// Where a playback stands.
#[derive(Clone, Copy, Debug, PartialEq, Eq, Structural)]
pub enum PlaybackState {
    /// Not started.
    Idle,
    /// Started; at least one pipeline is at work.
    Running(Active),
    /// Both pipelines came to their end.
    Finished,
    /// Stopped on request before both pipelines came to their end.
    Interrupted,
}

/// What can happen to a playback.
#[derive(Clone, Copy, Debug, PartialEq, Eq, Structural)]
pub enum PlaybackEvent {
    /// Playback is asked to start.
    Start,
    /// A pipeline reached the end of its stream.
    Ended(Pipeline),
    /// A pipeline gave up on a failure of its own.
    Failed(Pipeline),
    /// A stop was asked for, by a pipeline or from outside.
    StopRequested,
}

/// What the caller is to do after an event.
#[derive(Clone, Copy, Debug, PartialEq, Eq, Structural)]
pub enum PlaybackAction {
    /// Nothing.
    Nothing,
    /// Take the clock origin and start both pipelines.
    Launch,
    /// Wait for the pipelines to return, then restore the display.
    RestoreDisplay,
}

/// The pipelines at work once `pipeline` is over, if any is left.
pub open spec fn without(active: Active, pipeline: Pipeline) -> Option<Active> {
    match (active, pipeline) {
        (Active::Both, Pipeline::Video) => Some(Active::AudioOnly),
        (Active::Both, Pipeline::Audio) => Some(Active::VideoOnly),
        (Active::VideoOnly, Pipeline::Video) => None,
        (Active::AudioOnly, Pipeline::Audio) => None,
        (Active::VideoOnly, Pipeline::Audio) => Some(Active::VideoOnly),
        (Active::AudioOnly, Pipeline::Video) => Some(Active::AudioOnly),
    }
}

/// The state after an event. A pipeline that fails is over like one that
/// ends, and the other goes on; a stop interrupts a running playback;
/// nothing moves a playback that has not started but a start, and nothing
/// moves one that is over.
pub open spec fn next_state(state: PlaybackState, event: PlaybackEvent) -> PlaybackState {
    match (state, event) {
        (PlaybackState::Idle, PlaybackEvent::Start) => PlaybackState::Running(Active::Both),
        (PlaybackState::Running(_), PlaybackEvent::StopRequested) => PlaybackState::Interrupted,
        (PlaybackState::Running(active), PlaybackEvent::Ended(pipeline)) => match without(
            active,
            pipeline,
        ) {
            Some(left) => PlaybackState::Running(left),
            None => PlaybackState::Finished,
        },
        (PlaybackState::Running(active), PlaybackEvent::Failed(pipeline)) => match without(
            active,
            pipeline,
        ) {
            Some(left) => PlaybackState::Running(left),
            None => PlaybackState::Finished,
        },
        _ => state,
    }
}

/// Whether a playback is over.
pub open spec fn is_over(state: PlaybackState) -> bool {
    state == PlaybackState::Finished || state == PlaybackState::Interrupted
}

/// What the caller is to do on an event: launch on the start, restore the
/// display on the step that ends the playback, nothing otherwise.
pub open spec fn action_on(state: PlaybackState, event: PlaybackEvent) -> PlaybackAction {
    if state == PlaybackState::Idle && event == PlaybackEvent::Start {
        PlaybackAction::Launch
    } else if !is_over(state) && is_over(next_state(state, event)) {
        PlaybackAction::RestoreDisplay
    } else {
        PlaybackAction::Nothing
    }
}

/// The lifecycle of one playback.
#[derive(Clone, Copy, Debug)]
pub struct PlaybackCoordinator {
    state: PlaybackState,
}

impl View for PlaybackCoordinator {
    type V = PlaybackState;

    closed spec fn view(&self) -> PlaybackState {
        self.state
    }
}

impl PlaybackCoordinator {
    /// A playback that has not started.
    pub fn new() -> (coordinator: PlaybackCoordinator)
        ensures
            coordinator@ == PlaybackState::Idle,
    {
        PlaybackCoordinator { state: PlaybackState::Idle }
    }

    /// Where the playback stands.
    pub fn state(&self) -> (state: PlaybackState)
        ensures
            state == self@,
    {
        self.state
    }

    /// Whether the pipelines are to leave their loops at their next frame
    /// or packet: the playback was interrupted.
    pub fn stop_requested(&self) -> (stop: bool)
        ensures
            stop == (self@ == PlaybackState::Interrupted),
    {
        match self.state {
            PlaybackState::Interrupted => true,
            _ => false,
        }
    }

    /// Whether the playback is over.
    pub fn over(&self) -> (over: bool)
        ensures
            over == is_over(self@),
    {
        match self.state {
            PlaybackState::Finished => true,
            PlaybackState::Interrupted => true,
            _ => false,
        }
    }

    /// Takes an event and says what the caller is to do.
    pub fn handle(&mut self, event: PlaybackEvent) -> (action: PlaybackAction)
        ensures
            final(self)@ == next_state(old(self)@, event),
            action == action_on(old(self)@, event),
    {
        let (state, action) = step(self.state, event);
        self.state = state;
        action
    }
}

/// The pipelines at work once `pipeline` is over, if any is left.
fn remaining(active: Active, pipeline: Pipeline) -> (left: Option<Active>)
    ensures
        left == without(active, pipeline),
{
    match (active, pipeline) {
        (Active::Both, Pipeline::Video) => Some(Active::AudioOnly),
        (Active::Both, Pipeline::Audio) => Some(Active::VideoOnly),
        (Active::VideoOnly, Pipeline::Video) => None,
        (Active::AudioOnly, Pipeline::Audio) => None,
        (Active::VideoOnly, Pipeline::Audio) => Some(Active::VideoOnly),
        (Active::AudioOnly, Pipeline::Video) => Some(Active::AudioOnly),
    }
}

/// One step of the lifecycle: the state after the event and what the caller
/// is to do.
pub fn step(state: PlaybackState, event: PlaybackEvent) -> (outcome: (
    PlaybackState,
    PlaybackAction,
))
    ensures
        outcome.0 == next_state(state, event),
        outcome.1 == action_on(state, event),
{
    match state {
        PlaybackState::Idle => match event {
            PlaybackEvent::Start => (PlaybackState::Running(Active::Both), PlaybackAction::Launch),
            _ => (state, PlaybackAction::Nothing),
        },
        PlaybackState::Running(active) => match event {
            PlaybackEvent::Start => (state, PlaybackAction::Nothing),
            PlaybackEvent::StopRequested => (
                PlaybackState::Interrupted,
                PlaybackAction::RestoreDisplay,
            ),
            PlaybackEvent::Ended(pipeline) | PlaybackEvent::Failed(pipeline) => match remaining(
                active,
                pipeline,
            ) {
                Some(left) => (PlaybackState::Running(left), PlaybackAction::Nothing),
                None => (PlaybackState::Finished, PlaybackAction::RestoreDisplay),
            },
        },
        PlaybackState::Finished => (state, PlaybackAction::Nothing),
        PlaybackState::Interrupted => (state, PlaybackAction::Nothing),
    }
}

/// A playback that is over stays as it is, and asks for nothing more.
pub proof fn lemma_over_is_final(state: PlaybackState, event: PlaybackEvent)
    requires
        is_over(state),
    ensures
        next_state(state, event) == state,
        action_on(state, event) == PlaybackAction::Nothing,
{
}

/// The display is restored on exactly the step that ends a playback,
/// whether it finishes or is interrupted.
pub proof fn lemma_display_restored_at_end(state: PlaybackState, event: PlaybackEvent)
    ensures
        action_on(state, event) == PlaybackAction::RestoreDisplay <==> !is_over(state) && is_over(
            next_state(state, event),
        ),
        is_over(next_state(state, event)) ==> is_over(state) || state is Running,
{
}

/// A pipeline that fails does not stop the other one.
pub proof fn lemma_failure_spares_the_other(pipeline: Pipeline)
    ensures
        next_state(PlaybackState::Running(Active::Both), PlaybackEvent::Failed(pipeline))
            is Running,
{
}

} // verus!
