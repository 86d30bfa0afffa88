//! Decisions of the window loop: what a window event asks the simulation to
//! do, and what to do with the surface texture acquired for a frame.

use vstd::prelude::*;

verus! {

/// The keys the simulation reacts to.
#[derive(Clone, Copy, Debug, PartialEq, Eq)]
pub enum Key {
    Escape,
    ArrowUp,
    ArrowDown,
    KeyS,
    Other,
}

/// A window event, as far as the simulation tells events apart.
#[derive(Clone, Copy, Debug, PartialEq, Eq)]
pub enum WindowInput {
    CloseRequested,
    Resized { width: u32, height: u32 },
    RedrawRequested,
    /// A key went down.
    KeyPressed(Key),
    Other,
}

/// What the application does in answer to a window event.
#[derive(Clone, Copy, Debug, PartialEq, Eq)]
pub enum Command {
    /// Leave the event loop.
    Exit,
    /// Resize the surface and the simulation grids.
    Resize { width: u32, height: u32 },
    /// Render the next frame.
    Render,
    /// Raise the scout ratio by one step.
    RaiseScoutRatio,
    /// Lower the scout ratio by one step.
    LowerScoutRatio,
    /// Save the configuration and a screenshot.
    SaveScreenshot,
    /// Nothing to do.
    Ignore,
}

/// The command that answers `input`. Before the simulation state exists
/// (`ready` is false) every event is ignored.
pub open spec fn spec_command_for(ready: bool, input: WindowInput) -> Command {
    if !ready {
        Command::Ignore
    } else {
        match input {
            WindowInput::CloseRequested => Command::Exit,
            WindowInput::Resized { width, height } => Command::Resize { width, height },
            WindowInput::RedrawRequested => Command::Render,
            WindowInput::KeyPressed(key) => match key {
                Key::Escape => Command::Exit,
                Key::ArrowUp => Command::RaiseScoutRatio,
                Key::ArrowDown => Command::LowerScoutRatio,
                Key::KeyS => Command::SaveScreenshot,
                Key::Other => Command::Ignore,
            },
            WindowInput::Other => Command::Ignore,
        }
    }
}

/// Decides how the application answers a window event.
pub fn command_for(ready: bool, input: WindowInput) -> (command: Command)
    ensures
        command == spec_command_for(ready, input),
        forall|width: u32, height: u32|
            ready && input == (WindowInput::Resized { width, height }) ==> command == (Command::Resize {
                width,
                height,
            }),
{
    if !ready {
        return Command::Ignore;
    }
    match input {
        WindowInput::CloseRequested => Command::Exit,
        WindowInput::Resized { width, height } => Command::Resize { width, height },
        WindowInput::RedrawRequested => Command::Render,
        WindowInput::KeyPressed(key) => match key {
            Key::Escape => Command::Exit,
            Key::ArrowUp => Command::RaiseScoutRatio,
            Key::ArrowDown => Command::LowerScoutRatio,
            Key::KeyS => Command::SaveScreenshot,
            Key::Other => Command::Ignore,
        },
        WindowInput::Other => Command::Ignore,
    }
}

/// The application leaves the event loop only on a close request or on Escape,
/// and only once its state exists.
pub proof fn lemma_exit_only_on_close_or_escape(ready: bool, input: WindowInput)
    ensures
        spec_command_for(ready, input) == Command::Exit <==> ready && (input == WindowInput::CloseRequested
            || input == WindowInput::KeyPressed(Key::Escape)),
{
}

/// Once the state exists, a resize event asks for a resize to exactly the
/// event's width and height, and a resize is asked for by resize events only.
pub proof fn lemma_resize_carries_size(input: WindowInput, width: u32, height: u32)
    ensures
        spec_command_for(true, WindowInput::Resized { width, height }) == (Command::Resize { width, height }),
        spec_command_for(true, input) == (Command::Resize { width, height }) <==> input == (WindowInput::Resized {
            width,
            height,
        }),
{
}

/// Once the state exists, each key and window event asks for its own
/// command: a redraw request renders, Arrow Up raises and Arrow Down lowers
/// the scout ratio, S saves a screenshot, and nothing else asks for these.
pub proof fn lemma_event_commands(input: WindowInput)
    ensures
        spec_command_for(true, input) == Command::Render <==> input == WindowInput::RedrawRequested,
        spec_command_for(true, input) == Command::RaiseScoutRatio <==> input == WindowInput::KeyPressed(Key::ArrowUp),
        spec_command_for(true, input) == Command::LowerScoutRatio <==> input == WindowInput::KeyPressed(
            Key::ArrowDown,
        ),
        spec_command_for(true, input) == Command::SaveScreenshot <==> input == WindowInput::KeyPressed(Key::KeyS),
{
}

/// Before the state exists, no event asks for anything.
pub proof fn lemma_ignore_before_ready(input: WindowInput)
    ensures
        spec_command_for(false, input) == Command::Ignore,
{
}

/// Outcome of acquiring the surface texture for a frame.
#[derive(Clone, Copy, Debug, PartialEq, Eq)]
pub enum SurfaceStatus {
    Success,
    Suboptimal,
    Timeout,
    Occluded,
    Validation,
    Outdated,
    Lost,
}

/// What to do with a frame, given the surface texture status.
#[derive(Clone, Copy, Debug, PartialEq, Eq)]
pub struct FramePlan {
    /// Configure the surface again.
    pub reconfigure: bool,
    /// Run a simulation tick and draw into the texture.
    pub draw: bool,
    /// Stop with an error: the device is lost.
    pub fail: bool,
}

/// Decides what to do with a frame: draw when a texture was acquired,
/// reconfigure the surface when it is suboptimal or outdated, skip the frame
/// on a timeout, an occluded window or a validation error, and fail when the
/// device is lost.
pub fn frame_plan(status: SurfaceStatus) -> (plan: FramePlan)
    ensures
        plan.draw <==> (status == SurfaceStatus::Success || status == SurfaceStatus::Suboptimal),
        plan.reconfigure <==> (status == SurfaceStatus::Suboptimal || status == SurfaceStatus::Outdated),
        plan.fail <==> status == SurfaceStatus::Lost,
{
    match status {
        SurfaceStatus::Success => FramePlan { reconfigure: false, draw: true, fail: false },
        SurfaceStatus::Suboptimal => FramePlan { reconfigure: true, draw: true, fail: false },
        SurfaceStatus::Timeout | SurfaceStatus::Occluded | SurfaceStatus::Validation => FramePlan {
            reconfigure: false,
            draw: false,
            fail: false,
        },
        SurfaceStatus::Outdated => FramePlan { reconfigure: true, draw: false, fail: false },
        SurfaceStatus::Lost => FramePlan { reconfigure: false, draw: false, fail: true },
    }
}

} // verus!
