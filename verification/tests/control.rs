use gekkemieren::control::{command_for, frame_plan, Command, FramePlan, Key, SurfaceStatus, WindowInput};

#[test]
fn events_before_state_are_ignored() {
    assert_eq!(command_for(false, WindowInput::CloseRequested), Command::Ignore);
    assert_eq!(command_for(false, WindowInput::KeyPressed(Key::Escape)), Command::Ignore);
}

#[test]
fn events_map_to_commands() {
    assert_eq!(command_for(true, WindowInput::CloseRequested), Command::Exit);
    assert_eq!(
        command_for(true, WindowInput::Resized { width: 800, height: 600 }),
        Command::Resize { width: 800, height: 600 }
    );
    assert_eq!(command_for(true, WindowInput::RedrawRequested), Command::Render);
    assert_eq!(command_for(true, WindowInput::KeyPressed(Key::Escape)), Command::Exit);
    assert_eq!(command_for(true, WindowInput::KeyPressed(Key::ArrowUp)), Command::RaiseScoutRatio);
    assert_eq!(command_for(true, WindowInput::KeyPressed(Key::ArrowDown)), Command::LowerScoutRatio);
    assert_eq!(command_for(true, WindowInput::KeyPressed(Key::KeyS)), Command::SaveScreenshot);
    assert_eq!(command_for(true, WindowInput::KeyPressed(Key::Other)), Command::Ignore);
    assert_eq!(command_for(true, WindowInput::Other), Command::Ignore);
}

#[test]
fn frame_plans() {
    let plan = |reconfigure, draw, fail| FramePlan { reconfigure, draw, fail };
    assert_eq!(frame_plan(SurfaceStatus::Success), plan(false, true, false));
    assert_eq!(frame_plan(SurfaceStatus::Suboptimal), plan(true, true, false));
    assert_eq!(frame_plan(SurfaceStatus::Timeout), plan(false, false, false));
    assert_eq!(frame_plan(SurfaceStatus::Occluded), plan(false, false, false));
    assert_eq!(frame_plan(SurfaceStatus::Validation), plan(false, false, false));
    assert_eq!(frame_plan(SurfaceStatus::Outdated), plan(true, false, false));
    assert_eq!(frame_plan(SurfaceStatus::Lost), plan(false, false, true));
}
