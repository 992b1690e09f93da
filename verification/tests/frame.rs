use syno_photo_frame::frame::{
    initial_state, loop_step, on_presented, on_received, DisplayMode, LoopAction, LoopState,
    PhotoAction, Received, LOOP_SLEEP_MS, LOOP_STANDBY_MS, NO_MOTION_STANDBY_MS,
};

const INTERVAL_MS: u64 = 30_000;

#[test]
fn first_photo_is_taken_at_once() {
    let state = initial_state(1_000);

    let (_, action) = loop_step(state, 1_000, None, INTERVAL_MS);

    assert_eq!(action, LoopAction::TakePhoto);
}

#[test]
fn next_photo_waits_for_interval() {
    let state = on_presented(initial_state(0), 10_000);

    assert_eq!(loop_step(state, 39_999, None, INTERVAL_MS).1, LoopAction::Sleep(LOOP_SLEEP_MS));
    assert_eq!(loop_step(state, 40_000, None, INTERVAL_MS).1, LoopAction::TakePhoto);
}

#[test]
fn display_goes_to_standby_after_a_minute_without_motion() {
    let state = initial_state(0);

    let (still_on, action) = loop_step(state, NO_MOTION_STANDBY_MS, Some(false), INTERVAL_MS);
    assert_eq!(action, LoopAction::TakePhoto);
    assert_eq!(still_on.display_mode, DisplayMode::Show);

    let (standby, action) = loop_step(state, NO_MOTION_STANDBY_MS + 1, Some(false), INTERVAL_MS);
    assert_eq!(action, LoopAction::PowerOff);
    assert_eq!(standby.display_mode, DisplayMode::Standby);
}

#[test]
fn motion_keeps_display_on_and_wakes_it() {
    let state = initial_state(0);
    let (state, action) = loop_step(state, 100_000, Some(true), INTERVAL_MS);
    assert_eq!(action, LoopAction::TakePhoto);
    assert_eq!(state.last_activation_ms, 100_000);

    let standby = LoopState { display_mode: DisplayMode::Standby, ..state };
    assert_eq!(
        loop_step(standby, 200_000, Some(false), INTERVAL_MS).1,
        LoopAction::Sleep(LOOP_STANDBY_MS)
    );
    let (woken, action) = loop_step(standby, 200_000, Some(true), INTERVAL_MS);
    assert_eq!(action, LoopAction::PowerOn);
    assert_eq!(woken.display_mode, DisplayMode::Show);
}

#[test]
fn without_sensor_activation_is_never_renewed() {
    let state = on_presented(initial_state(0), 0);

    let (state, action) = loop_step(state, NO_MOTION_STANDBY_MS, None, INTERVAL_MS);
    assert_eq!(action, LoopAction::TakePhoto);
    assert_eq!(state.last_activation_ms, 0);

    let (standby, action) = loop_step(state, NO_MOTION_STANDBY_MS + 1, None, INTERVAL_MS);
    assert_eq!(action, LoopAction::PowerOff);
    assert_eq!(standby.display_mode, DisplayMode::Standby);

    let (woken, action) = loop_step(standby, NO_MOTION_STANDBY_MS + 2, None, INTERVAL_MS);
    assert_eq!(action, LoopAction::PowerOn);
    assert_eq!(woken.display_mode, DisplayMode::Show);
    assert_eq!(woken.last_activation_ms, 0);
}

#[test]
fn received_items_decide_what_is_shown() {
    assert_eq!(on_received(Received::Nothing), PhotoAction::Sleep(LOOP_SLEEP_MS));
    assert_eq!(on_received(Received::Photo), PhotoAction::ShowPhoto);
    assert_eq!(on_received(Received::LoginFailure), PhotoAction::Terminate);
    assert_eq!(on_received(Received::OtherFailure), PhotoAction::ShowErrorScreen);
}
