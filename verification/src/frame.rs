//! Decisions of the display loop: when to show the next photo, when to put the display into
//! standby for lack of motion, and when to wake it. The caller measures time, reads the motion
//! sensor, drives the display and the photo channel, and feeds the outcomes back.

use vstd::prelude::*;

verus! {

/// Time without motion after which the display goes into standby: 60 s.
pub const NO_MOTION_STANDBY_MS: u64 = 60000;

/// Pause of the loop while waiting for the next photo: 100 ms.
pub const LOOP_SLEEP_MS: u64 = 100;

/// Pause of the loop in standby: 10 ms.
pub const LOOP_STANDBY_MS: u64 = 10;

#[derive(Debug, Clone, Copy, PartialEq, Eq, Structural)]
pub enum DisplayMode {
    Show,
    Standby,
}

/// State of the display loop. Times are milliseconds on a monotonic clock of the caller.
#[derive(Debug, Clone, Copy, PartialEq, Eq, Structural)]
pub struct LoopState {
    pub display_mode: DisplayMode,
    /// When motion was last seen (or the loop started).
    pub last_activation_ms: u64,
    /// When the last photo finished appearing on screen; `None` before the first one.
    pub last_change_ms: Option<u64>,
}

/// What the caller does after a step of the loop.
#[derive(Debug, Clone, Copy, PartialEq, Eq, Structural)]
pub enum LoopAction {
    /// Turn the display off (standby).
    PowerOff,
    /// Turn the display back on.
    PowerOn,
    /// Sleep this many milliseconds.
    Sleep(u64),
    /// Try to take the next photo from the fetcher.
    TakePhoto,
}

/// What the fetcher handed over when the caller tried to take a photo.
#[derive(Debug, Clone, Copy, PartialEq, Eq, Structural)]
pub enum Received {
    /// Nothing yet: the next photo is still being fetched and processed.
    Nothing,
    /// A photo ready for display.
    Photo,
    /// Logging in to the photo server failed.
    LoginFailure,
    /// Any other failure fetching or decoding the photo.
    OtherFailure,
}

/// What the caller does with what it received.
#[derive(Debug, Clone, Copy, PartialEq, Eq, Structural)]
pub enum PhotoAction {
    /// Wait, then step again.
    Sleep(u64),
    /// Play the transition to the received photo.
    ShowPhoto,
    /// Play the transition to the error screen.
    ShowErrorScreen,
    /// End the slideshow with an error.
    Terminate,
}

pub open spec fn elapsed(now: u64, since: u64) -> int {
    if now >= since {
        now - since
    } else {
        0
    }
}

/// The state the loop starts in, at time `now_ms`: showing, with motion just seen, and with
/// the first photo due at once.
pub fn initial_state(now_ms: u64) -> (r: LoopState)
    ensures
        r == (LoopState {
            display_mode: DisplayMode::Show,
            last_activation_ms: now_ms,
            last_change_ms: None,
        }),
{
    LoopState { display_mode: DisplayMode::Show, last_activation_ms: now_ms, last_change_ms: None }
}

/// Whether the photo change interval has passed since the last photo appeared.
pub open spec fn photo_due(state: LoopState, now: u64, interval_ms: u64) -> bool {
    match state.last_change_ms {
        None => true,
        Some(last) => elapsed(now, last) >= interval_ms,
    }
}

/// One step of the loop at time `now_ms`. `motion` is the motion sensor's reading, `None`
/// without a sensor. Motion seen by the sensor renews the activation time; without a sensor
/// it is never renewed after the start. While showing, more than 60 s since the last
/// activation turns the display off; otherwise the next photo is taken once the change interval
/// has passed since the last one appeared, and the loop sleeps 100 ms before that. In standby,
/// the display is turned on unless the sensor reads no motion; otherwise the loop sleeps 10 ms.
pub open spec fn loop_step_spec(
    state: LoopState,
    now: u64,
    motion: Option<bool>,
    interval_ms: u64,
) -> (LoopState, LoopAction) {
    let moved = motion != Some(false);
    let state1 = if motion == Some(true) {
        LoopState { last_activation_ms: now, ..state }
    } else {
        state
    };
    match state.display_mode {
        DisplayMode::Show => if elapsed(now, state1.last_activation_ms) > NO_MOTION_STANDBY_MS {
            (LoopState { display_mode: DisplayMode::Standby, ..state1 }, LoopAction::PowerOff)
        } else if !photo_due(state1, now, interval_ms) {
            (state1, LoopAction::Sleep(LOOP_SLEEP_MS))
        } else {
            (state1, LoopAction::TakePhoto)
        },
        DisplayMode::Standby => if moved {
            (LoopState { display_mode: DisplayMode::Show, ..state1 }, LoopAction::PowerOn)
        } else {
            (state1, LoopAction::Sleep(LOOP_STANDBY_MS))
        },
    }
}

pub fn loop_step(state: LoopState, now_ms: u64, motion: Option<bool>, interval_ms: u64) -> (r: (
    LoopState,
    LoopAction,
))
    ensures
        r == loop_step_spec(state, now_ms, motion, interval_ms),
{
    let moved = match motion {
        Some(false) => false,
        _ => true,
    };
    let seen = match motion {
        Some(true) => true,
        _ => false,
    };
    let state1 = if seen {
        LoopState { last_activation_ms: now_ms, ..state }
    } else {
        state
    };
    match state.display_mode {
        DisplayMode::Show => {
            let no_motion = if now_ms >= state1.last_activation_ms {
                now_ms - state1.last_activation_ms
            } else {
                0
            };
            if no_motion > NO_MOTION_STANDBY_MS {
                return (LoopState { display_mode: DisplayMode::Standby, ..state1 }, LoopAction::PowerOff);
            }
            let due = match state1.last_change_ms {
                None => true,
                Some(last) => {
                    let shown = if now_ms >= last {
                        now_ms - last
                    } else {
                        0
                    };
                    shown >= interval_ms
                },
            };
            if !due {
                (state1, LoopAction::Sleep(LOOP_SLEEP_MS))
            } else {
                (state1, LoopAction::TakePhoto)
            }
        },
        DisplayMode::Standby => {
            if moved {
                (LoopState { display_mode: DisplayMode::Show, ..state1 }, LoopAction::PowerOn)
            } else {
                (state1, LoopAction::Sleep(LOOP_STANDBY_MS))
            }
        },
    }
}

/// What to do with what the fetcher handed over: a photo is shown, a login failure ends the
/// slideshow, any other failure shows the error screen, and nothing yet means waiting.
pub fn on_received(received: Received) -> (r: PhotoAction)
    ensures
        r == (match received {
            Received::Nothing => PhotoAction::Sleep(LOOP_SLEEP_MS),
            Received::Photo => PhotoAction::ShowPhoto,
            Received::LoginFailure => PhotoAction::Terminate,
            Received::OtherFailure => PhotoAction::ShowErrorScreen,
        }),
{
    match received {
        Received::Nothing => PhotoAction::Sleep(LOOP_SLEEP_MS),
        Received::Photo => PhotoAction::ShowPhoto,
        Received::LoginFailure => PhotoAction::Terminate,
        Received::OtherFailure => PhotoAction::ShowErrorScreen,
    }
}

/// The transition to a new photo (or the error screen) ended at `now_ms`: the display
/// interval of that image starts now.
pub fn on_presented(state: LoopState, now_ms: u64) -> (r: LoopState)
    ensures
        r == (LoopState { last_change_ms: Some(now_ms), ..state }),
{
    LoopState { last_change_ms: Some(now_ms), ..state }
}

/// The display goes into standby only after more than 60 s since the last activation, never in
/// a step in which the sensor sees motion, and only from showing.
pub proof fn lemma_standby_only_without_motion(
    state: LoopState,
    now: u64,
    motion: Option<bool>,
    interval_ms: u64,
)
    ensures
        ({
            let (next, action) = loop_step_spec(state, now, motion, interval_ms);
            action == LoopAction::PowerOff ==> {
                &&& state.display_mode == DisplayMode::Show
                &&& motion != Some(true)
                &&& elapsed(now, state.last_activation_ms) > NO_MOTION_STANDBY_MS
                &&& next.display_mode == DisplayMode::Standby
            }
        }),
{
}

/// A photo is taken only while the display shows, and never before the change interval has
/// passed since the last photo appeared.
pub proof fn lemma_photo_never_early(
    state: LoopState,
    now: u64,
    motion: Option<bool>,
    interval_ms: u64,
)
    ensures
        ({
            let (next, action) = loop_step_spec(state, now, motion, interval_ms);
            action == LoopAction::TakePhoto ==> {
                &&& state.display_mode == DisplayMode::Show
                &&& next.display_mode == DisplayMode::Show
                &&& photo_due(state, now, interval_ms)
                &&& next.last_change_ms == state.last_change_ms
            }
        }),
{
}

/// In standby, the display wakes in the same step unless the sensor reads no motion (so it
/// wakes at once without a sensor); while the sensor reads no motion the display stays in
/// standby and no photo is taken.
pub proof fn lemma_standby_wakes_on_motion(
    state: LoopState,
    now: u64,
    motion: Option<bool>,
    interval_ms: u64,
)
    requires
        state.display_mode == DisplayMode::Standby,
    ensures
        ({
            let (next, action) = loop_step_spec(state, now, motion, interval_ms);
            &&& (action == LoopAction::PowerOn) == (motion != Some(false))
            &&& action != LoopAction::TakePhoto
            &&& next.display_mode == (if motion != Some(false) {
                DisplayMode::Show
            } else {
                DisplayMode::Standby
            })
        }),
{
}

} // verus!
