//! Textures and transitions between photos.

use vstd::prelude::*;

use crate::info_box::round_div;

verus! {

/// The user asked to quit (window closed or the app terminated).
#[derive(Debug, Clone, Copy, PartialEq, Eq, Structural)]
pub struct QuitEvent;

impl QuitEvent {
    pub fn message(&self) -> (r: &'static str)
        ensures
            r@ == "Quit"@,
    {
        "Quit"
    }
}

/// Why a transition stopped.
#[derive(Debug, Clone, PartialEq, Eq)]
pub enum TransitionError {
    Sdl(String),
    Quit(QuitEvent),
}

impl TransitionError {
    /// The error as displayed: SDL's message, or "Quit".
    pub fn message(&self) -> (r: String)
        ensures
            r@ == match self {
                TransitionError::Sdl(e) => e@,
                TransitionError::Quit(_) => "Quit"@,
            },
    {
        match self {
            TransitionError::Sdl(e) => e.clone(),
            TransitionError::Quit(quit) => quit.message().to_owned(),
        }
    }
}

/// Index of a texture to operate on (used mainly by transition effects)
#[derive(Debug, Clone, Copy, PartialEq, Eq, Structural)]
pub enum TextureIndex {
    /// Currently active texture containing displayed image
    Current,
    /// Texture containing the next image to display
    Next,
}

/// Number of textures the display alternates between.
pub const TEXTURE_COUNT: usize = 2;

/// Slot of the texture `index` when slot `current` holds the current image.
pub fn texture_slot(current: usize, index: TextureIndex) -> (r: usize)
    requires
        current < TEXTURE_COUNT,
    ensures
        r < TEXTURE_COUNT,
        index == TextureIndex::Current ==> r == current,
        index == TextureIndex::Next ==> r == (current + 1) % (TEXTURE_COUNT as int),
{
    match index {
        TextureIndex::Current => current,
        TextureIndex::Next => (current + 1) % TEXTURE_COUNT,
    }
}

/// The slot of the current image after the next image has become current.
pub fn swapped_slot(current: usize) -> (r: usize)
    requires
        current < TEXTURE_COUNT,
    ensures
        r == texture_slot_spec(current, TextureIndex::Next),
{
    (current + 1) % TEXTURE_COUNT
}

pub open spec fn texture_slot_spec(current: usize, index: TextureIndex) -> usize {
    match index {
        TextureIndex::Current => current,
        TextureIndex::Next => ((current + 1) % (TEXTURE_COUNT as int)) as usize,
    }
}

/// After swapping, the texture that was `Next` is `Current`, and the two slots trade places.
pub proof fn lemma_swap_exchanges_textures(current: usize)
    requires
        current < TEXTURE_COUNT,
    ensures
        ({
            let after = ((current + 1) % (TEXTURE_COUNT as int)) as usize;
            &&& texture_slot_spec(after, TextureIndex::Current) == texture_slot_spec(
                current,
                TextureIndex::Next,
            )
            &&& texture_slot_spec(after, TextureIndex::Next) == texture_slot_spec(
                current,
                TextureIndex::Current,
            )
        }),
{
}

/// Phase of the fade-to-black transition.
#[derive(Debug, Clone, Copy, PartialEq, Eq, Structural)]
pub enum FadeToBlackPhase {
    /// The current image fades out to black.
    Out,
    /// The next image fades in from black.
    In,
}

/// Length of a crossfade, in microseconds.
pub const CROSSFADE_MICROS: u64 = 1_000_000;

/// Length of each of the two phases of a fade to black, in microseconds: the whole fade takes
/// a second.
pub const FADE_PHASE_MICROS: u64 = 500_000;

/// An opacity that grows at an even rate from 0 to 255 over `duration`: `255 * elapsed /
/// duration`, rounded to the nearest whole number (halves up), and kept at 255 after that.
pub open spec fn rising_alpha(elapsed: int, duration: int) -> int {
    let a = round_div(255 * elapsed, duration);
    if a > 255 {
        255
    } else {
        a
    }
}

/// An opacity that falls at an even rate from 255 to 0 over `duration`: `255 - 255 * elapsed /
/// duration`, rounded to the nearest whole number (halves up), and kept at 0 after that.
pub open spec fn falling_alpha(elapsed: int, duration: int) -> int {
    if elapsed <= duration {
        round_div(255 * (duration - elapsed), duration)
    } else {
        0
    }
}

fn rising_alpha_exec(elapsed: u64, duration: u64) -> (r: u8)
    requires
        duration > 0,
    ensures
        r == rising_alpha(elapsed as int, duration as int),
{
    let n: u128 = 255u128 * elapsed as u128;
    let a: u128 = (2 * n + duration as u128) / (2 * duration as u128);
    if a > 255 {
        255
    } else {
        a as u8
    }
}

fn falling_alpha_exec(elapsed: u64, duration: u64) -> (r: u8)
    requires
        duration > 0,
    ensures
        r == falling_alpha(elapsed as int, duration as int),
{
    if elapsed <= duration {
        let n: u128 = 255u128 * (duration - elapsed) as u128;
        let a: u128 = (2 * n + duration as u128) / (2 * duration as u128);
        proof {
            assert((2 * n + duration) / (2 * duration) <= 255) by (nonlinear_arith)
                requires
                    n <= 255 * duration,
                    duration > 0,
            ;
        }
        a as u8
    } else {
        0
    }
}

/// Opacity of the next photo drawn over the current one, `elapsed` microseconds into a
/// crossfade.
pub open spec fn crossfade_alpha_spec(elapsed: int) -> int {
    rising_alpha(elapsed, CROSSFADE_MICROS as int)
}

/// Opacity of the next photo drawn over the current one, `elapsed_micros` into a crossfade.
pub fn crossfade_alpha(elapsed_micros: u64) -> (r: u8)
    ensures
        r == crossfade_alpha_spec(elapsed_micros as int),
{
    rising_alpha_exec(elapsed_micros, CROSSFADE_MICROS)
}

/// A crossfade is over once the next photo is drawn fully opaque.
pub fn crossfade_finished(elapsed_micros: u64) -> (r: bool)
    ensures
        r == (crossfade_alpha_spec(elapsed_micros as int) == 255),
{
    crossfade_alpha(elapsed_micros) == 255
}

impl FadeToBlackPhase {
    /// Opacity of the black drawn over the photo, `elapsed` microseconds into the phase.
    pub open spec fn alpha_spec(self, elapsed: int) -> int {
        match self {
            FadeToBlackPhase::Out => rising_alpha(elapsed, FADE_PHASE_MICROS as int),
            FadeToBlackPhase::In => falling_alpha(elapsed, FADE_PHASE_MICROS as int),
        }
    }

    /// The opacity of the black at which the phase ends.
    pub open spec fn final_alpha(self) -> int {
        match self {
            FadeToBlackPhase::Out => 255,
            FadeToBlackPhase::In => 0,
        }
    }

    /// Opacity of the black when the phase begins: none when fading out, full when fading in.
    pub fn init_alpha(&self) -> (r: u8)
        ensures
            r == self.alpha_spec(0),
    {
        proof {
            lemma_round_div_ends(FADE_PHASE_MICROS as int);
        }
        match self {
            FadeToBlackPhase::Out => 0,
            FadeToBlackPhase::In => 255,
        }
    }

    /// Opacity of the black drawn over the photo, `elapsed_micros` into the phase.
    pub fn alpha(&self, elapsed_micros: u64) -> (r: u8)
        ensures
            r == self.alpha_spec(elapsed_micros as int),
    {
        match self {
            FadeToBlackPhase::Out => rising_alpha_exec(elapsed_micros, FADE_PHASE_MICROS),
            FadeToBlackPhase::In => falling_alpha_exec(elapsed_micros, FADE_PHASE_MICROS),
        }
    }

    /// A phase is over once the black is drawn at its final opacity.
    pub fn is_finished(&self, elapsed_micros: u64) -> (r: bool)
        ensures
            r == (self.alpha_spec(elapsed_micros as int) == self.final_alpha()),
    {
        let alpha = self.alpha(elapsed_micros);
        match self {
            FadeToBlackPhase::Out => alpha == 255,
            FadeToBlackPhase::In => alpha == 0,
        }
    }

    /// The texture drawn under the black overlay in this phase.
    pub fn texture_index(&self) -> (r: TextureIndex)
        ensures
            *self == FadeToBlackPhase::Out ==> r == TextureIndex::Current,
            *self == FadeToBlackPhase::In ==> r == TextureIndex::Next,
    {
        match self {
            FadeToBlackPhase::Out => TextureIndex::Current,
            FadeToBlackPhase::In => TextureIndex::Next,
        }
    }
}

proof fn lemma_round_div_ends(d: int)
    requires
        d > 0,
    ensures
        round_div(0, d) == 0,
        round_div(255 * d, d) == 255,
{
    vstd::arithmetic::div_mod::lemma_basic_div(d, 2 * d);
    assert((2 * (255 * d) + d) / (2 * d) == 255) by (nonlinear_arith)
        requires
            d > 0,
    {
        vstd::arithmetic::div_mod::lemma_fundamental_div_mod_converse(
            2 * (255 * d) + d,
            2 * d,
            255,
            d,
        );
    }
}

proof fn lemma_round_div_monotone(n1: int, n2: int, d: int)
    requires
        0 <= n1 <= n2,
        d > 0,
    ensures
        round_div(n1, d) <= round_div(n2, d),
{
    vstd::arithmetic::div_mod::lemma_div_is_ordered(2 * n1 + d, 2 * n2 + d, 2 * d);
}

/// As time passes a crossfade only makes the next photo more opaque, and a fade to black only
/// moves the black toward its final opacity: fading out never lightens, fading in never
/// darkens.
pub proof fn lemma_transition_alpha_monotone(phase: FadeToBlackPhase, t1: int, t2: int)
    requires
        0 <= t1 <= t2,
    ensures
        crossfade_alpha_spec(t1) <= crossfade_alpha_spec(t2),
        phase == FadeToBlackPhase::Out ==> phase.alpha_spec(t1) <= phase.alpha_spec(t2),
        phase == FadeToBlackPhase::In ==> phase.alpha_spec(t1) >= phase.alpha_spec(t2),
{
    assert(255 * t1 <= 255 * t2) by (nonlinear_arith)
        requires
            t1 <= t2,
    ;
    lemma_round_div_monotone(255 * t1, 255 * t2, CROSSFADE_MICROS as int);
    lemma_round_div_monotone(255 * t1, 255 * t2, FADE_PHASE_MICROS as int);
    if t2 <= FADE_PHASE_MICROS {
        let h = FADE_PHASE_MICROS as int;
        assert(255 * (h - t2) <= 255 * (h - t1)) by (nonlinear_arith)
            requires
                t1 <= t2 <= h,
        ;
        lemma_round_div_monotone(255 * (h - t2), 255 * (h - t1), h);
    }
}

/// Every transition begins from where it should and is over by its end: a crossfade starts
/// with the next photo transparent and is finished one second in; a fade to black phase starts
/// with no black (fading out) or full black (fading in), and is finished half a second in.
pub proof fn lemma_transition_spans_its_duration(phase: FadeToBlackPhase, t: int)
    requires
        t >= 0,
    ensures
        crossfade_alpha_spec(0) == 0,
        phase.alpha_spec(0) == 255 - phase.final_alpha(),
        t >= CROSSFADE_MICROS ==> crossfade_alpha_spec(t) == 255,
        t >= FADE_PHASE_MICROS ==> phase.alpha_spec(t) == phase.final_alpha(),
{
    lemma_round_div_ends(CROSSFADE_MICROS as int);
    lemma_round_div_ends(FADE_PHASE_MICROS as int);
    if t >= CROSSFADE_MICROS {
        assert(255 * t >= 255 * CROSSFADE_MICROS) by (nonlinear_arith)
            requires
                t >= CROSSFADE_MICROS,
        ;
        lemma_round_div_monotone(255 * CROSSFADE_MICROS, 255 * t, CROSSFADE_MICROS as int);
    }
    if t >= FADE_PHASE_MICROS {
        assert(255 * t >= 255 * FADE_PHASE_MICROS) by (nonlinear_arith)
            requires
                t >= FADE_PHASE_MICROS,
        ;
        lemma_round_div_monotone(255 * FADE_PHASE_MICROS, 255 * t, FADE_PHASE_MICROS as int);
    }
}

} // verus!
