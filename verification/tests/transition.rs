use syno_photo_frame::transition::{
    crossfade_alpha, crossfade_finished, swapped_slot, texture_slot, FadeToBlackPhase, QuitEvent,
    TextureIndex, TransitionError, CROSSFADE_MICROS, FADE_PHASE_MICROS,
};

#[test]
fn crossfade_alpha_grows_evenly_over_one_second() {
    assert_eq!(crossfade_alpha(0), 0);
    assert_eq!(crossfade_alpha(500_000), 128);
    assert_eq!(crossfade_alpha(1_000), 0);
    assert_eq!(crossfade_alpha(2_000), 1);
    assert_eq!(crossfade_alpha(CROSSFADE_MICROS), 255);
    assert_eq!(crossfade_alpha(5 * CROSSFADE_MICROS), 255);
    assert_eq!(crossfade_alpha(u64::MAX), 255);
}

#[test]
fn crossfade_ends_when_next_photo_is_opaque() {
    assert!(!crossfade_finished(0));
    assert!(!crossfade_finished(996_000));
    assert!(crossfade_finished(998_100));
    assert!(crossfade_finished(CROSSFADE_MICROS));
}

#[test]
fn fade_out_darkens_in_half_a_second() {
    let phase = FadeToBlackPhase::Out;
    assert_eq!(phase.init_alpha(), 0);
    assert_eq!(phase.alpha(0), 0);
    assert_eq!(phase.alpha(250_000), 128);
    assert_eq!(phase.alpha(FADE_PHASE_MICROS), 255);
    assert!(!phase.is_finished(0));
    assert!(phase.is_finished(FADE_PHASE_MICROS));
    assert_eq!(phase.texture_index(), TextureIndex::Current);
}

#[test]
fn fade_in_lightens_in_half_a_second() {
    let phase = FadeToBlackPhase::In;
    assert_eq!(phase.init_alpha(), 255);
    assert_eq!(phase.alpha(0), 255);
    assert_eq!(phase.alpha(250_000), 128);
    assert_eq!(phase.alpha(FADE_PHASE_MICROS), 0);
    assert_eq!(phase.alpha(u64::MAX), 0);
    assert!(!phase.is_finished(0));
    assert!(phase.is_finished(FADE_PHASE_MICROS));
    assert_eq!(phase.texture_index(), TextureIndex::Next);
}

#[test]
fn alpha_never_moves_backwards() {
    let mut previous = (0, 0, 255);
    for t in (0..1_200_000).step_by(997) {
        let now = (crossfade_alpha(t), FadeToBlackPhase::Out.alpha(t), FadeToBlackPhase::In.alpha(t));
        assert!(now.0 >= previous.0 && now.1 >= previous.1 && now.2 <= previous.2);
        previous = now;
    }
}

#[test]
fn swapping_makes_next_texture_current() {
    for current in 0..2 {
        let next = texture_slot(current, TextureIndex::Next);
        let after = swapped_slot(current);
        assert_eq!(texture_slot(after, TextureIndex::Current), next);
        assert_eq!(texture_slot(after, TextureIndex::Next), current);
    }
}

#[test]
fn quit_event_reads_quit() {
    assert_eq!(QuitEvent.message(), "Quit");
}

#[test]
fn transition_errors_read_as_their_cause() {
    assert_eq!(TransitionError::Sdl("no renderer".to_string()).message(), "no renderer");
    assert_eq!(TransitionError::Quit(QuitEvent).message(), "Quit");
}
