use ober::mapping::{
    Deck, FeedbackBinding, FeedbackOutput, FeedbackState, JogConfig, Mapping, Scale,
};
use ober::midi::feedback::{deck_index, state_active, DeckView, FeedbackEngine, FeedbackView};

fn engine_with(bindings: Vec<FeedbackBinding>) -> FeedbackEngine {
    let mapping: Mapping<f32> = Mapping {
        name: "test".to_string(),
        device_match: vec!["test".to_string()],
        init: vec![],
        controls: vec![],
        feedback: bindings,
        jog: JogConfig {
            ticks_per_rev: 720,
            touch_scratch: true,
            bend_sensitivity: 0.3,
            release_ramp_ms: 100,
            platter_rpm: 100.0 / 3.0,
            velocity_window_ms: 15.0,
            scratch_smoothing_ms: 5.0,
            bend_return_ms: 150.0,
        },
    };
    FeedbackEngine::new(&mapping, 48_000)
}

/// Data byte of a VU binding for a level in 0..1, as the engine side scales
/// it: `lo + level × (hi − lo)`, rounded.
fn scaled(lo: u8, hi: u8, level: f32) -> u8 {
    let (lo, hi) = (f32::from(lo), f32::from(hi));
    (lo + level.clamp(0.0, 1.0) * (hi - lo)).round() as u8
}

#[test]
fn n_emet_que_les_changements() {
    let mut feedback = engine_with(vec![FeedbackBinding {
        state: FeedbackState::Playing { deck: Deck::A },
        output: FeedbackOutput::NoteOn { ch: 1, note: 0x07 },
        on: 0x7F,
        off: 0x00,
        scale: None,
    }]);
    let mut snapshot = FeedbackView::default();
    let mut out = Vec::new();

    // Premier refresh : état initial envoyé (LED éteinte).
    feedback.refresh(&snapshot, &[], &mut out);
    assert_eq!(out, vec![[0x91, 0x07, 0x00]]);

    // Sans changement : silence.
    out.clear();
    feedback.refresh(&snapshot, &[], &mut out);
    assert!(out.is_empty());

    // Lecture : LED allumée, une seule fois.
    snapshot.decks[0].playing = true;
    feedback.refresh(&snapshot, &[], &mut out);
    feedback.refresh(&snapshot, &[], &mut out);
    assert_eq!(out, vec![[0x91, 0x07, 0x7F]]);

    // Reset (reconnexion) : tout est renvoyé.
    out.clear();
    feedback.reset();
    feedback.refresh(&snapshot, &[], &mut out);
    assert_eq!(out, vec![[0x91, 0x07, 0x7F]]);
}

#[test]
fn vu_continu_avec_echelle() {
    let mut feedback = engine_with(vec![FeedbackBinding {
        state: FeedbackState::VuMaster,
        output: FeedbackOutput::CC { ch: 0, cc: 0x30 },
        on: 0x7F,
        off: 0x00,
        scale: Some(Scale::Linear(0, 127)),
    }]);
    let snapshot = FeedbackView::default();
    let mut out = Vec::new();

    let master_rms = [0.5f32, 0.5];
    let level = (master_rms[0] + master_rms[1]) * 0.5;
    feedback.refresh(&snapshot, &[scaled(0, 127, level)], &mut out);
    assert_eq!(out, vec![[0xB0, 0x30, 64]]);

    // Même valeur quantifiée : pas de renvoi.
    out.clear();
    let master_rms = [0.501f32, 0.501];
    let level = (master_rms[0] + master_rms[1]) * 0.5;
    feedback.refresh(&snapshot, &[scaled(0, 127, level)], &mut out);
    assert!(out.is_empty());

    let master_rms = [1.0f32, 1.0];
    let level = (master_rms[0] + master_rms[1]) * 0.5;
    feedback.refresh(&snapshot, &[scaled(0, 127, level)], &mut out);
    assert_eq!(out, vec![[0xB0, 0x30, 127]]);
}

#[test]
fn etats_cue_et_fin_de_piste() {
    let mut feedback = engine_with(vec![
        FeedbackBinding {
            state: FeedbackState::CueSet { deck: Deck::A },
            output: FeedbackOutput::NoteOn { ch: 1, note: 0x06 },
            on: 0x7F,
            off: 0x00,
            scale: None,
        },
        FeedbackBinding {
            state: FeedbackState::EndOfTrack { deck: Deck::A },
            output: FeedbackOutput::NoteOn { ch: 1, note: 0x1C },
            on: 0x7F,
            off: 0x00,
            scale: None,
        },
    ]);
    let mut snapshot = FeedbackView::default();
    snapshot.decks[0].track_frames = 48_000 * 60; // 60 s
    snapshot.decks[0].cue_point_samples = 24_000;
    snapshot.decks[0].position_samples = 48_000 * 40; // reste 20 s < 30 s

    let mut out = Vec::new();
    feedback.refresh(&snapshot, &[], &mut out);
    assert!(out.contains(&[0x91, 0x06, 0x7F]), "cue posé : {out:?}");
    assert!(out.contains(&[0x91, 0x1C, 0x7F]), "fin de piste : {out:?}");
}

#[test]
fn end_of_track_threshold_and_empty_deck() {
    let view = |track_frames: u64, position_samples: u64| {
        let mut v = FeedbackView::default();
        v.decks[1] = DeckView { track_frames, position_samples, ..DeckView::default() };
        v
    };
    let state = FeedbackState::EndOfTrack { deck: Deck::B };
    // Exactly 30 s left: not yet; one sample less: lit.
    assert!(!state_active(state, &view(48_000 * 60, 48_000 * 30), 48_000));
    assert!(state_active(state, &view(48_000 * 60, 48_000 * 30 + 1), 48_000));
    // Past the end still counts as the end; no track never does.
    assert!(state_active(state, &view(100, 200), 48_000));
    assert!(!state_active(state, &view(0, 0), 48_000));
    // The threshold follows the stream rate.
    assert!(!state_active(state, &view(44_100 * 60, 44_100 * 29), 44_100));
    assert_eq!(deck_index(Deck::A), 0);
    assert_eq!(deck_index(Deck::B), 1);
}

#[test]
fn scaled_binary_state_and_reserved_states() {
    let mut feedback = engine_with(vec![
        FeedbackBinding {
            state: FeedbackState::HeadphoneCue { deck: Deck::B },
            output: FeedbackOutput::CC { ch: 2, cc: 0x0C },
            on: 0x7F,
            off: 0x00,
            scale: Some(Scale::Linear(10, 100)),
        },
        FeedbackBinding {
            state: FeedbackState::BeatmatchTempoFaster { deck: Deck::A },
            output: FeedbackOutput::NoteOn { ch: 1, note: 0x20 },
            on: 0x7F,
            off: 0x05,
            scale: None,
        },
        FeedbackBinding {
            state: FeedbackState::Playing { deck: Deck::B },
            output: FeedbackOutput::NoteOn { ch: 2, note: 0x07 },
            on: 0xFF,
            off: 0x00,
            scale: None,
        },
    ]);
    let mut view = FeedbackView::default();
    view.decks[1].cue = true;
    view.decks[1].playing = true;
    let mut out = Vec::new();
    feedback.refresh(&view, &[], &mut out);
    // Scale bounds for a binary state; reserved states stay off; the data
    // byte is reduced to 7 bits.
    assert_eq!(out, vec![[0xB2, 0x0C, 100], [0x91, 0x20, 0x05], [0x92, 0x07, 0x7F]]);
    out.clear();
    view.decks[1].cue = false;
    feedback.refresh(&view, &[], &mut out);
    assert_eq!(out, vec![[0xB2, 0x0C, 10]]);
}
