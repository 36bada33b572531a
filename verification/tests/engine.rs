use ober::engine::eq::EqBand;
use ober::engine::stream::{
    after_attempt, attempt_plan, AttemptOutcome, OpenStep, channel_candidates, choose_devices, device_matches, plan_for_channels,
    rate_candidates, stream_plan, Attempt, BufferRequest, DeviceChoice, EngineConfig,
    EngineError, PlanTarget, RateCandidate, StreamInfo, Support, RATE_CANDIDATES,
};
use ober::engine::track::TrackBuffer;
use ober::engine::transport::DeckTransport;
use ober::engine::{Deck, CHANNELS, PREFERRED_SAMPLE_RATE, TARGET_BUFFER_FRAMES};

// ---------------------------------------------------------------- plan

/// The MK2 case: the first alias claims both rates but really imposes
/// ~23 ms; another alias only supports 44.1 kHz and honors the requested
/// buffer. Every requested-buffer attempt comes before any clamped or
/// default-buffer attempt, with rates in preference order within a tier.
#[test]
fn requested_buffer_attempts_come_before_fallbacks() {
    let supported: [RateCandidate; 3] = [
        (0, 48_000, Some((92, 99_000_000))),
        (0, 44_100, Some((92, 99_000_000))),
        (10, 44_100, Some((90, 88_200))),
    ];
    let plan = plan_for_channels(&supported, 4, 256);

    let fixed_requested: Vec<usize> = plan
        .iter()
        .enumerate()
        .filter(|(_, (_, a))| matches!(a.buffer, BufferRequest::Fixed(256)))
        .map(|(i, _)| i)
        .collect();
    let first_other = plan
        .iter()
        .position(|(_, a)| !matches!(a.buffer, BufferRequest::Fixed(256)))
        .unwrap();
    assert_eq!(fixed_requested, vec![0, 1, 2], "tier 1 first, rate order");
    assert_eq!(first_other, 3);
    assert_eq!(plan[0].1.rate, 48_000);
    assert_eq!((plan[2].0, plan[2].1.rate), (10, 44_100));
    assert!(plan[3..]
        .iter()
        .all(|(_, a)| matches!(a.buffer, BufferRequest::Default)));
    assert_eq!(plan.len(), 6);
}

/// An honest range that cannot hold the requested size yields a clamped
/// attempt between the requested and default tiers.
#[test]
fn clamped_tier_sits_between_requested_and_default() {
    let supported: [RateCandidate; 1] = [(0, 48_000, Some((1114, 1115)))];
    let plan = plan_for_channels(&supported, 2, 256);
    assert_eq!(plan.len(), 3);
    assert!(matches!(plan[0].1.buffer, BufferRequest::Fixed(256)));
    assert!(matches!(plan[1].1.buffer, BufferRequest::Fixed(1114)));
    assert!(matches!(plan[2].1.buffer, BufferRequest::Default));
}

#[test]
fn clamp_goes_to_the_nearest_bound() {
    let supported: [RateCandidate; 2] = [(0, 48_000, Some((16, 128))), (1, 48_000, None)];
    let plan = plan_for_channels(&supported, 2, 256);
    assert_eq!(plan.len(), 5);
    assert_eq!(plan[2], (0, Attempt { channels: 2, rate: 48_000, buffer: BufferRequest::Fixed(128) }));
    assert_eq!(plan[3], (0, Attempt { channels: 2, rate: 48_000, buffer: BufferRequest::Default }));
    assert_eq!(plan[4], (1, Attempt { channels: 2, rate: 48_000, buffer: BufferRequest::Default }));
}

#[test]
fn no_candidate_no_attempt() {
    let plan = plan_for_channels(&[], 2, 256);
    assert!(plan.is_empty());
}

#[test]
fn rate_candidates_go_rate_by_rate_then_device_by_device() {
    let table: Vec<Vec<Support>> = vec![
        vec![None, Some(Some((64, 4096))), Some(None)],
        vec![Some(Some((90, 88_200))), None, None],
    ];
    let candidates = rate_candidates(&table, &RATE_CANDIDATES);
    assert_eq!(
        candidates,
        vec![
            (1, 48_000, Some((64, 4096))),
            (2, 48_000, None),
            (0, 44_100, Some((90, 88_200))),
        ]
    );
}

#[test]
fn attempt_plan_chains_channel_counts() {
    let four: Vec<Vec<Support>> = vec![vec![Some(Some((64, 4096)))], vec![None]];
    let two: Vec<Vec<Support>> = vec![vec![None], vec![Some(Some((1024, 2048)))]];
    let plan = attempt_plan(&[four, two], &[4, 2], &RATE_CANDIDATES, 256);
    assert_eq!(
        plan,
        vec![
            (0, Attempt { channels: 4, rate: 48_000, buffer: BufferRequest::Fixed(256) }),
            (0, Attempt { channels: 4, rate: 48_000, buffer: BufferRequest::Default }),
            (0, Attempt { channels: 2, rate: 44_100, buffer: BufferRequest::Fixed(256) }),
            (0, Attempt { channels: 2, rate: 44_100, buffer: BufferRequest::Fixed(1024) }),
            (0, Attempt { channels: 2, rate: 44_100, buffer: BufferRequest::Default }),
        ]
    );
}

#[test]
fn channel_counts_depend_on_the_name_match() {
    assert_eq!(channel_candidates(true), vec![4, 2]);
    assert_eq!(channel_candidates(false), vec![2]);
}

#[test]
fn stream_plan_adds_the_default_device_after_the_controller() {
    let names = vec!["DJControl Inpulse 200 MK2".to_string()];
    let four: Vec<Vec<Support>> = vec![vec![None]];
    let two: Vec<Vec<Support>> = vec![vec![Some(None)]];
    let fallback: Vec<Vec<Support>> = vec![vec![Some(None)]];
    let default_name = "Built-in Audio".to_string();
    let plan = stream_plan(&[four, two], true, &names, Some(&default_name), &fallback, &[48_000], 256);
    assert_eq!(
        plan,
        vec![
            (PlanTarget::Retained(0), Attempt { channels: 2, rate: 48_000, buffer: BufferRequest::Fixed(256) }),
            (PlanTarget::Retained(0), Attempt { channels: 2, rate: 48_000, buffer: BufferRequest::Default }),
            (PlanTarget::SystemDefault, Attempt { channels: 2, rate: 48_000, buffer: BufferRequest::Fixed(256) }),
            (PlanTarget::SystemDefault, Attempt { channels: 2, rate: 48_000, buffer: BufferRequest::Default }),
        ]
    );
}

#[test]
fn stream_plan_skips_a_default_device_already_retained() {
    let names = vec!["DJControl".to_string()];
    let tables: Vec<Vec<Vec<Support>>> = vec![vec![vec![None]], vec![vec![None]]];
    let fallback: Vec<Vec<Support>> = vec![vec![Some(None)]];
    let same = "DJControl".to_string();
    let plan = stream_plan(&tables, true, &names, Some(&same), &fallback, &[44_100], 128);
    // Nothing advertised and no other device: one blind stereo attempt.
    assert_eq!(
        plan,
        vec![(PlanTarget::Retained(0), Attempt { channels: 2, rate: 44_100, buffer: BufferRequest::Default })]
    );
}

#[test]
fn stream_plan_on_the_default_device_is_stereo_only() {
    let names = vec!["default".to_string()];
    let tables: Vec<Vec<Vec<Support>>> = vec![vec![vec![Some(Some((256, 256)))]]];
    let other = "HDMI".to_string();
    let plan = stream_plan(&tables, false, &names, Some(&other), &[vec![Some(None)]], &[48_000], 256);
    assert_eq!(
        plan,
        vec![
            (PlanTarget::Retained(0), Attempt { channels: 2, rate: 48_000, buffer: BufferRequest::Fixed(256) }),
            (PlanTarget::Retained(0), Attempt { channels: 2, rate: 48_000, buffer: BufferRequest::Default }),
        ]
    );
}

// ---------------------------------------------------------------- devices

#[test]
fn device_match_is_case_insensitive_with_a_pattern() {
    assert!(device_matches("DJControl Inpulse 200 MK2", Some("inpulse")));
    assert!(device_matches("DJControl Inpulse 200 MK2", Some("DJCONTROL")));
    assert!(!device_matches("Built-in Audio", Some("inpulse")));
}

#[test]
fn automatic_detection_looks_for_djcontrol() {
    assert!(device_matches("Hercules DJControl Inpulse", None));
    // Automatic detection is case-sensitive.
    assert!(!device_matches("hercules djcontrol", None));
    assert!(!device_matches("Built-in Audio", None));
}

#[test]
fn every_alias_of_the_controller_is_retained() {
    let names = vec![
        "HDA Intel PCH".to_string(),
        "DJControl Inpulse 200 MK2".to_string(),
        "DJControl Inpulse 200 MK2".to_string(),
    ];
    match choose_devices(&names, None, true) {
        Ok(DeviceChoice::Matched(v)) => assert_eq!(v, vec![1, 2]),
        other => panic!("{other:?}"),
    }
}

#[test]
fn explicit_pattern_without_match_is_an_error() {
    let names = vec!["HDA Intel PCH".to_string()];
    match choose_devices(&names, Some("Scarlett"), true) {
        Err(EngineError::DeviceNotFound(p)) => assert_eq!(p, "Scarlett"),
        other => panic!("{other:?}"),
    }
}

#[test]
fn automatic_detection_falls_back_on_the_default_device() {
    let names = vec!["HDA Intel PCH".to_string()];
    assert!(matches!(choose_devices(&names, None, true), Ok(DeviceChoice::SystemDefault)));
    assert!(matches!(choose_devices(&names, None, false), Err(EngineError::NoDevice)));
}

#[test]
fn engine_config_defaults() {
    let config = EngineConfig::default();
    assert_eq!(config.device_match, None);
    assert_eq!(config.buffer_frames, TARGET_BUFFER_FRAMES);
    assert_eq!(config.buffer_frames, 256);
    assert_eq!(config.sample_rate, None);
}

#[test]
fn headphones_need_four_channels() {
    let mut info = StreamInfo {
        device_name: "DJControl".to_string(),
        sample_rate: 44_100,
        channels: 2,
        buffer_frames: Some(256),
    };
    assert!(!info.headphone_active());
    info.channels = 4;
    assert!(info.headphone_active());
}

#[test]
fn rate_preference_order() {
    assert_eq!(RATE_CANDIDATES, [PREFERRED_SAMPLE_RATE, 44_100]);
    assert_eq!(PREFERRED_SAMPLE_RATE, 48_000);
}

// ---------------------------------------------------------------- tracks

#[test]
fn track_buffer_keeps_complete_frames() {
    let track = TrackBuffer::new(vec![0.1f32, 0.2, 0.3, 0.4, 0.5]);
    assert_eq!(track.frames(), 2);
    assert_eq!(track.samples().len(), 2 * CHANNELS);
    assert_eq!(track.frame(1), (0.3, 0.4));
    assert_eq!(track.frame(0), (0.1, 0.2));
}

#[test]
fn empty_track_has_no_frame() {
    let track = TrackBuffer::<f32>::new(Vec::new());
    assert_eq!(track.frames(), 0);
    assert!(track.samples().is_empty());
}

#[test]
fn deck_and_band_slots() {
    assert_eq!(Deck::A.index(), 0);
    assert_eq!(Deck::B.index(), 1);
    assert_eq!(EqBand::Low.index(), 0);
    assert_eq!(EqBand::Mid.index(), 1);
    assert_eq!(EqBand::High.index(), 2);
}

// ---------------------------------------------------------------- cue

const BLOCK: u64 = 256;
const TRACK_FRAMES: u64 = 48_000;

/// A deck with a one-second track loaded, stopped at its start.
fn setup() -> DeckTransport<u64> {
    let mut deck = DeckTransport::new(0);
    deck.set_track(true, 0);
    deck
}

/// Playback of `blocks` callback blocks: the position advances while the
/// deck plays and the deck stops at the end of the track.
fn run(deck: &mut DeckTransport<u64>, blocks: usize) {
    for _ in 0..blocks {
        if deck.playing {
            deck.position += BLOCK;
            if deck.position >= TRACK_FRAMES {
                deck.position = TRACK_FRAMES;
                deck.reach_end();
            }
        }
    }
}

fn seek(deck: &mut DeckTransport<u64>, frames: u64) {
    deck.position = frames.min(TRACK_FRAMES);
}

fn press(deck: &mut DeckTransport<u64>) {
    let at_cue_point = deck.position == deck.cue_point;
    deck.cue_press(at_cue_point);
}

#[test]
fn cue_a_l_arret_pose_le_point_puis_previsualise() {
    let mut deck = setup();

    seek(&mut deck, 24_000);
    press(&mut deck);
    deck.cue_release();
    run(&mut deck, 1);
    assert_eq!(deck.cue_point, 24_000);
    assert!(!deck.playing);

    press(&mut deck);
    run(&mut deck, 4);
    assert!(deck.playing, "pré-écoute pendant la tenue");
    assert!(deck.position > 24_000);

    deck.cue_release();
    run(&mut deck, 1);
    assert!(!deck.playing);
    assert_eq!(deck.position, 24_000, "retour au point cue");
}

#[test]
fn cue_en_lecture_stoppe_et_revient_au_point() {
    let mut deck = setup();

    seek(&mut deck, 12_000);
    press(&mut deck);
    deck.cue_release();
    deck.play();
    run(&mut deck, 8);

    press(&mut deck);
    deck.cue_release();
    run(&mut deck, 1);
    assert!(!deck.playing, "cue en lecture = stop");
    assert_eq!(deck.position, 12_000, "retour au point cue");
}

#[test]
fn play_pendant_la_previsualisation_continue_la_lecture() {
    let mut deck = setup();

    press(&mut deck);
    run(&mut deck, 2);
    deck.play();
    deck.cue_release();
    run(&mut deck, 2);
    assert!(deck.playing, "la lecture continue après release");
    assert!(deck.position > 512);
}

#[test]
fn empty_deck_ignores_play_and_cue() {
    let mut deck = DeckTransport::new(0u64);
    deck.play();
    assert!(!deck.playing);
    deck.cue_press(true);
    assert!(!deck.previewing);
    assert!(!deck.playing);
}

#[test]
fn pause_ends_a_preview_without_moving() {
    let mut deck = setup();
    press(&mut deck);
    run(&mut deck, 3);
    deck.pause();
    assert!(!deck.playing);
    assert!(!deck.previewing);
    assert_eq!(deck.position, 3 * BLOCK);
    deck.cue_release();
    assert_eq!(deck.position, 3 * BLOCK);
}

#[test]
fn loading_a_track_stops_at_its_start() {
    let mut deck = setup();
    deck.play();
    run(&mut deck, 10);
    deck.set_track(true, 0);
    assert!(!deck.playing);
    assert_eq!(deck.position, 0);
}

#[test]
fn end_of_track_stops_the_deck() {
    let mut deck = setup();
    deck.play();
    run(&mut deck, 200);
    assert!(!deck.playing);
    assert_eq!(deck.position, TRACK_FRAMES);
}

#[test]
fn the_first_attempt_that_builds_is_kept() {
    assert_eq!(after_attempt(0, 3, AttemptOutcome::Failed), OpenStep::Try(1));
    assert_eq!(after_attempt(1, 3, AttemptOutcome::Built), OpenStep::Keep(1));
    assert_eq!(after_attempt(2, 3, AttemptOutcome::Failed), OpenStep::GiveUp);
    assert_eq!(after_attempt(0, 1, AttemptOutcome::Built), OpenStep::Keep(0));
}
