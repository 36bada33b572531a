use ober::engine::eq::EqBand;
use ober::engine::Deck as EngineDeck;
use ober::mapping::{
    Action, ControlBinding, Curve, Deck, FeedbackBinding, FeedbackOutput, FeedbackState,
    InputSpec, JogConfig, Mapping, MappingIssue, Mode, RelativeEncoding, Scale,
};
use ober::midi::hotplug::{plan_scan, scan_due, ScanPlan, SCAN_EVERY_TICKS};
use ober::midi::route::{engine_deck, to_engine_command, EngineIntent};
use ober::midi::translate::{parse, ChannelMessage, ControlEvent, ControlValue, CurvePoint, MappingEngine};

fn jog_defaults() -> JogConfig<f32> {
    JogConfig {
        ticks_per_rev: 720,
        touch_scratch: true,
        bend_sensitivity: 0.3,
        release_ramp_ms: 100,
        platter_rpm: 100.0 / 3.0,
        velocity_window_ms: 15.0,
        scratch_smoothing_ms: 5.0,
        bend_return_ms: 150.0,
    }
}

fn bind(input: InputSpec, action: Action, mode: Mode<f32>) -> ControlBinding<f32> {
    ControlBinding { input, shift: false, action, mode }
}

fn note(ch: u8, note: u8) -> InputSpec {
    InputSpec::NoteOn { ch, note }
}

fn cc(ch: u8, cc: u8) -> InputSpec {
    InputSpec::CC { ch, cc }
}

fn linear() -> Mode<f32> {
    Mode::Absolute { curve: Curve::Linear }
}

fn eq_curve() -> Mode<f32> {
    Mode::Absolute { curve: Curve::DbLinear(-26.0, 6.0) }
}

fn led(ch: u8, note: u8, state: FeedbackState) -> FeedbackBinding {
    FeedbackBinding {
        state,
        output: FeedbackOutput::NoteOn { ch, note },
        on: 0x7F,
        off: 0x00,
        scale: None,
    }
}

/// The Hercules DJControl Inpulse 200 MK2 mapping, with the codes of the
/// controller's documented checklist.
fn hercules_mapping() -> Mapping<f32> {
    let mut controls = vec![
        bind(cc(0, 0x00), Action::CrossFader, linear()),
        bind(cc(0, 0x01), Action::LibraryScroll, Mode::Relative { encoding: RelativeEncoding::TwosComplement }),
        bind(note(0, 0x00), Action::LibraryEnter, Mode::Momentary),
    ];
    for (deck, ch) in [(Deck::A, 1u8), (Deck::B, 2u8)] {
        controls.push(bind(note(ch, 0x07), Action::Play { deck }, Mode::Toggle));
        controls.push(bind(note(ch, 0x06), Action::Cue { deck }, Mode::Momentary));
        controls.push(bind(note(ch, 0x0C), Action::HeadphoneCue { deck }, Mode::Toggle));
        controls.push(bind(note(ch, 0x0D), Action::Load { deck }, Mode::Momentary));
        controls.push(bind(note(ch, 0x08), Action::JogTouch { deck }, Mode::Gate));
        controls.push(bind(cc(ch, 0x00), Action::Volume { deck }, linear()));
        controls.push(bind(cc(ch, 0x02), Action::EqLow { deck }, eq_curve()));
        controls.push(bind(cc(ch, 0x04), Action::EqHigh { deck }, eq_curve()));
        controls.push(bind(cc(ch, 0x08), Action::Pitch { deck }, linear()));
        controls.push(bind(
            cc(ch, 0x0A),
            Action::JogTick { deck },
            Mode::Relative { encoding: RelativeEncoding::TwosComplement },
        ));
    }
    let mut feedback = Vec::new();
    for (deck, ch) in [(Deck::A, 1u8), (Deck::B, 2u8)] {
        feedback.push(led(ch, 0x07, FeedbackState::Playing { deck }));
        feedback.push(led(ch, 0x06, FeedbackState::CueSet { deck }));
        feedback.push(led(ch, 0x0C, FeedbackState::HeadphoneCue { deck }));
        feedback.push(led(ch, 0x1C, FeedbackState::EndOfTrack { deck }));
    }
    Mapping {
        name: "Hercules DJControl Inpulse 200 MK2".to_string(),
        device_match: vec!["DJControl Inpulse 200 MK2".to_string()],
        init: vec![(0xB0, 0x7F, 0x7F)],
        controls,
        feedback,
        jog: jog_defaults(),
    }
}

/// Verdicts on the dB curves: min ≥ max.
fn curve_flags(m: &Mapping<f32>) -> Vec<bool> {
    m.controls
        .iter()
        .map(|c| matches!(c.mode, Mode::Absolute { curve: Curve::DbLinear(min, max) } if min >= max))
        .collect()
}

fn validate(m: &Mapping<f32>) -> Result<(), Vec<MappingIssue>> {
    m.validate(&curve_flags(m))
}

/// Value of a curve reading in the action's domain.
fn curve_value(p: CurvePoint<f32>) -> f32 {
    let t = f32::from(p.position) / 127.0;
    match p.curve {
        Curve::Linear => t,
        Curve::InvertedLinear => 1.0 - t,
        Curve::DbLinear(min, max) => min + t * (max - min),
    }
}

fn absolute(event: &ControlEvent<CurvePoint<f32>>) -> f32 {
    match event.value {
        ControlValue::Absolute(p) => curve_value(p),
        other => panic!("absolute value expected, got {other:?}"),
    }
}

fn hercules() -> MappingEngine<f32> {
    MappingEngine::new(&hercules_mapping())
}

#[test]
fn le_mapping_hercules_livre_est_parseable_et_valide() {
    let m = hercules_mapping();
    assert_eq!(m.name, "Hercules DJControl Inpulse 200 MK2");
    assert!(m.matches_port("DJControl Inpulse 200 MK2 MIDI 1"));
    assert!(!m.controls.is_empty());
    assert!(!m.init.is_empty(), "message d'init LEDs attendu");
    if let Err(errors) = validate(&m) {
        panic!("mapping invalide : {errors:#?}");
    }
}

#[test]
fn shipped_ddj_400_mapping_parses_and_validates() {
    let rotary = Mode::Relative { encoding: RelativeEncoding::Offset64 };
    let m = Mapping {
        name: "Pioneer DDJ-400".to_string(),
        device_match: vec!["DDJ-400".to_string()],
        init: vec![],
        controls: vec![
            bind(note(0, 0x0B), Action::Play { deck: Deck::A }, Mode::Toggle),
            bind(note(0, 0x3F), Action::Shift, Mode::Gate),
            bind(cc(6, 0x40), Action::LibraryScroll, rotary),
            ControlBinding {
                input: cc(6, 0x40),
                shift: true,
                action: Action::LibraryFolderScroll,
                mode: rotary,
            },
            bind(note(6, 0x41), Action::LibraryEnter, Mode::Momentary),
            ControlBinding {
                input: note(6, 0x42),
                shift: true,
                action: Action::LibraryEnter,
                mode: Mode::Momentary,
            },
            bind(cc(0, 0x00), Action::Pitch { deck: Deck::A }, Mode::Absolute { curve: Curve::InvertedLinear }),
        ],
        feedback: vec![],
        jog: jog_defaults(),
    };
    assert_eq!(m.name, "Pioneer DDJ-400");
    assert!(m.matches_port("DDJ-400 MIDI 1"));
    assert!(!m.controls.is_empty());
    // Software shift layer: the rotary is bound on both layers.
    assert!(m.controls.iter().any(|c| c.shift));
    if let Err(errors) = validate(&m) {
        panic!("mapping invalide : {errors:#?}");
    }
}

#[test]
fn les_doublons_et_hors_plage_sont_detectes() {
    let mut m = hercules_mapping();
    let first = m.controls[0];
    m.controls.push(first);
    m.controls.push(ControlBinding {
        input: InputSpec::CC { ch: 42, cc: 200 },
        shift: false,
        action: Action::CrossFader,
        mode: Mode::Absolute { curve: Curve::default() },
    });
    let errors = validate(&m).unwrap_err();
    let duplicate = m.controls.len() - 2;
    assert!(
        errors.iter().any(|e| *e == MappingIssue::DuplicateControl { first: 0, second: duplicate }),
        "{errors:?}"
    );
    assert!(
        errors.iter().any(|e| matches!(e, MappingIssue::ControlChannel { channel: 42, .. })),
        "{errors:?}"
    );
    assert!(
        errors.iter().any(|e| matches!(e, MappingIssue::ControlData { data: 200, .. })),
        "{errors:?}"
    );
}

#[test]
fn courbes_et_encodages() {
    let tc = RelativeEncoding::TwosComplement;
    assert_eq!(tc.decode(0x01), 1);
    assert_eq!(tc.decode(0x7F), -1);
    assert_eq!(tc.decode(0x02), 2);
    assert_eq!(tc.decode(0x7E), -2);

    let sb = RelativeEncoding::SignedBit;
    assert_eq!(sb.decode(0x01), 1);
    assert_eq!(sb.decode(0x41), -1);
    assert_eq!(sb.decode(0x43), -3);

    let off = RelativeEncoding::Offset64;
    assert_eq!(off.decode(0x40), 0);
    assert_eq!(off.decode(0x41), 1);
    assert_eq!(off.decode(0x3F), -1);
    assert_eq!(off.decode(0x45), 5);
}

#[test]
fn relative_decoding_ignores_the_eighth_bit() {
    for enc in [RelativeEncoding::SignedBit, RelativeEncoding::TwosComplement, RelativeEncoding::Offset64] {
        for v in 0u8..128 {
            assert_eq!(enc.decode(v), enc.decode(v | 0x80));
            assert!((-64..=63).contains(&enc.decode(v)));
        }
    }
    assert_eq!(RelativeEncoding::TwosComplement.decode(0x40), -64);
    assert_eq!(RelativeEncoding::Offset64.decode(0x00), -64);
    assert_eq!(RelativeEncoding::SignedBit.decode(0x40), 0);
}

#[test]
fn table_hercules_transport_et_mixage() {
    let mut engine = hercules();

    // Play A : toggle.
    assert_eq!(
        engine.translate(&[0x91, 0x07, 0x7F]),
        Some(ControlEvent { action: Action::Play { deck: Deck::A }, value: ControlValue::Toggled(true) })
    );
    // Relâchement d'un toggle : silencieux.
    assert_eq!(engine.translate(&[0x91, 0x07, 0x00]), None);
    // Deuxième pression : retour à false.
    assert_eq!(engine.translate(&[0x91, 0x07, 0x7F]).unwrap().value, ControlValue::Toggled(false));

    // Cue B : momentané, press et release.
    assert_eq!(
        engine.translate(&[0x92, 0x06, 0x7F]),
        Some(ControlEvent { action: Action::Cue { deck: Deck::B }, value: ControlValue::Pressed(true) })
    );
    assert_eq!(engine.translate(&[0x92, 0x06, 0x00]).unwrap().value, ControlValue::Pressed(false));
    // NoteOff explicite (0x82) équivaut au release.
    engine.translate(&[0x92, 0x06, 0x7F]).unwrap();
    assert_eq!(engine.translate(&[0x82, 0x06, 0x40]).unwrap().value, ControlValue::Pressed(false));

    // Crossfader : absolu linéaire.
    let event = engine.translate(&[0xB0, 0x00, 127]).unwrap();
    assert_eq!(event.action, Action::CrossFader);
    assert_eq!(absolute(&event), 1.0);

    // Volume A à mi-course.
    let event = engine.translate(&[0xB1, 0x00, 64]).unwrap();
    assert_eq!(event.action, Action::Volume { deck: Deck::A });
    let v = absolute(&event);
    assert!((v - 64.0 / 127.0).abs() < 1e-6);

    // EQ basses B : courbe dB — butées à −26 et +6.
    let event = engine.translate(&[0xB2, 0x02, 0]).unwrap();
    assert_eq!(event.action, Action::EqLow { deck: Deck::B });
    assert_eq!(absolute(&event), -26.0);
    let event = engine.translate(&[0xB2, 0x02, 127]).unwrap();
    assert_eq!(absolute(&event), 6.0);

    // Jog A avec touch : ticks relatifs en complément à deux.
    let event = engine.translate(&[0xB1, 0x0A, 0x01]).unwrap();
    assert_eq!(event.action, Action::JogTick { deck: Deck::A });
    assert_eq!(event.value, ControlValue::Relative(1));
    let event = engine.translate(&[0xB1, 0x0A, 0x7F]).unwrap();
    assert_eq!(event.value, ControlValue::Relative(-1));

    // Touch du jog B : gate.
    let event = engine.translate(&[0x92, 0x08, 0x7F]).unwrap();
    assert_eq!(event.action, Action::JogTouch { deck: Deck::B });
    assert_eq!(event.value, ControlValue::Pressed(true));

    // Message non mappé : ignoré sans erreur.
    assert_eq!(engine.translate(&[0x9A, 0x55, 0x7F]), None);
    // Message tronqué : ignoré sans panique.
    assert_eq!(engine.translate(&[0xB1]), None);
    assert_eq!(engine.translate(&[]), None);
}

fn shift_mapping() -> Mapping<f32> {
    Mapping {
        name: "test".to_string(),
        device_match: vec!["test".to_string()],
        init: vec![],
        controls: vec![
            bind(note(0, 1), Action::Shift, Mode::Gate),
            bind(note(0, 2), Action::Play { deck: Deck::A }, Mode::Toggle),
            ControlBinding {
                input: note(0, 2),
                shift: true,
                action: Action::Cue { deck: Deck::A },
                mode: Mode::Momentary,
            },
            bind(cc(0, 3), Action::Volume { deck: Deck::A }, linear()),
        ],
        feedback: vec![],
        jog: jog_defaults(),
    }
}

#[test]
fn couche_shift_generique() {
    let mut engine = MappingEngine::new(&shift_mapping());

    // Sans shift : Play.
    assert_eq!(engine.translate(&[0x90, 2, 0x7F]).unwrap().action, Action::Play { deck: Deck::A });

    // Shift tenu : le même bouton devient Cue.
    engine.translate(&[0x90, 1, 0x7F]).unwrap();
    assert!(engine.shift_active());
    assert_eq!(engine.translate(&[0x90, 2, 0x7F]).unwrap().action, Action::Cue { deck: Deck::A });
    // Un contrôle sans variante shiftée retombe sur la couche de base.
    assert_eq!(engine.translate(&[0xB0, 3, 64]).unwrap().action, Action::Volume { deck: Deck::A });

    // Shift relâché : retour à Play.
    engine.translate(&[0x90, 1, 0x00]).unwrap();
    assert!(!engine.shift_active());
    assert_eq!(engine.translate(&[0x90, 2, 0x7F]).unwrap().action, Action::Play { deck: Deck::A });
}

#[test]
fn encodage_signed_bit() {
    let mapping = Mapping {
        name: "t".to_string(),
        device_match: vec!["t".to_string()],
        init: vec![],
        controls: vec![bind(
            cc(0, 1),
            Action::JogTick { deck: Deck::A },
            Mode::Relative { encoding: RelativeEncoding::SignedBit },
        )],
        feedback: vec![],
        jog: jog_defaults(),
    };
    let mut engine = MappingEngine::new(&mapping);
    assert_eq!(engine.translate(&[0xB0, 1, 0x03]).unwrap().value, ControlValue::Relative(3));
    assert_eq!(engine.translate(&[0xB0, 1, 0x43]).unwrap().value, ControlValue::Relative(-3));
}

#[test]
fn le_chemin_court_couvre_les_controles_critiques() {
    let xf = to_engine_command(&ControlEvent { action: Action::CrossFader, value: ControlValue::Absolute(1.0f32) }, 48_000);
    assert!(matches!(xf, Some(EngineIntent::Crossfader(v)) if (v - 1.0).abs() < 1e-6));

    let pitch = to_engine_command(&ControlEvent {
        action: Action::Pitch { deck: Deck::A },
        value: ControlValue::Absolute(0.0f32),
    }, 48_000);
    assert!(matches!(pitch, Some(EngineIntent::Pitch(EngineDeck::A, v)) if v == 0.0));

    let eq_kill = to_engine_command(&ControlEvent {
        action: Action::EqLow { deck: Deck::B },
        value: ControlValue::Absolute(-26.0f32),
    }, 48_000);
    assert!(matches!(eq_kill, Some(EngineIntent::Eq(EngineDeck::B, EqBand::Low, v)) if v == -26.0));

    let cue = to_engine_command(&ControlEvent::<f32> {
        action: Action::Cue { deck: Deck::A },
        value: ControlValue::Pressed(true),
    }, 48_000);
    assert!(matches!(cue, Some(EngineIntent::CuePress(EngineDeck::A))));

    // Sans effet moteur : Load, Shift, jogs.
    for action in [
        Action::Load { deck: Deck::A },
        Action::Shift,
        Action::JogTick { deck: Deck::A },
        Action::JogBend { deck: Deck::A },
        Action::JogTouch { deck: Deck::A },
    ] {
        let event = ControlEvent::<f32> { action, value: ControlValue::Relative(1) };
        assert!(to_engine_command(&event, 48_000).is_none(), "{action:?}");
    }
}

#[test]
fn transport_routing_follows_the_button_kind() {
    let play = |value| to_engine_command(&ControlEvent::<f32> { action: Action::Play { deck: Deck::B }, value }, 48_000);
    assert_eq!(play(ControlValue::Toggled(true)), Some(EngineIntent::Play(EngineDeck::B)));
    assert_eq!(play(ControlValue::Pressed(true)), Some(EngineIntent::Play(EngineDeck::B)));
    assert_eq!(play(ControlValue::Toggled(false)), Some(EngineIntent::Pause(EngineDeck::B)));
    assert_eq!(play(ControlValue::Pressed(false)), None);
    let pfl = to_engine_command(&ControlEvent::<f32> {
        action: Action::HeadphoneCue { deck: Deck::A },
        value: ControlValue::Toggled(true),
    }, 48_000);
    assert_eq!(pfl, Some(EngineIntent::CueEnabled(EngineDeck::A, true)));
    let gain = to_engine_command(&ControlEvent { action: Action::HeadphoneGain, value: ControlValue::Absolute(0.25f32) }, 48_000);
    assert_eq!(gain, Some(EngineIntent::HeadphoneGain(0.25)));
    // A volume fader without an absolute reading does nothing.
    let volume = to_engine_command(&ControlEvent::<f32> {
        action: Action::Volume { deck: Deck::A },
        value: ControlValue::Pressed(true),
    }, 48_000);
    assert_eq!(volume, None);
    assert_eq!(engine_deck(Deck::A), EngineDeck::A);
    assert_eq!(engine_deck(Deck::B), EngineDeck::B);
}

#[test]
fn parse_decodes_channel_voice_messages() {
    assert_eq!(parse(&[0x93, 0x10, 0x22]), Some(ChannelMessage::NoteOn { ch: 3, note: 0x10 }));
    assert_eq!(parse(&[0x93, 0x10, 0x00]), Some(ChannelMessage::NoteOff { ch: 3, note: 0x10 }));
    assert_eq!(parse(&[0x93, 0x10]), Some(ChannelMessage::NoteOff { ch: 3, note: 0x10 }));
    assert_eq!(parse(&[0x8F, 0x01, 0x40]), Some(ChannelMessage::NoteOff { ch: 15, note: 0x01 }));
    assert_eq!(
        parse(&[0xB2, 0x07, 0x55]),
        Some(ChannelMessage::ControlChange { ch: 2, cc: 0x07, value: 0x55 })
    );
    assert_eq!(parse(&[0xB2, 0x07]), Some(ChannelMessage::ControlChange { ch: 2, cc: 0x07, value: 0 }));
    assert_eq!(parse(&[0xE0, 0x00, 0x40]), None);
    assert_eq!(parse(&[0xF0, 0x7E, 0xF7]), None);
    assert_eq!(parse(&[0x90]), None);
    assert_eq!(parse(&[]), None);
}

#[test]
fn toggle_pressed_twice_restores_and_release_is_silent() {
    let mut engine = hercules();
    let first = engine.translate(&[0x91, 0x0C, 0x7F]).unwrap();
    assert_eq!(first, ControlEvent { action: Action::HeadphoneCue { deck: Deck::A }, value: ControlValue::Toggled(true) });
    // Velocity-0 note-on and note-off are both releases: silent on a toggle.
    assert_eq!(engine.translate(&[0x91, 0x0C, 0x00]), None);
    assert_eq!(engine.translate(&[0x81, 0x0C, 0x00]), None);
    assert_eq!(engine.translate(&[0x91, 0x0C, 0x7F]).unwrap().value, ControlValue::Toggled(false));
    // Toggles are per binding: deck B's PFL starts from off.
    assert_eq!(engine.translate(&[0x92, 0x0C, 0x7F]).unwrap().value, ControlValue::Toggled(true));
}

#[test]
fn fallback_readings_of_mismatched_controls() {
    let mapping = Mapping {
        name: "t".to_string(),
        device_match: vec!["t".to_string()],
        init: vec![],
        controls: vec![
            // A button mapped as absolute: press = 127, release = 0.
            bind(note(0, 5), Action::MasterGain, eq_curve()),
            // A knob mapped as a button: pressed from 0x40 up.
            bind(cc(0, 6), Action::Cue { deck: Deck::A }, Mode::Momentary),
            // A button mapped as relative: ignored.
            bind(note(0, 7), Action::LibraryScroll, Mode::Relative { encoding: RelativeEncoding::Offset64 }),
        ],
        feedback: vec![],
        jog: jog_defaults(),
    };
    let mut engine = MappingEngine::new(&mapping);
    let pressed = engine.translate(&[0x90, 5, 0x7F]).unwrap();
    assert_eq!(absolute(&pressed), 6.0);
    let released = engine.translate(&[0x80, 5, 0x7F]).unwrap();
    assert_eq!(absolute(&released), -26.0);
    assert_eq!(engine.translate(&[0xB0, 6, 0x40]).unwrap().value, ControlValue::Pressed(true));
    assert_eq!(engine.translate(&[0xB0, 6, 0x3F]).unwrap().value, ControlValue::Pressed(false));
    assert_eq!(engine.translate(&[0x90, 7, 0x7F]), None);
    // Absolute positions keep 7 bits only.
    let volume = MappingEngine::new(&Mapping {
        controls: vec![bind(cc(0, 1), Action::CrossFader, linear())],
        ..mapping
    })
    .translate(&[0xB0, 1, 0xFF])
    .unwrap();
    assert_eq!(volume.value, ControlValue::Absolute(CurvePoint { curve: Curve::Linear, position: 127 }));
}

#[test]
fn validate_reports_every_problem_in_order() {
    let mut m = shift_mapping();
    m.device_match.clear();
    m.jog.ticks_per_rev = 0;
    m.controls.push(bind(cc(16, 3), Action::CueMix, Mode::Absolute { curve: Curve::DbLinear(6.0, -26.0) }));
    m.feedback = vec![
        FeedbackBinding {
            state: FeedbackState::VuMaster,
            output: FeedbackOutput::CC { ch: 17, cc: 0x30 },
            on: 0x80,
            off: 0,
            scale: Some(Scale::Linear(0, 200)),
        },
        FeedbackBinding {
            state: FeedbackState::Playing { deck: Deck::A },
            output: FeedbackOutput::CC { ch: 17, cc: 0x30 },
            on: 0x7F,
            off: 0,
            scale: None,
        },
    ];
    let errors = validate(&m).unwrap_err();
    assert_eq!(
        errors,
        vec![
            MappingIssue::EmptyDeviceMatch,
            MappingIssue::ZeroTicksPerRev,
            MappingIssue::ControlChannel { index: 4, channel: 16 },
            MappingIssue::ControlCurve { index: 4 },
            MappingIssue::FeedbackChannel { index: 0, channel: 17 },
            MappingIssue::FeedbackValues { index: 0 },
            MappingIssue::FeedbackScale { index: 0 },
            MappingIssue::DuplicateFeedback { first: 0, second: 1 },
            MappingIssue::FeedbackChannel { index: 1, channel: 17 },
        ]
    );
    // The same input on two layers is no duplicate.
    assert_eq!(validate(&shift_mapping()), Ok(()));
}

#[test]
fn matches_port_uses_substrings() {
    let m = hercules_mapping();
    assert!(m.matches_port("DJControl Inpulse 200 MK2"));
    assert!(!m.matches_port("DJControl Inpulse 200"));
    assert!(!m.matches_port("djcontrol inpulse 200 mk2 midi 1"));
    let mut none = m.clone();
    none.device_match.clear();
    assert!(!none.matches_port("DJControl Inpulse 200 MK2 MIDI 1"));
}

#[test]
fn message_heads_of_feedback_outputs() {
    assert_eq!(FeedbackOutput::NoteOn { ch: 1, note: 0x07 }.message_head(), (0x91, 0x07));
    assert_eq!(FeedbackOutput::CC { ch: 0, cc: 0x30 }.message_head(), (0xB0, 0x30));
    assert_eq!(FeedbackOutput::CC { ch: 0x1F, cc: 0x30 }.message_head(), (0xBF, 0x30));
    assert_eq!(FeedbackOutput::NoteOn { ch: 9, note: 1 }.channel(), 9);
    assert_eq!(InputSpec::CC { ch: 3, cc: 0x40 }.channel(), 3);
    assert_eq!(InputSpec::CC { ch: 3, cc: 0x40 }.data1(), 0x40);
    assert_eq!(InputSpec::NoteOff { ch: 4, note: 0x22 }.data1(), 0x22);
    assert_eq!(ober::mapping::default_on(), 0x7F);
}

#[test]
fn scans_every_forty_five_ticks() {
    assert!(scan_due(0));
    assert!(!scan_due(1));
    assert!(!scan_due(44));
    assert!(scan_due(45));
    assert!(scan_due(90));
    assert_eq!(SCAN_EVERY_TICKS, 45);
}

#[test]
fn a_scan_connects_to_the_first_controller_port() {
    let m = hercules_mapping();
    let ports = vec![
        "Midi Through Port-0".to_string(),
        "DJControl Inpulse 200 MK2 MIDI 1".to_string(),
        "DJControl Inpulse 200 MK2 MIDI 2".to_string(),
    ];
    assert_eq!(plan_scan(None, &ports, &m), ScanPlan { disconnect: false, connect_to: Some(1) });
}

#[test]
fn a_present_connection_is_kept() {
    let m = hercules_mapping();
    let ports = vec!["DJControl Inpulse 200 MK2 MIDI 1".to_string()];
    let current = ports[0].clone();
    assert_eq!(plan_scan(Some(&current), &ports, &m), ScanPlan { disconnect: false, connect_to: None });
}

#[test]
fn an_unplugged_controller_is_dropped_then_found_again() {
    let m = hercules_mapping();
    let current = "DJControl Inpulse 200 MK2 MIDI 1".to_string();
    let gone = vec!["Midi Through Port-0".to_string()];
    assert_eq!(plan_scan(Some(&current), &gone, &m), ScanPlan { disconnect: true, connect_to: None });
    let back = vec!["Midi Through Port-0".to_string(), "DJControl Inpulse 200 MK2 MIDI 3".to_string()];
    assert_eq!(plan_scan(None, &back, &m), ScanPlan { disconnect: false, connect_to: Some(1) });
    // Renumbered port: the old name is gone, the new one is taken at once.
    assert_eq!(plan_scan(Some(&current), &back, &m), ScanPlan { disconnect: true, connect_to: Some(1) });
}

#[test]
fn seek_keys_move_by_seconds_of_frames() {
    let seek = |deck, seconds, rate| {
        to_engine_command(&ControlEvent::<f32> { action: Action::Seek { deck }, value: ControlValue::Relative(seconds) }, rate)
    };
    assert_eq!(seek(Deck::A, -5, 48_000), Some(EngineIntent::SeekRelative(EngineDeck::A, -240_000)));
    assert_eq!(seek(Deck::A, 5, 48_000), Some(EngineIntent::SeekRelative(EngineDeck::A, 240_000)));
    assert_eq!(seek(Deck::B, 5, 44_100), Some(EngineIntent::SeekRelative(EngineDeck::B, 220_500)));
    assert_eq!(seek(Deck::B, -5, 44_100), Some(EngineIntent::SeekRelative(EngineDeck::B, -220_500)));
    // A seek without a relative value does nothing.
    let pressed = to_engine_command(
        &ControlEvent::<f32> { action: Action::Seek { deck: Deck::A }, value: ControlValue::Pressed(true) },
        48_000,
    );
    assert_eq!(pressed, None);
}
