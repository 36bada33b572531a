//! On-screen controls of the single screen: per deck, play/cue/PFL/load
//! buttons and volume/pitch/EQ sliders; in the middle, the crossfader, the
//! headphone cue/master mix, the headphone gain and the master gain. Every
//! interaction emits the same domain actions as the controller.
//!
//! What a button press means is decided here; where widgets are drawn and
//! which one the pointer hits is geometry done by the application.

use vstd::prelude::*;

use crate::mapping::{Action, Deck};
use crate::midi::translate::{ControlEvent, ControlValue};

verus! {

/// Buttons of a deck (`usize`: deck slot, 0 for A).
#[derive(Debug, Clone, Copy, PartialEq, Eq, Structural)]
pub enum ButtonKind {
    Play(usize),
    Cue(usize),
    /// Headphone pre-listen.
    Pfl(usize),
    Load(usize),
}

/// Sliders (`usize`: deck slot; `Eq(deck, band)` with bands 0..3).
#[derive(Debug, Clone, Copy, PartialEq, Eq, Structural)]
pub enum SliderKind {
    Volume(usize),
    Pitch(usize),
    Eq(usize, usize),
    CrossFader,
    CueMix,
    Headphone,
    Master,
}

/// One on-screen control.
#[derive(Debug, Clone, Copy, PartialEq, Eq, Structural)]
pub enum Widget {
    Button(ButtonKind),
    Slider(SliderKind),
}

impl SliderKind {
    /// The crossfader is the only horizontal slider.
    pub fn horizontal(self) -> (r: bool)
        ensures
            r == (self is CrossFader),
    {
        match self {
            SliderKind::CrossFader => true,
            _ => false,
        }
    }
}

/// Mapping deck of a deck slot: 0 is A, any other slot B.
pub open spec fn slot_deck(slot: usize) -> Deck {
    if slot == 0 {
        Deck::A
    } else {
        Deck::B
    }
}

/// Mapping deck of a deck slot (see [`slot_deck`]).
pub fn deck_of_slot(slot: usize) -> (r: Deck)
    ensures
        r == slot_deck(slot),
{
    if slot == 0 {
        Deck::A
    } else {
        Deck::B
    }
}

/// What pressing a button asks for.
#[derive(Debug, Clone, Copy, PartialEq)]
pub enum Press<A> {
    /// A control event, as the controller would send it.
    Emit(ControlEvent<A>),
    /// Open the track chooser for the deck.
    ChooseTrack(Deck),
}

/// Meaning of a press on `button`, given whether its deck plays and
/// whether its headphone cue is on: play toggles playback, cue is held,
/// PFL toggles the headphone cue, load opens the track chooser.
pub open spec fn spec_press<A>(button: ButtonKind, playing: bool, cue_on: bool) -> Press<A> {
    match button {
        ButtonKind::Play(i) => Press::Emit(
            ControlEvent { action: Action::Play { deck: slot_deck(i) }, value: ControlValue::Toggled(!playing) },
        ),
        ButtonKind::Cue(i) => Press::Emit(
            ControlEvent { action: Action::Cue { deck: slot_deck(i) }, value: ControlValue::Pressed(true) },
        ),
        ButtonKind::Pfl(i) => Press::Emit(
            ControlEvent { action: Action::HeadphoneCue { deck: slot_deck(i) }, value: ControlValue::Toggled(!cue_on) },
        ),
        ButtonKind::Load(i) => Press::ChooseTrack(slot_deck(i)),
    }
}

/// What pressing `button` asks for (see [`spec_press`]).
pub fn press<A>(button: ButtonKind, playing: bool, cue_on: bool) -> (r: Press<A>)
    ensures
        r == spec_press::<A>(button, playing, cue_on),
{
    match button {
        ButtonKind::Play(i) => Press::Emit(
            ControlEvent { action: Action::Play { deck: deck_of_slot(i) }, value: ControlValue::Toggled(!playing) },
        ),
        ButtonKind::Cue(i) => Press::Emit(
            ControlEvent { action: Action::Cue { deck: deck_of_slot(i) }, value: ControlValue::Pressed(true) },
        ),
        ButtonKind::Pfl(i) => Press::Emit(
            ControlEvent {
                action: Action::HeadphoneCue { deck: deck_of_slot(i) },
                value: ControlValue::Toggled(!cue_on),
            },
        ),
        ButtonKind::Load(i) => Press::ChooseTrack(deck_of_slot(i)),
    }
}

/// What releasing the held `button` asks for: only the cue button sends
/// its release.
pub fn release<A>(button: ButtonKind) -> (r: Option<ControlEvent<A>>)
    ensures
        r == match button {
            ButtonKind::Cue(i) => Some(
                ControlEvent { action: Action::Cue { deck: slot_deck(i) }, value: ControlValue::<A>::Pressed(false) },
            ),
            _ => None,
        },
{
    match button {
        ButtonKind::Cue(i) => Some(
            ControlEvent { action: Action::Cue { deck: deck_of_slot(i) }, value: ControlValue::Pressed(false) },
        ),
        _ => None,
    }
}

/// Whether `button` is lit: play while its deck plays, cue while held,
/// PFL while the headphone cue is on; load never.
pub fn lit(button: ButtonKind, playing: bool, held: bool, cue_on: bool) -> (r: bool)
    ensures
        r == match button {
            ButtonKind::Play(_) => playing,
            ButtonKind::Cue(_) => held,
            ButtonKind::Pfl(_) => cue_on,
            ButtonKind::Load(_) => false,
        },
{
    match button {
        ButtonKind::Play(_) => playing,
        ButtonKind::Cue(_) => held,
        ButtonKind::Pfl(_) => cue_on,
        ButtonKind::Load(_) => false,
    }
}

/// Controls of one deck, in screen order.
pub open spec fn deck_widgets(deck: usize) -> Seq<Widget> {
    seq![
        Widget::Button(ButtonKind::Play(deck)),
        Widget::Button(ButtonKind::Cue(deck)),
        Widget::Button(ButtonKind::Pfl(deck)),
        Widget::Button(ButtonKind::Load(deck)),
        Widget::Slider(SliderKind::Volume(deck)),
        Widget::Slider(SliderKind::Pitch(deck)),
        Widget::Slider(SliderKind::Eq(deck, 0)),
        Widget::Slider(SliderKind::Eq(deck, 1)),
        Widget::Slider(SliderKind::Eq(deck, 2)),
    ]
}

/// Every control of the screen: deck A's, deck B's, then the mixer's.
pub open spec fn spec_all_widgets() -> Seq<Widget> {
    deck_widgets(0) + deck_widgets(1) + seq![
        Widget::Slider(SliderKind::CrossFader),
        Widget::Slider(SliderKind::CueMix),
        Widget::Slider(SliderKind::Headphone),
        Widget::Slider(SliderKind::Master),
    ]
}

/// Every control of the screen (see [`spec_all_widgets`]).
pub fn all_widgets() -> (r: Vec<Widget>)
    ensures
        r@ == spec_all_widgets(),
{
    let mut widgets: Vec<Widget> = Vec::new();
    let mut deck: usize = 0;
    while deck < 2
        invariant
            deck <= 2,
            widgets@ == if deck == 0 {
                Seq::empty()
            } else if deck == 1 {
                deck_widgets(0)
            } else {
                deck_widgets(0) + deck_widgets(1)
            },
        decreases 2 - deck,
    {
        let ghost before = widgets@;
        widgets.push(Widget::Button(ButtonKind::Play(deck)));
        widgets.push(Widget::Button(ButtonKind::Cue(deck)));
        widgets.push(Widget::Button(ButtonKind::Pfl(deck)));
        widgets.push(Widget::Button(ButtonKind::Load(deck)));
        widgets.push(Widget::Slider(SliderKind::Volume(deck)));
        widgets.push(Widget::Slider(SliderKind::Pitch(deck)));
        let mut band: usize = 0;
        while band < 3
            invariant
                band <= 3,
                widgets@ == before + deck_widgets(deck).subrange(0, 6 + band),
            decreases 3 - band,
        {
            widgets.push(Widget::Slider(SliderKind::Eq(deck, band)));
            assert(widgets@ == before + deck_widgets(deck).subrange(0, 6 + band + 1));
            band += 1;
        }
        assert(deck_widgets(deck).subrange(0, 9) == deck_widgets(deck));
        deck += 1;
    }
    widgets.push(Widget::Slider(SliderKind::CrossFader));
    widgets.push(Widget::Slider(SliderKind::CueMix));
    widgets.push(Widget::Slider(SliderKind::Headphone));
    widgets.push(Widget::Slider(SliderKind::Master));
    widgets
}

/// Label of a control.
pub open spec fn spec_label(widget: Widget) -> Seq<char> {
    match widget {
        Widget::Button(ButtonKind::Play(_)) => seq!['P', 'L', 'A', 'Y'],
        Widget::Button(ButtonKind::Cue(_)) => seq!['C', 'U', 'E'],
        Widget::Button(ButtonKind::Pfl(_)) => seq!['P', 'F', 'L'],
        Widget::Button(ButtonKind::Load(_)) => seq!['L', 'O', 'A', 'D'],
        Widget::Slider(SliderKind::Volume(_)) => seq!['v', 'o', 'l'],
        Widget::Slider(SliderKind::Pitch(_)) => seq!['p', 'i', 't', 'c', 'h'],
        Widget::Slider(SliderKind::Eq(_, 0)) => seq!['l', 'o', 'w'],
        Widget::Slider(SliderKind::Eq(_, 1)) => seq!['m', 'i', 'd'],
        Widget::Slider(SliderKind::Eq(_, _)) => seq!['h', 'i', 'g', 'h'],
        Widget::Slider(SliderKind::CrossFader) => seq!['c', 'r', 'o', 's', 's', 'f', 'a', 'd', 'e', 'r'],
        Widget::Slider(SliderKind::CueMix) => seq!['c', 'u', 'e'],
        Widget::Slider(SliderKind::Headphone) => seq!['p', 'h', 'o', 'n', 'e', 's'],
        Widget::Slider(SliderKind::Master) => seq!['m', 'a', 's', 't', 'e', 'r'],
    }
}

/// Label of a control (see [`spec_label`]).
pub fn label_text(widget: Widget) -> (r: &'static str)
    ensures
        r@ == spec_label(widget),
{
    match widget {
        Widget::Button(ButtonKind::Play(_)) => {
            proof {
                reveal_strlit("PLAY");
            }
            "PLAY"
        },
        Widget::Button(ButtonKind::Cue(_)) => {
            proof {
                reveal_strlit("CUE");
            }
            "CUE"
        },
        Widget::Button(ButtonKind::Pfl(_)) => {
            proof {
                reveal_strlit("PFL");
            }
            "PFL"
        },
        Widget::Button(ButtonKind::Load(_)) => {
            proof {
                reveal_strlit("LOAD");
            }
            "LOAD"
        },
        Widget::Slider(SliderKind::Volume(_)) => {
            proof {
                reveal_strlit("vol");
            }
            "vol"
        },
        Widget::Slider(SliderKind::Pitch(_)) => {
            proof {
                reveal_strlit("pitch");
            }
            "pitch"
        },
        Widget::Slider(SliderKind::Eq(_, band)) => {
            if band == 0 {
                proof {
                    reveal_strlit("low");
                }
                "low"
            } else if band == 1 {
                proof {
                    reveal_strlit("mid");
                }
                "mid"
            } else {
                proof {
                    reveal_strlit("high");
                }
                "high"
            }
        },
        Widget::Slider(SliderKind::CrossFader) => {
            proof {
                reveal_strlit("crossfader");
            }
            "crossfader"
        },
        Widget::Slider(SliderKind::CueMix) => {
            proof {
                reveal_strlit("cue");
            }
            "cue"
        },
        Widget::Slider(SliderKind::Headphone) => {
            proof {
                reveal_strlit("phones");
            }
            "phones"
        },
        Widget::Slider(SliderKind::Master) => {
            proof {
                reveal_strlit("master");
            }
            "master"
        },
    }
}

} // verus!
