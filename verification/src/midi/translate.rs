//! Generic mapping engine: translates a raw MIDI message into a domain
//! control event, from a declarative `Mapping`. Nothing here is specific to
//! one controller.
//!
//! The engine holds the Shift layer and the toggle states. Absolute
//! controls are reported with their 7-bit position and the curve of their
//! binding; applying the curve (a real-valued computation) is left to the
//! consumer.

use vstd::prelude::*;

use crate::mapping::{Action, ControlBinding, Curve, InputSpec, Mapping, Mode};

verus! {

/// Value carried by a control event. `A` is the representation of an
/// absolute reading.
#[derive(Debug, Clone, Copy, PartialEq)]
pub enum ControlValue<A> {
    /// Momentary/gate button: pressed (true) or released (false).
    Pressed(bool),
    /// Toggle resolved by the mapping engine: new state.
    Toggled(bool),
    /// Absolute control.
    Absolute(A),
    /// Signed relative ticks (jogs, encoders).
    Relative(i32),
}

/// A domain action with its value.
#[derive(Debug, Clone, Copy, PartialEq)]
pub struct ControlEvent<A> {
    pub action: Action,
    pub value: ControlValue<A>,
}

/// Absolute reading produced by the mapping engine: the 7-bit position of
/// the control (0–127) and the curve of its binding. Its value in the
/// action's domain is the curve applied to `position / 127`.
#[derive(Debug, Clone, Copy, PartialEq)]
pub struct CurvePoint<F> {
    pub curve: Curve<F>,
    pub position: u8,
}

/// Decoded channel voice message (SysEx and real-time messages ignored).
#[derive(Debug, Clone, Copy, PartialEq, Eq, Structural)]
pub enum ChannelMessage {
    NoteOn { ch: u8, note: u8 },
    NoteOff { ch: u8, note: u8 },
    ControlChange { ch: u8, cc: u8, value: u8 },
}

/// What a message does to the binding it reaches.
#[derive(Debug, Clone, Copy, PartialEq, Eq, Structural)]
pub enum Payload {
    Press(bool),
    Value(u8),
}

/// Decoding of a raw MIDI message: status `0x9n` is a note-on (velocity 0,
/// or missing, means note-off), `0x8n` a note-off, `0xBn` a control change
/// (missing value reads as 0); anything else, or a message without its
/// first data byte, is not a channel voice message.
pub open spec fn spec_parse(bytes: Seq<u8>) -> Option<ChannelMessage> {
    if bytes.len() == 0 {
        None
    } else {
        let status = bytes[0];
        let ch = (status % 16) as u8;
        let kind = status / 16;
        if bytes.len() < 2 || !(kind == 8 || kind == 9 || kind == 11) {
            None
        } else {
            let third: u8 = if bytes.len() >= 3 {
                bytes[2]
            } else {
                0
            };
            if kind == 9 {
                if third == 0 {
                    Some(ChannelMessage::NoteOff { ch, note: bytes[1] })
                } else {
                    Some(ChannelMessage::NoteOn { ch, note: bytes[1] })
                }
            } else if kind == 8 {
                Some(ChannelMessage::NoteOff { ch, note: bytes[1] })
            } else {
                Some(ChannelMessage::ControlChange { ch, cc: bytes[1], value: third })
            }
        }
    }
}

/// Decodes a raw MIDI message into a channel voice message.
pub fn parse(bytes: &[u8]) -> (r: Option<ChannelMessage>)
    ensures
        r == spec_parse(bytes@),
{
    if bytes.len() == 0 {
        return None;
    }
    let status = bytes[0];
    let ch = status & 0x0F;
    let kind = status & 0xF0;
    assert(ch == status % 16 && (kind == 0x90 <==> status / 16 == 9) && (kind == 0x80 <==> status
        / 16 == 8) && (kind == 0xB0 <==> status / 16 == 11)) by (bit_vector)
        requires
            ch == status & 0x0F,
            kind == status & 0xF0,
    ;
    if kind == 0x90 {
        if bytes.len() < 2 {
            return None;
        }
        let note = bytes[1];
        let velocity = if bytes.len() >= 3 {
            bytes[2]
        } else {
            0
        };
        if velocity == 0 {
            Some(ChannelMessage::NoteOff { ch, note })
        } else {
            Some(ChannelMessage::NoteOn { ch, note })
        }
    } else if kind == 0x80 {
        if bytes.len() < 2 {
            return None;
        }
        Some(ChannelMessage::NoteOff { ch, note: bytes[1] })
    } else if kind == 0xB0 {
        if bytes.len() < 2 {
            return None;
        }
        let cc = bytes[1];
        let value = if bytes.len() >= 3 {
            bytes[2]
        } else {
            0
        };
        Some(ChannelMessage::ControlChange { ch, cc, value })
    } else {
        None
    }
}

/// Matching key of a message and what it does: a note-off matches the
/// `NoteOn` binding of the same note, as a release.
pub open spec fn message_key(msg: ChannelMessage) -> (InputSpec, Payload) {
    match msg {
        ChannelMessage::NoteOn { ch, note } => (InputSpec::NoteOn { ch, note }, Payload::Press(true)),
        ChannelMessage::NoteOff { ch, note } => (
            InputSpec::NoteOn { ch, note },
            Payload::Press(false),
        ),
        ChannelMessage::ControlChange { ch, cc, value } => (
            InputSpec::CC { ch, cc },
            Payload::Value(value),
        ),
    }
}

/// Control `i` is bound to `key` on layer `layer`.
pub open spec fn on_layer<F>(c: Seq<ControlBinding<F>>, key: InputSpec, layer: bool, i: int) -> bool {
    c[i].input == key && c[i].shift == layer
}

/// First index below `n` bound to `key` on `layer`.
pub open spec fn first_on_layer<F>(c: Seq<ControlBinding<F>>, key: InputSpec, layer: bool, n: int) -> Option<int>
    decreases n,
{
    if n <= 0 {
        None
    } else {
        match first_on_layer(c, key, layer, n - 1) {
            Some(i) => Some(i),
            None => if on_layer(c, key, layer, n - 1) {
                Some(n - 1)
            } else {
                None
            },
        }
    }
}

/// Last index below `n` bound to `key` on `layer`.
pub open spec fn last_on_layer<F>(c: Seq<ControlBinding<F>>, key: InputSpec, layer: bool, n: int) -> Option<int>
    decreases n,
{
    if n <= 0 {
        None
    } else if on_layer(c, key, layer, n - 1) {
        Some(n - 1)
    } else {
        last_on_layer(c, key, layer, n - 1)
    }
}

/// Binding reached by `key`: the first one on the current layer, else the
/// last one of the base layer (a control without a shifted variant keeps
/// its base meaning while Shift is held).
pub open spec fn binding_for<F>(c: Seq<ControlBinding<F>>, key: InputSpec, shift: bool) -> Option<int> {
    match first_on_layer(c, key, shift, c.len() as int) {
        Some(i) => Some(i),
        None => last_on_layer(c, key, false, c.len() as int),
    }
}

/// Abstract state of the mapping engine.
pub struct EngineState<F> {
    pub controls: Seq<ControlBinding<F>>,
    /// Toggle state of each control, parallel to `controls`.
    pub toggles: Seq<bool>,
    /// Shift layer held.
    pub shift: bool,
}

pub open spec fn event<F>(action: Action, value: ControlValue<CurvePoint<F>>) -> Option<
    ControlEvent<CurvePoint<F>>,
> {
    Some(ControlEvent { action, value })
}

/// Effect of a message reaching binding `i`.
pub open spec fn respond<F>(st: EngineState<F>, i: int, payload: Payload) -> (
    EngineState<F>,
    Option<ControlEvent<CurvePoint<F>>>,
) {
    let b = st.controls[i];
    match b.mode {
        Mode::Toggle => match payload {
            Payload::Press(true) => {
                let t = !st.toggles[i];
                (
                    EngineState { controls: st.controls, toggles: st.toggles.update(i, t), shift: st.shift },
                    event(b.action, ControlValue::Toggled(t)),
                )
            },
            Payload::Press(false) => (st, None),
            Payload::Value(v) => (st, event(b.action, ControlValue::Pressed(v >= 64))),
        },
        Mode::Momentary | Mode::Gate => match payload {
            Payload::Press(p) => (
                EngineState {
                    controls: st.controls,
                    toggles: st.toggles,
                    shift: if b.action == Action::Shift {
                        p
                    } else {
                        st.shift
                    },
                },
                event(b.action, ControlValue::Pressed(p)),
            ),
            Payload::Value(v) => (st, event(b.action, ControlValue::Pressed(v >= 64))),
        },
        Mode::Absolute { curve } => match payload {
            Payload::Value(v) => (
                st,
                event(b.action, ControlValue::Absolute(CurvePoint { curve, position: (v % 128) as u8 })),
            ),
            Payload::Press(p) => (
                st,
                event(
                    b.action,
                    ControlValue::Absolute(CurvePoint { curve, position: if p { 127u8 } else { 0u8 } }),
                ),
            ),
        },
        Mode::Relative { encoding } => match payload {
            Payload::Value(v) => (st, event(b.action, ControlValue::Relative(encoding.decoded(v) as i32))),
            Payload::Press(_) => (st, None),
        },
    }
}

/// One translation step of the mapping engine: new state and emitted event.
pub open spec fn spec_translate<F>(st: EngineState<F>, bytes: Seq<u8>) -> (
    EngineState<F>,
    Option<ControlEvent<CurvePoint<F>>>,
) {
    match spec_parse(bytes) {
        None => (st, None),
        Some(msg) => {
            let (key, payload) = message_key(msg);
            match binding_for(st.controls, key, st.shift) {
                None => (st, None),
                Some(i) => respond(st, i, payload),
            }
        },
    }
}

/// Mapping engine: the bindings of a mapping, the toggle states and the
/// Shift layer.
pub struct MappingEngine<F> {
    controls: Vec<ControlBinding<F>>,
    /// Toggle states, parallel to `controls`.
    toggles: Vec<bool>,
    shift: bool,
}

impl<F> View for MappingEngine<F> {
    type V = EngineState<F>;

    closed spec fn view(&self) -> EngineState<F> {
        EngineState { controls: self.controls@, toggles: self.toggles@, shift: self.shift }
    }
}

impl<F: Copy> MappingEngine<F> {
    /// Toggle states stay parallel to the bindings.
    pub open spec fn wf(&self) -> bool {
        self@.toggles.len() == self@.controls.len()
    }

    /// Engine for `mapping`: its bindings, every toggle off, Shift released.
    pub fn new(mapping: &Mapping<F>) -> (r: Self)
        ensures
            r.wf(),
            r@.controls == mapping.controls@,
            r@.toggles == Seq::new(mapping.controls@.len(), |i: int| false),
            !r@.shift,
    {
        let n = mapping.controls.len();
        let mut controls: Vec<ControlBinding<F>> = Vec::new();
        let mut toggles: Vec<bool> = Vec::new();
        let mut i: usize = 0;
        while i < n
            invariant
                n == mapping.controls@.len(),
                i <= n,
                controls@ == mapping.controls@.subrange(0, i as int),
                toggles@ == Seq::new(i as nat, |k: int| false),
            decreases n - i,
        {
            controls.push(mapping.controls[i]);
            toggles.push(false);
            i += 1;
        }
        assert(controls@ == mapping.controls@);
        let r = MappingEngine { controls, toggles, shift: false };
        assert(r@.toggles == Seq::new(mapping.controls@.len(), |i: int| false));
        r
    }

    /// Shift layer currently held.
    pub fn shift_active(&self) -> (r: bool)
        ensures
            r == self@.shift,
    {
        self.shift
    }

    /// Translates a raw message. `None` when the message matches no binding
    /// or has no effect (e.g. the release of a toggle).
    pub fn translate(&mut self, bytes: &[u8]) -> (r: Option<ControlEvent<CurvePoint<F>>>)
        requires
            old(self).wf(),
        ensures
            final(self).wf(),
            (final(self)@, r) == spec_translate(old(self)@, bytes@),
    {
        let message = match parse(bytes) {
            Some(m) => m,
            None => return None,
        };
        let (key, payload) = match message {
            ChannelMessage::NoteOn { ch, note } => (InputSpec::NoteOn { ch, note }, Payload::Press(true)),
            ChannelMessage::NoteOff { ch, note } => (InputSpec::NoteOn { ch, note }, Payload::Press(false)),
            ChannelMessage::ControlChange { ch, cc, value } => (InputSpec::CC { ch, cc }, Payload::Value(value)),
        };
        assert((key, payload) == message_key(message));
        let index = match self.find_binding(key) {
            Some(i) => i,
            None => return None,
        };
        let binding = self.controls[index];
        let action = binding.action;
        match binding.mode {
            Mode::Toggle => match payload {
                Payload::Press(true) => {
                    let ghost before = self@;
                    let t = !self.toggles[index];
                    self.toggles.set(index, t);
                    assert(self@.toggles == before.toggles.update(index as int, t));
                    assert(self@.controls == before.controls);
                    Some(ControlEvent { action, value: ControlValue::Toggled(t) })
                },
                Payload::Press(false) => None,
                Payload::Value(v) => Some(ControlEvent { action, value: ControlValue::Pressed(v >= 0x40) }),
            },
            Mode::Momentary | Mode::Gate => match payload {
                Payload::Press(pressed) => {
                    if action == Action::Shift {
                        self.shift = pressed;
                    }
                    Some(ControlEvent { action, value: ControlValue::Pressed(pressed) })
                },
                Payload::Value(v) => Some(ControlEvent { action, value: ControlValue::Pressed(v >= 0x40) }),
            },
            Mode::Absolute { curve } => match payload {
                Payload::Value(v) => {
                    let position = v & 0x7F;
                    assert(position == v % 128) by (bit_vector)
                        requires
                            position == v & 0x7F,
                    ;
                    Some(ControlEvent { action, value: ControlValue::Absolute(CurvePoint { curve, position }) })
                },
                Payload::Press(pressed) => {
                    let position: u8 = if pressed {
                        127
                    } else {
                        0
                    };
                    Some(ControlEvent { action, value: ControlValue::Absolute(CurvePoint { curve, position }) })
                },
            },
            Mode::Relative { encoding } => match payload {
                Payload::Value(v) => Some(ControlEvent { action, value: ControlValue::Relative(encoding.decode(v)) }),
                Payload::Press(_) => None,
            },
        }
    }

    /// Binding matching `key`: priority to the current layer, fallback on the
    /// base layer when no shifted binding exists.
    fn find_binding(&self, key: InputSpec) -> (r: Option<usize>)
        ensures
            match r {
                Some(i) => binding_for(self@.controls, key, self@.shift) == Some(i as int),
                None => binding_for(self@.controls, key, self@.shift) is None,
            },
            r matches Some(i) ==> i < self@.controls.len(),
    {
        let n = self.controls.len();
        let ghost c = self@.controls;
        let mut fallback: Option<usize> = None;
        let mut i: usize = 0;
        while i < n
            invariant
                n == c.len(),
                c == self@.controls,
                i <= n,
                first_on_layer(c, key, self.shift, i as int) is None,
                match last_on_layer(c, key, false, i as int) {
                    Some(k) => fallback == Some(k as usize) && 0 <= k < i,
                    None => fallback is None,
                },
            decreases n - i,
        {
            let control = &self.controls[i];
            if control.input == key {
                if control.shift == self.shift {
                    proof {
                        assert(first_on_layer(c, key, self.shift, i + 1) == Some(i as int));
                        lemma_first_on_layer_stable(c, key, self.shift, i + 1, n as int);
                    }
                    return Some(i);
                }
                if !control.shift {
                    fallback = Some(i);
                }
            }
            i += 1;
        }
        fallback
    }
}

/// Once found, the first binding of a layer stays the first one.
proof fn lemma_first_on_layer_stable<F>(c: Seq<ControlBinding<F>>, key: InputSpec, layer: bool, m: int, n: int)
    requires
        m <= n,
        first_on_layer(c, key, layer, m) is Some,
    ensures
        first_on_layer(c, key, layer, n) == first_on_layer(c, key, layer, m),
    decreases n - m,
{
    if n > m {
        lemma_first_on_layer_stable(c, key, layer, m, n - 1);
    }
}

/// The first binding of a layer below `n` is bound there and no earlier
/// control is; absence means no control below `n` is bound there.
pub proof fn lemma_first_on_layer<F>(c: Seq<ControlBinding<F>>, key: InputSpec, layer: bool, n: int)
    ensures
        match first_on_layer(c, key, layer, n) {
            Some(i) => 0 <= i < n && on_layer(c, key, layer, i) && forall|j: int|
                0 <= j < i ==> !on_layer(c, key, layer, j),
            None => forall|j: int| 0 <= j < n ==> !on_layer(c, key, layer, j),
        },
    decreases n,
{
    if n > 0 {
        lemma_first_on_layer(c, key, layer, n - 1);
    }
}

/// The last binding of a layer below `n` is bound there and no later
/// control below `n` is; absence means no control below `n` is bound there.
pub proof fn lemma_last_on_layer<F>(c: Seq<ControlBinding<F>>, key: InputSpec, layer: bool, n: int)
    ensures
        match last_on_layer(c, key, layer, n) {
            Some(i) => 0 <= i < n && on_layer(c, key, layer, i) && forall|j: int|
                i < j < n ==> !on_layer(c, key, layer, j),
            None => forall|j: int| 0 <= j < n ==> !on_layer(c, key, layer, j),
        },
    decreases n,
{
    if n > 0 {
        lemma_last_on_layer(c, key, layer, n - 1);
    }
}

/// Shift layering: a key reaches a binding of the current layer when one
/// exists (the first one); otherwise the last base-layer binding of that
/// key; and nothing when neither layer binds it.
pub proof fn lemma_binding_layers<F>(c: Seq<ControlBinding<F>>, key: InputSpec, shift: bool)
    ensures
        match binding_for(c, key, shift) {
            Some(i) => 0 <= i < c.len() && c[i].input == key && (on_layer(c, key, shift, i) || (
            !c[i].shift && forall|j: int| 0 <= j < c.len() ==> !on_layer(c, key, shift, j))),
            None => forall|j: int|
                0 <= j < c.len() ==> !on_layer(c, key, shift, j) && !on_layer(c, key, false, j),
        },
        (exists|j: int| 0 <= j < c.len() && on_layer(c, key, shift, j)) ==> (binding_for(
            c,
            key,
            shift,
        ) matches Some(i) && c[i].shift == shift),
{
    lemma_first_on_layer(c, key, shift, c.len() as int);
    lemma_last_on_layer(c, key, false, c.len() as int);
}

/// Translation never changes the bindings, and keeps one toggle state per
/// binding.
pub proof fn lemma_translate_keeps_bindings<F>(st: EngineState<F>, bytes: Seq<u8>)
    requires
        st.toggles.len() == st.controls.len(),
    ensures
        spec_translate(st, bytes).0.controls == st.controls,
        spec_translate(st, bytes).0.toggles.len() == st.toggles.len(),
{
    lemma_translate_reaches_binding(st, bytes);
}

/// A message that is not a channel voice message, or that no binding of
/// the current or base layer matches, leaves the engine unchanged and emits
/// nothing.
pub proof fn lemma_unmatched_message_ignored<F>(st: EngineState<F>, bytes: Seq<u8>)
    requires
        spec_parse(bytes) is None || binding_for(
            st.controls,
            message_key(spec_parse(bytes)->0).0,
            st.shift,
        ) is None,
    ensures
        spec_translate(st, bytes) == (st, Option::<ControlEvent<CurvePoint<F>>>::None),
{
}

proof fn lemma_translate_reaches_binding<F>(st: EngineState<F>, bytes: Seq<u8>)
    ensures
        spec_parse(bytes) matches Some(msg) ==> binding_for(st.controls, message_key(msg).0, st.shift) matches Some(i) ==> 0 <= i < st.controls.len(),
{
    if let Some(msg) = spec_parse(bytes) {
        lemma_binding_layers(st.controls, message_key(msg).0, st.shift);
    }
}

/// Pressing a toggle flips its state and reports the new state; pressing it
/// again restores the engine exactly and reports the original state.
pub proof fn lemma_toggle_press_twice_restores<F>(st: EngineState<F>, bytes: Seq<u8>, i: int)
    requires
        st.toggles.len() == st.controls.len(),
        spec_parse(bytes) matches Some(ChannelMessage::NoteOn { .. }),
        binding_for(st.controls, message_key(spec_parse(bytes)->0).0, st.shift) == Some(i),
        st.controls[i].mode is Toggle,
    ensures
        spec_translate(st, bytes).1 == event(
            st.controls[i].action,
            ControlValue::<CurvePoint<F>>::Toggled(!st.toggles[i]),
        ),
        spec_translate(spec_translate(st, bytes).0, bytes).1 == event(
            st.controls[i].action,
            ControlValue::<CurvePoint<F>>::Toggled(st.toggles[i]),
        ),
        spec_translate(spec_translate(st, bytes).0, bytes).0 == st,
{
    lemma_translate_reaches_binding(st, bytes);
    let st1 = spec_translate(st, bytes).0;
    assert(st1.controls == st.controls && st1.shift == st.shift);
    let st2 = spec_translate(st1, bytes).0;
    assert(st2.toggles =~= st.toggles);
}

/// Releasing a toggle emits nothing and changes nothing.
pub proof fn lemma_toggle_release_silent<F>(st: EngineState<F>, bytes: Seq<u8>, i: int)
    requires
        spec_parse(bytes) matches Some(ChannelMessage::NoteOff { .. }),
        binding_for(st.controls, message_key(spec_parse(bytes)->0).0, st.shift) == Some(i),
        st.controls[i].mode is Toggle,
    ensures
        spec_translate(st, bytes) == (st, Option::<ControlEvent<CurvePoint<F>>>::None),
{
}

/// A Shift binding (momentary or gate) holds the Shift layer exactly while
/// it is pressed: its press enables the layer, its release disables it.
pub proof fn lemma_shift_follows_button<F>(st: EngineState<F>, bytes: Seq<u8>, i: int)
    requires
        spec_parse(bytes) matches Some(ChannelMessage::NoteOn { .. }) || spec_parse(bytes) matches Some(ChannelMessage::NoteOff { .. }),
        binding_for(st.controls, message_key(spec_parse(bytes)->0).0, st.shift) == Some(i),
        st.controls[i].mode is Momentary || st.controls[i].mode is Gate,
        st.controls[i].action == Action::Shift,
    ensures
        spec_translate(st, bytes).0.shift == (spec_parse(bytes) matches Some(ChannelMessage::NoteOn { .. })),
        spec_translate(st, bytes).0.controls == st.controls,
        spec_translate(st, bytes).0.toggles == st.toggles,
{
}

/// A message acts only through the binding it reaches: only a Shift
/// binding moves the Shift layer (any other control, pressed or released,
/// leaves the layer as it was), only the reached binding's toggle state can
/// change, and the event reported carries that binding's action.
pub proof fn lemma_only_reached_binding_acts<F>(st: EngineState<F>, bytes: Seq<u8>)
    requires
        st.toggles.len() == st.controls.len(),
    ensures
        spec_translate(st, bytes).0.shift != st.shift ==> (spec_parse(bytes) matches Some(msg)
            && binding_for(st.controls, message_key(msg).0, st.shift) matches Some(i)
            && st.controls[i].action == Action::Shift),
        spec_parse(bytes) matches Some(msg) ==> binding_for(st.controls, message_key(msg).0, st.shift) matches Some(i) ==> {
            &&& st.controls[i].action != Action::Shift ==> spec_translate(st, bytes).0.shift == st.shift
            &&& forall|j: int|
                0 <= j < st.toggles.len() && j != i ==> (#[trigger] spec_translate(st, bytes).0.toggles[j])
                    == st.toggles[j]
            &&& spec_translate(st, bytes).1 matches Some(e) ==> e.action == st.controls[i].action
        },
{
    lemma_translate_reaches_binding(st, bytes);
}

/// A note-on with velocity 0 is a release: it translates exactly like a
/// note-off of the same note, whatever the engine state.
pub proof fn lemma_velocity_zero_is_release<F>(st: EngineState<F>, ch: u8, note: u8, velocity: u8)
    requires
        ch < 16,
    ensures
        spec_translate(st, seq![(0x90 + ch) as u8, note, 0u8]) == spec_translate(
            st,
            seq![(0x80 + ch) as u8, note, velocity],
        ),
{
    assert(spec_parse(seq![(0x90 + ch) as u8, note, 0u8]) == Some(ChannelMessage::NoteOff { ch, note }));
    assert(spec_parse(seq![(0x80 + ch) as u8, note, velocity]) == Some(ChannelMessage::NoteOff { ch, note }));
}

} // verus!
