use vstd::prelude::*;

use crate::highlight::Rect;
use crate::speech::{Call, EngineCall, PlayerState, Priority, TTS, TTSError};
use crate::speech::{after_destroy, after_speak, after_stop, calls_view, speak_calls, stop_calls};
use crate::text::{focus_text, focus_utterance};

verus! {

/// The kind of a focused control, as far as narration cares.
#[derive(PartialEq, Eq, Structural, Clone, Copy, Debug)]
pub enum ControlType {
    Edit,
    ComboBox,
    Other,
}

/// A focus change on a new element, with the attributes that could be read.
#[derive(Clone, Debug, PartialEq, Eq)]
pub struct FocusEvent {
    pub name: String,
    pub help_text: String,
    /// The localized name of the control type.
    pub role: String,
    pub control_type: ControlType,
    pub rect: Option<Rect>,
}

/// A notification sound.
#[derive(PartialEq, Eq, Structural, Clone, Copy, Debug)]
pub enum Cue {
    Startup,
    Shutdown,
    InputFocused,
}

/// One step for the caller to carry out, in order.
#[derive(Clone, Debug, PartialEq, Eq)]
pub enum Action {
    Engine(EngineCall),
    PlayCue(Cue),
    /// Send this value to the highlight overlay.
    Publish(Option<Rect>),
    /// Wait this many milliseconds.
    Sleep(u64),
    /// Attach the focus and key listeners.
    RegisterListeners,
    /// Open the gates: call `WindowsDriver::activate`.
    Activate,
}

pub ghost enum Act {
    Engine(Call),
    PlayCue(Cue),
    Publish(Option<Rect>),
    Sleep(u64),
    RegisterListeners,
    Activate,
}

impl View for Action {
    type V = Act;

    open spec fn view(&self) -> Act {
        match self {
            Action::Engine(c) => Act::Engine(c@),
            Action::PlayCue(c) => Act::PlayCue(*c),
            Action::Publish(v) => Act::Publish(*v),
            Action::Sleep(ms) => Act::Sleep(*ms),
            Action::RegisterListeners => Act::RegisterListeners,
            Action::Activate => Act::Activate,
        }
    }
}

pub open spec fn actions_view(v: Seq<Action>) -> Seq<Act> {
    v.map_values(|a: Action| a@)
}

pub open spec fn engine_acts(calls: Seq<Call>) -> Seq<Act> {
    calls.map_values(|c: Call| Act::Engine(c))
}

pub open spec fn is_input(t: ControlType) -> bool {
    t == ControlType::Edit || t == ControlType::ComboBox
}

/// The narrator: the speech channel with its gates, and whether the focus is on a
/// text input.
pub struct WindowsDriver {
    pub tts: TTS,
    pub input_focused: bool,
    /// Whether a highlight overlay listens.
    pub overlay: bool,
}

pub open spec fn closed_gates(s: TTS) -> TTS {
    TTS { can_speak: false, can_stop: false, ..s }
}

pub open spec fn welcome_text() -> Seq<char> {
    "Welcome to Aria."@
}

pub open spec fn farewell_text() -> Seq<char> {
    "Aria shutting down."@
}

/// The speech of a `Normal` request, or nothing on a released channel.
pub open spec fn normal_speech(s: TTS, text: Seq<char>) -> Seq<Act> {
    if s.player == PlayerState::Released {
        Seq::empty()
    } else {
        engine_acts(speak_calls(s, text, Priority::Normal))
    }
}

pub open spec fn after_normal(s: TTS, text: Seq<char>) -> TTS {
    if s.player == PlayerState::Released {
        s
    } else {
        after_speak(s, text, Priority::Normal)
    }
}

/// What a focus change does: publish its rectangle, sound the input cue on a text
/// input, and speak its utterance.
pub open spec fn focus_acts(overlay: bool, s: TTS, ev: FocusEvent) -> Seq<Act> {
    (if overlay {
        seq![Act::Publish(ev.rect)]
    } else {
        Seq::empty()
    }) + (if is_input(ev.control_type) {
        seq![Act::PlayCue(Cue::InputFocused)]
    } else {
        Seq::empty()
    }) + normal_speech(s, focus_utterance(ev.name@, ev.help_text@, ev.role@))
}

/// Keys that are never narrated.
pub open spec fn withheld(key: Seq<char>) -> bool {
    key == "Enter"@ || key == "LeftControl"@ || key == "RightControl"@ || key == "C"@
}

pub open spec fn key_acts(input_focused: bool, s: TTS, key: Seq<char>) -> Seq<Act> {
    if key == "Escape"@ {
        engine_acts(stop_calls(s, true))
    } else if withheld(key) || !input_focused {
        Seq::empty()
    } else {
        normal_speech(s, key)
    }
}

pub open spec fn after_key(input_focused: bool, s: TTS, key: Seq<char>) -> TTS {
    if key == "Escape"@ {
        after_stop(s, true)
    } else if withheld(key) || !input_focused {
        s
    } else {
        after_normal(s, key)
    }
}

pub open spec fn start_acts(s: TTS, sounds: bool) -> Seq<Act> {
    (if sounds {
        seq![Act::PlayCue(Cue::Startup), Act::Sleep(3000)] + engine_acts(
            speak_calls(closed_gates(s), welcome_text(), Priority::Override),
        ) + seq![Act::Sleep(1000)]
    } else {
        Seq::empty()
    }) + seq![Act::RegisterListeners, Act::Activate]
}

pub open spec fn after_start(s: TTS, sounds: bool) -> TTS {
    if sounds {
        after_speak(closed_gates(s), welcome_text(), Priority::Override)
    } else {
        closed_gates(s)
    }
}

pub open spec fn stop_acts(s: TTS, sounds: bool, overlay: bool) -> Seq<Act> {
    engine_acts(speak_calls(closed_gates(s), farewell_text(), Priority::Override)) + seq![
        Act::Engine(Call::AwaitCompletion),
        Act::Engine(Call::Release),
    ] + (if sounds {
        seq![Act::PlayCue(Cue::Shutdown), Act::Sleep(2000)]
    } else {
        Seq::empty()
    }) + (if overlay {
        seq![Act::Publish(None)]
    } else {
        Seq::empty()
    })
}

fn append_engine(out: &mut Vec<Action>, calls: Vec<EngineCall>)
    ensures
        actions_view(final(out)@) == actions_view(old(out)@) + engine_acts(calls_view(calls@)),
{
    let ghost start = out@;
    let mut i: usize = 0;
    while i < calls.len()
        invariant
            i <= calls.len(),
            actions_view(out@) == actions_view(start) + engine_acts(
                calls_view(calls@.take(i as int)),
            ),
        decreases calls.len() - i,
    {
        let ghost before = out@;
        let a = Action::Engine(calls[i].clone_call());
        out.push(a);
        proof {
            assert(out@ =~= before.push(a));
            assert(actions_view(out@) =~= actions_view(before).push(a@));
            assert(calls@.take(i as int + 1) =~= calls@.take(i as int).push(calls@[i as int]));
            assert(engine_acts(calls_view(calls@.take(i as int + 1))) =~= engine_acts(
                calls_view(calls@.take(i as int)),
            ).push(a@));
        }
        i += 1;
    }
    assert(calls@.take(calls.len() as int) =~= calls@);
}

impl EngineCall {
    /// A copy of this call.
    pub fn clone_call(&self) -> (r: EngineCall)
        ensures
            r@ == self@,
    {
        match self {
            EngineCall::Stop => EngineCall::Stop,
            EngineCall::Play(t) => EngineCall::Play(t.clone()),
            EngineCall::AwaitCompletion => EngineCall::AwaitCompletion,
            EngineCall::Release => EngineCall::Release,
        }
    }
}

/// Whether `a` and `b` hold the same characters.
fn same_text(a: &str, b: &str) -> (r: bool)
    ensures
        r == (a@ == b@),
{
    String::from_str(a) == String::from_str(b)
}

impl WindowsDriver {
    /// A narrator with both gates closed and nothing spoken yet.
    pub fn new(overlay: bool) -> (r: WindowsDriver)
        ensures
            r.tts == TTS::new_spec(),
            !r.input_focused,
            r.overlay == overlay,
    {
        WindowsDriver { tts: TTS::new(), input_focused: false, overlay }
    }

    /// Opens both gates: normal narration may speak and interrupt.
    pub fn activate(&mut self)
        ensures
            final(self).tts == (TTS { can_speak: true, can_stop: true, ..old(self).tts }),
            final(self).input_focused == old(self).input_focused,
            final(self).overlay == old(self).overlay,
    {
        self.tts.set_can_stop(true);
        self.tts.set_can_speak(true);
    }

    /// Closes both gates: only `Override` requests are heard.
    pub fn deactivate(&mut self)
        ensures
            final(self).tts == closed_gates(old(self).tts),
            final(self).input_focused == old(self).input_focused,
            final(self).overlay == old(self).overlay,
    {
        self.tts.set_can_stop(false);
        self.tts.set_can_speak(false);
    }

    /// A focus change on a new element. The input flag follows the control type,
    /// the overlay gets the element's rectangle, and its cleaned utterance is
    /// requested at `Normal` priority.
    pub fn on_focus(&mut self, ev: &FocusEvent) -> (r: Vec<Action>)
        ensures
            actions_view(r@) == focus_acts(old(self).overlay, old(self).tts, *ev),
            final(self).input_focused == is_input(ev.control_type),
            final(self).tts == after_normal(
                old(self).tts,
                focus_utterance(ev.name@, ev.help_text@, ev.role@),
            ),
            final(self).overlay == old(self).overlay,
    {
        let mut out: Vec<Action> = Vec::new();
        if self.overlay {
            out.push(Action::Publish(ev.rect));
        }
        let input = ev.control_type == ControlType::Edit || ev.control_type == ControlType::ComboBox;
        self.input_focused = input;
        if input {
            out.push(Action::PlayCue(Cue::InputFocused));
        }
        let text = focus_text(ev.name.as_str(), ev.help_text.as_str(), ev.role.as_str());
        let ghost prefix = actions_view(out@);
        match self.tts.speak(text.as_str(), Priority::Normal) {
            Ok(calls) => append_engine(&mut out, calls),
            Err(_) => {},
        }
        assert(actions_view(out@) =~= focus_acts(old(self).overlay, old(self).tts, *ev));
        out
    }

    /// Starts narration. The gates close; with `sounds`, the startup cue plays, then
    /// the welcome is spoken at `Override` priority between settle delays; then the
    /// listeners are attached and the gates open. A released channel cannot start.
    pub fn start(&mut self, sounds: bool) -> (r: Result<Vec<Action>, TTSError>)
        ensures
            old(self).tts.player == PlayerState::Released <==> r is Err,
            r is Err ==> r->Err_0 is NotInitialized && final(self).tts == old(self).tts,
            r is Ok ==> actions_view(r->Ok_0@) == start_acts(old(self).tts, sounds)
                && final(self).tts == after_start(old(self).tts, sounds),
            final(self).input_focused == old(self).input_focused,
            final(self).overlay == old(self).overlay,
    {
        if self.tts.player == PlayerState::Released {
            return Err(TTSError::NotInitialized);
        }
        self.deactivate();
        let mut out: Vec<Action> = Vec::new();
        let ghost closed = self.tts;
        if sounds {
            out.push(Action::PlayCue(Cue::Startup));
            out.push(Action::Sleep(3000));
            assert(actions_view(out@) =~= seq![Act::PlayCue(Cue::Startup), Act::Sleep(3000)]);
            match self.tts.speak("Welcome to Aria.", Priority::Override) {
                Ok(calls) => append_engine(&mut out, calls),
                Err(_) => {},
            }
            let ghost mid = out@;
            out.push(Action::Sleep(1000));
            assert(actions_view(out@) =~= actions_view(mid).push(Act::Sleep(1000)));
        }
        let ghost pre = out@;
        assert(actions_view(pre) =~= (if sounds {
            seq![Act::PlayCue(Cue::Startup), Act::Sleep(3000)] + engine_acts(
                speak_calls(closed, welcome_text(), Priority::Override),
            ) + seq![Act::Sleep(1000)]
        } else {
            Seq::empty()
        }));
        out.push(Action::RegisterListeners);
        out.push(Action::Activate);
        assert(actions_view(out@) =~= actions_view(pre) + seq![
            Act::RegisterListeners,
            Act::Activate,
        ]);
        assert(actions_view(out@) =~= start_acts(old(self).tts, sounds));
        Ok(out)
    }

    /// Stops narration. The gates close, the farewell is spoken at `Override`
    /// priority and awaited, the channel is torn down; with `sounds` the shutdown
    /// cue plays with its settle delay; the overlay is told to clear.
    pub fn stop(&mut self, sounds: bool) -> (r: Result<Vec<Action>, TTSError>)
        ensures
            old(self).tts.player == PlayerState::Released <==> r is Err,
            r is Err ==> r->Err_0 is NotInitialized && final(self).tts == old(self).tts,
            r is Ok ==> actions_view(r->Ok_0@) == stop_acts(old(self).tts, sounds, old(self).overlay)
                && final(self).tts == after_destroy(closed_gates(old(self).tts)),
            final(self).input_focused == old(self).input_focused,
            final(self).overlay == old(self).overlay,
    {
        if self.tts.player == PlayerState::Released {
            return Err(TTSError::NotInitialized);
        }
        self.deactivate();
        let mut out: Vec<Action> = Vec::new();
        let ghost closed = self.tts;
        match self.tts.speak("Aria shutting down.", Priority::Override) {
            Ok(calls) => append_engine(&mut out, calls),
            Err(_) => {},
        }
        assert(actions_view(out@) =~= engine_acts(
            speak_calls(closed, farewell_text(), Priority::Override),
        ));
        let ghost s1 = out@;
        out.push(Action::Engine(EngineCall::AwaitCompletion));
        assert(actions_view(out@) =~= actions_view(s1).push(Act::Engine(Call::AwaitCompletion)));
        let ghost s2 = out@;
        let released = self.tts.destroy();
        append_engine(&mut out, released);
        proof {
            let c = seq![Call::Release];
            assert(engine_acts(c) =~= seq![Act::Engine(Call::Release)]);
            assert(actions_view(out@) =~= actions_view(s2).push(Act::Engine(Call::Release)));
        }
        let ghost s3 = out@;
        if sounds {
            out.push(Action::PlayCue(Cue::Shutdown));
            out.push(Action::Sleep(2000));
        }
        assert(actions_view(out@) =~= actions_view(s3) + (if sounds {
            seq![Act::PlayCue(Cue::Shutdown), Act::Sleep(2000)]
        } else {
            Seq::empty()
        }));
        let ghost s4 = out@;
        if self.overlay {
            out.push(Action::Publish(None));
        }
        assert(actions_view(out@) =~= actions_view(s4) + (if old(self).overlay {
            seq![Act::Publish(None)]
        } else {
            Seq::empty()
        }));
        assert(actions_view(out@) =~= stop_acts(old(self).tts, sounds, old(self).overlay));
        Ok(out)
    }
}

/// A key press. `Escape` silences speech whatever the gates say; `Enter`, the
/// control keys and `C` are never narrated; any other key is spoken by name at
/// `Normal` priority while the focus is on a text input.
pub fn on_keypress(driver: &mut WindowsDriver, key_name: &str) -> (r: Vec<Action>)
    ensures
        actions_view(r@) == key_acts(old(driver).input_focused, old(driver).tts, key_name@),
        final(driver).tts == after_key(old(driver).input_focused, old(driver).tts, key_name@),
        final(driver).input_focused == old(driver).input_focused,
        final(driver).overlay == old(driver).overlay,
{
    let mut out: Vec<Action> = Vec::new();
    if same_text(key_name, "Escape") {
        let calls = driver.tts.stop(true);
        append_engine(&mut out, calls);
    } else if same_text(key_name, "Enter") || same_text(key_name, "LeftControl") || same_text(
        key_name,
        "RightControl",
    ) || same_text(key_name, "C") || !driver.input_focused {
    } else {
        match driver.tts.speak(key_name, Priority::Normal) {
            Ok(calls) => append_engine(&mut out, calls),
            Err(_) => {},
        }
    }
    assert(actions_view(out@) =~= key_acts(old(driver).input_focused, old(driver).tts, key_name@));
    out
}

} // verus!
