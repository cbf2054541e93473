use vstd::prelude::*;

verus! {

/// Whether a speech request may bypass the gates.
#[derive(PartialEq, Eq, Structural, Clone, Copy, Debug)]
pub enum Priority {
    /// Honoured only while speaking is enabled.
    Normal,
    /// System announcements and manual silence: always honoured.
    Override,
}

/// What the speech engine is asked to do, in order.
#[derive(Clone, Debug, PartialEq, Eq)]
pub enum EngineCall {
    /// Halt whatever is playing.
    Stop,
    /// Synthesize the text and start playing it.
    Play(String),
    /// Block until the current utterance has finished playing.
    AwaitCompletion,
    /// Close the player and free it.
    Release,
}

/// An engine call over plain values.
pub ghost enum Call {
    Stop,
    Play(Seq<char>),
    AwaitCompletion,
    Release,
}

impl View for EngineCall {
    type V = Call;

    open spec fn view(&self) -> Call {
        match self {
            EngineCall::Stop => Call::Stop,
            EngineCall::Play(t) => Call::Play(t@),
            EngineCall::AwaitCompletion => Call::AwaitCompletion,
            EngineCall::Release => Call::Release,
        }
    }
}

pub open spec fn calls_view(v: Seq<EngineCall>) -> Seq<Call> {
    v.map_values(|c: EngineCall| c@)
}

/// The life of the one player behind the channel.
#[derive(PartialEq, Eq, Structural, Clone, Copy, Debug)]
pub enum PlayerState {
    /// Never created.
    Absent,
    /// Created by a first play, not yet released.
    Live,
    /// Released by a teardown; the channel is closed.
    Released,
}

/// Errors of the speech channel.
#[derive(Clone, Debug, PartialEq, Eq)]
pub enum TTSError {
    Windows(String),
    Synthesis(String),
    MediaPlayer(String),
    Init(String),
    Forbidden(String),
    Sync(String),
    NotInitialized,
}

/// How the engine reports its playback session.
#[derive(PartialEq, Eq, Structural, Clone, Copy, Debug)]
pub enum PlaybackState {
    /// No media is open.
    Idle,
    Opening,
    Buffering,
    Playing,
    Paused,
}

/// The speech channel: one player that plays at most one utterance at a time,
/// guarded by the two gates.
#[derive(PartialEq, Eq, Structural, Clone, Copy, Debug)]
pub struct TTS {
    pub can_speak: bool,
    pub can_stop: bool,
    /// An utterance has been started and has not finished or been stopped.
    pub playing: bool,
    pub player: PlayerState,
}

/// The engine calls of a speak request.
pub open spec fn speak_calls(s: TTS, text: Seq<char>, priority: Priority) -> Seq<Call> {
    if priority == Priority::Override || (s.can_speak && s.can_stop) {
        if s.playing {
            seq![Call::Stop, Call::Play(text)]
        } else {
            seq![Call::Play(text)]
        }
    } else if s.can_speak && !s.playing {
        seq![Call::Play(text)]
    } else {
        Seq::empty()
    }
}

/// Whether a speak request would reach the engine.
pub open spec fn reaches_engine(s: TTS, priority: Priority) -> bool {
    priority == Priority::Override || (s.can_speak && s.can_stop) || (s.can_speak && !s.playing)
}

/// A request that would reach the engine of a released channel is refused.
pub open spec fn refused(s: TTS, priority: Priority) -> bool {
    s.player == PlayerState::Released && reaches_engine(s, priority)
}

/// The channel after a speak request that was not refused.
pub open spec fn after_speak(s: TTS, text: Seq<char>, priority: Priority) -> TTS {
    if speak_calls(s, text, priority).len() == 0 {
        s
    } else {
        TTS { playing: true, player: PlayerState::Live, ..s }
    }
}

/// Whether a stop request is honoured.
pub open spec fn stop_honoured(s: TTS, force: bool) -> bool {
    force || s.can_stop
}

pub open spec fn stop_calls(s: TTS, force: bool) -> Seq<Call> {
    if stop_honoured(s, force) && s.player == PlayerState::Live {
        seq![Call::Stop]
    } else {
        Seq::empty()
    }
}

pub open spec fn after_stop(s: TTS, force: bool) -> TTS {
    if stop_honoured(s, force) {
        TTS { playing: false, ..s }
    } else {
        s
    }
}

pub open spec fn destroy_calls(s: TTS) -> Seq<Call> {
    if s.player == PlayerState::Live {
        seq![Call::Release]
    } else {
        Seq::empty()
    }
}

fn play_text(text: &str) -> (r: EngineCall)
    ensures
        r@ == Call::Play(text@),
{
    EngineCall::Play(String::from_str(text))
}

impl TTS {
    pub open spec fn new_spec() -> TTS {
        TTS { can_speak: false, can_stop: false, playing: false, player: PlayerState::Absent }
    }

    /// A closed channel: both gates shut, nothing created.
    pub fn new() -> (r: TTS)
        ensures
            r == TTS::new_spec(),
    {
        TTS { can_speak: false, can_stop: false, playing: false, player: PlayerState::Absent }
    }

    pub fn set_can_stop(&mut self, can_stop: bool)
        ensures
            *final(self) == (TTS { can_stop, ..*old(self) }),
    {
        self.can_stop = can_stop;
    }

    pub fn set_can_speak(&mut self, can_speak: bool)
        ensures
            *final(self) == (TTS { can_speak, ..*old(self) }),
    {
        self.can_speak = can_speak;
    }

    /// A request to speak `text`. An `Override` request always plays, stopping first
    /// whatever is playing. A `Normal` one is dropped silently while speaking is
    /// disabled; otherwise it interrupts in the same way when stopping is enabled,
    /// and is dropped (never queued) when something is playing and stopping is
    /// disabled. A request that would reach the engine of a released channel is
    /// refused.
    pub fn speak(&mut self, text: &str, priority: Priority) -> (r: Result<
        Vec<EngineCall>,
        TTSError,
    >)
        ensures
            r is Err <==> refused(*old(self), priority),
            r is Err ==> r->Err_0 is NotInitialized && *final(self) == *old(self),
            r is Ok ==> calls_view(r->Ok_0@) == speak_calls(*old(self), text@, priority)
                && *final(self) == after_speak(*old(self), text@, priority),
            priority == Priority::Normal && !old(self).can_speak ==> r is Ok && r->Ok_0@.len()
                == 0 && *final(self) == *old(self),
    {
        let plays = priority == Priority::Override || (self.can_speak && self.can_stop) || (
        self.can_speak && !self.playing);
        if plays && self.player == PlayerState::Released {
            return Err(TTSError::NotInitialized);
        }
        let mut calls: Vec<EngineCall> = Vec::new();
        if priority == Priority::Override || (self.can_speak && self.can_stop) {
            if self.playing {
                calls.push(EngineCall::Stop);
            }
            calls.push(play_text(text));
        } else if self.can_speak && !self.playing {
            calls.push(play_text(text));
        }
        if calls.len() > 0 {
            self.playing = true;
            self.player = PlayerState::Live;
        }
        assert(calls_view(calls@) =~= speak_calls(*old(self), text@, priority));
        Ok(calls)
    }

    /// A speak request followed, when it plays, by a wait for the end of playback.
    pub fn speak_and_wait(&mut self, text: &str, priority: Priority) -> (r: Result<
        Vec<EngineCall>,
        TTSError,
    >)
        ensures
            r is Err <==> refused(*old(self), priority),
            r is Err ==> r->Err_0 is NotInitialized && *final(self) == *old(self),
            priority == Priority::Normal && !old(self).can_speak ==> r is Ok && r->Ok_0@.len()
                == 0 && *final(self) == *old(self),
            r is Ok ==> calls_view(r->Ok_0@) == (if speak_calls(
                *old(self),
                text@,
                priority,
            ).len() == 0 {
                Seq::empty()
            } else {
                speak_calls(*old(self), text@, priority).push(Call::AwaitCompletion)
            }) && *final(self) == after_speak(*old(self), text@, priority),
    {
        let r = self.speak(text, priority);
        match r {
            Ok(mut calls) => {
                if calls.len() > 0 {
                    calls.push(EngineCall::AwaitCompletion);
                }
                assert(calls_view(calls@) =~= (if speak_calls(
                    *old(self),
                    text@,
                    priority,
                ).len() == 0 {
                    Seq::empty()
                } else {
                    speak_calls(*old(self), text@, priority).push(Call::AwaitCompletion)
                }));
                Ok(calls)
            },
            Err(e) => Err(e),
        }
    }

    /// A request to halt playback: honoured when forced or when stopping is enabled.
    /// It never waits for playback to finish.
    pub fn stop(&mut self, force: bool) -> (r: Vec<EngineCall>)
        ensures
            calls_view(r@) == stop_calls(*old(self), force),
            *final(self) == after_stop(*old(self), force),
    {
        let mut calls: Vec<EngineCall> = Vec::new();
        if force || self.can_stop {
            if self.player == PlayerState::Live {
                calls.push(EngineCall::Stop);
            }
            self.playing = false;
        }
        assert(calls_view(calls@) =~= stop_calls(*old(self), force));
        calls
    }

    /// Releases the player, if one was created, and closes the channel. Calling it
    /// again, or on a channel that never played, does nothing.
    pub fn destroy(&mut self) -> (r: Vec<EngineCall>)
        ensures
            calls_view(r@) == destroy_calls(*old(self)),
            *final(self) == (TTS { playing: false, player: PlayerState::Released, ..*old(self) }),
    {
        let mut calls: Vec<EngineCall> = Vec::new();
        if self.player == PlayerState::Live {
            calls.push(EngineCall::Release);
        }
        self.playing = false;
        self.player = PlayerState::Released;
        assert(calls_view(calls@) =~= destroy_calls(*old(self)));
        calls
    }

    /// The engine reports that the current utterance has finished.
    pub fn on_playback_finished(&mut self)
        ensures
            *final(self) == (TTS { playing: false, ..*old(self) }),
    {
        self.playing = false;
    }

    /// The engine failed on one request. Only that request is lost: the gates stay
    /// as they are and later requests are served as usual.
    pub fn on_request_failed(&mut self)
        ensures
            *final(self) == (TTS { playing: false, ..*old(self) }),
    {
        self.playing = false;
    }

    /// Whether a polled playback state means the utterance is over.
    pub fn playback_done(state: PlaybackState) -> (r: bool)
        ensures
            r <==> (state == PlaybackState::Paused || state == PlaybackState::Idle),
    {
        match state {
            PlaybackState::Paused | PlaybackState::Idle => true,
            _ => false,
        }
    }
}

} // verus!

verus! {

/// How many of `calls` start playback.
pub open spec fn play_count(calls: Seq<Call>) -> nat
    decreases calls.len(),
{
    if calls.len() == 0 {
        0
    } else {
        (if calls[0] is Play {
            1nat
        } else {
            0nat
        }) + play_count(calls.drop_first())
    }
}

/// The channel after a teardown.
pub open spec fn after_destroy(s: TTS) -> TTS {
    TTS { playing: false, player: PlayerState::Released, ..s }
}

/// A run of `Normal` requests, each met with the calls it produces.
pub open spec fn normal_requests(s: TTS, texts: Seq<Seq<char>>) -> (Seq<Call>, TTS)
    decreases texts.len(),
{
    if texts.len() == 0 {
        (Seq::empty(), s)
    } else {
        let first = speak_calls(s, texts[0], Priority::Normal);
        let next = after_speak(s, texts[0], Priority::Normal);
        let rest = normal_requests(next, texts.drop_first());
        (first + rest.0, rest.1)
    }
}

/// With speaking disabled a `Normal` request reaches the engine not at all, and an
/// `Override` request always plays exactly once.
pub proof fn lemma_gate_and_override(s: TTS, text: Seq<char>)
    ensures
        !s.can_speak ==> speak_calls(s, text, Priority::Normal).len() == 0 && !refused(
            s,
            Priority::Normal,
        ) && after_speak(s, text, Priority::Normal) == s,
        play_count(speak_calls(s, text, Priority::Override)) == 1,
{
    let c = speak_calls(s, text, Priority::Override);
    let one = seq![Call::Play(text)];
    assert(one.drop_first() =~= Seq::<Call>::empty());
    assert(play_count(one.drop_first()) == 0);
    assert(one[0] is Play);
    assert(play_count(one) == 1);
    if s.playing {
        assert(c.drop_first() =~= one);
        assert(c[0] == Call::Stop);
    }
}

/// While an utterance plays and stopping is enabled, a `Normal` request stops it
/// and then plays the new text: one stop, then one play.
pub proof fn lemma_interrupt(s: TTS, text: Seq<char>)
    requires
        s.playing,
        s.can_stop,
        s.can_speak,
    ensures
        speak_calls(s, text, Priority::Normal) == seq![Call::Stop, Call::Play(text)],
{
}

/// While an utterance plays and stopping is disabled, any number of `Normal`
/// requests reach the engine not at all and leave the channel as it was; once the
/// utterance has finished or a forced stop has come, the next one plays.
pub proof fn lemma_no_backlog(s: TTS, texts: Seq<Seq<char>>, next: Seq<char>)
    requires
        s.playing,
        !s.can_stop,
    ensures
        normal_requests(s, texts).0.len() == 0,
        normal_requests(s, texts).1 == s,
        s.can_speak ==> speak_calls(TTS { playing: false, ..s }, next, Priority::Normal)
            == seq![Call::Play(next)],
        s.can_speak ==> speak_calls(after_stop(s, true), next, Priority::Normal) == seq![
            Call::Play(next),
        ],
    decreases texts.len(),
{
    if texts.len() > 0 {
        lemma_no_backlog(s, texts.drop_first(), next);
        let r = normal_requests(s, texts);
        assert(r.0 =~= Seq::<Call>::empty() + normal_requests(s, texts.drop_first()).0);
    }
}

/// Teardown is idempotent: a second teardown, or one on a channel that never
/// created its player, asks nothing of the engine and changes nothing.
pub proof fn lemma_destroy_idempotent(s: TTS)
    ensures
        destroy_calls(after_destroy(s)).len() == 0,
        after_destroy(after_destroy(s)) == after_destroy(s),
        s.player != PlayerState::Live ==> destroy_calls(s).len() == 0,
{
}

} // verus!
