use aria::speech::{EngineCall, PlaybackState, PlayerState, Priority, TTSError, TTS};

fn open_channel() -> TTS {
    let mut t = TTS::new();
    t.set_can_speak(true);
    t.set_can_stop(true);
    t
}

fn plays(calls: &[EngineCall]) -> usize {
    calls.iter().filter(|c| matches!(c, EngineCall::Play(_))).count()
}

#[test]
fn new_channel_is_closed() {
    let t = TTS::new();
    assert!(!t.can_speak && !t.can_stop && !t.playing);
    assert_eq!(t.player, PlayerState::Absent);
}

#[test]
fn normal_request_with_speaking_disabled_reaches_no_engine() {
    let mut t = TTS::new();
    let calls = t.speak("hello", Priority::Normal).unwrap();
    assert!(calls.is_empty());
    assert_eq!(t, TTS::new());
}

#[test]
fn override_request_always_plays_once() {
    let mut t = TTS::new();
    let calls = t.speak("Welcome", Priority::Override).unwrap();
    assert_eq!(calls, vec![EngineCall::Play("Welcome".to_string())]);
    let calls = t.speak("Again", Priority::Override).unwrap();
    assert_eq!(plays(&calls), 1);
    assert_eq!(calls, vec![EngineCall::Stop, EngineCall::Play("Again".to_string())]);
}

#[test]
fn interrupt_stops_then_plays() {
    let mut t = open_channel();
    t.speak("first", Priority::Normal).unwrap();
    assert!(t.playing);
    let calls = t.speak("second", Priority::Normal).unwrap();
    assert_eq!(calls, vec![EngineCall::Stop, EngineCall::Play("second".to_string())]);
}

#[test]
fn no_backlog_while_stopping_is_disabled() {
    let mut t = open_channel();
    t.speak("first", Priority::Normal).unwrap();
    t.set_can_stop(false);
    for text in ["a", "b", "c"].iter() {
        assert!(t.speak(text, Priority::Normal).unwrap().is_empty());
    }
    t.on_playback_finished();
    assert_eq!(
        t.speak("d", Priority::Normal).unwrap(),
        vec![EngineCall::Play("d".to_string())]
    );
    assert!(t.speak("e", Priority::Normal).unwrap().is_empty());
    assert_eq!(t.stop(true), vec![EngineCall::Stop]);
    assert_eq!(
        t.speak("f", Priority::Normal).unwrap(),
        vec![EngineCall::Play("f".to_string())]
    );
}

#[test]
fn unforced_stop_needs_the_stop_gate() {
    let mut t = TTS::new();
    t.speak("x", Priority::Override).unwrap();
    assert!(t.stop(false).is_empty());
    assert!(t.playing);
    assert_eq!(t.stop(true), vec![EngineCall::Stop]);
    assert!(!t.playing);
}

#[test]
fn stop_without_player_asks_nothing() {
    let mut t = open_channel();
    assert!(t.stop(true).is_empty());
}

#[test]
fn teardown_twice_is_harmless() {
    let mut t = open_channel();
    t.speak("x", Priority::Normal).unwrap();
    assert_eq!(t.destroy(), vec![EngineCall::Release]);
    assert!(t.destroy().is_empty());
    assert_eq!(t.player, PlayerState::Released);
}

#[test]
fn teardown_without_player_is_harmless() {
    let mut t = TTS::new();
    assert!(t.destroy().is_empty());
    assert!(t.destroy().is_empty());
}

#[test]
fn released_channel_refuses_requests() {
    let mut t = open_channel();
    t.destroy();
    assert_eq!(t.speak("x", Priority::Override), Err(TTSError::NotInitialized));
}

#[test]
fn failed_request_keeps_gates() {
    let mut t = open_channel();
    t.speak("x", Priority::Normal).unwrap();
    t.on_request_failed();
    assert!(t.can_speak && t.can_stop && !t.playing);
    assert_eq!(
        t.speak("y", Priority::Normal).unwrap(),
        vec![EngineCall::Play("y".to_string())]
    );
}

#[test]
fn speak_and_wait_appends_a_wait() {
    let mut t = open_channel();
    assert_eq!(
        t.speak_and_wait("x", Priority::Normal).unwrap(),
        vec![EngineCall::Play("x".to_string()), EngineCall::AwaitCompletion]
    );
    let mut closed = TTS::new();
    assert!(closed.speak_and_wait("x", Priority::Normal).unwrap().is_empty());
}

#[test]
fn playback_done_states() {
    assert!(TTS::playback_done(PlaybackState::Paused));
    assert!(TTS::playback_done(PlaybackState::Idle));
    assert!(!TTS::playback_done(PlaybackState::Playing));
    assert!(!TTS::playback_done(PlaybackState::Opening));
    assert!(!TTS::playback_done(PlaybackState::Buffering));
}

#[test]
fn released_channel_drops_gated_requests_silently() {
    let mut t = open_channel();
    t.speak("x", Priority::Normal).unwrap();
    t.destroy();
    t.set_can_speak(false);
    t.set_can_stop(false);
    let before = t;
    assert_eq!(t.speak("y", Priority::Normal), Ok(vec![]));
    assert_eq!(t.speak_and_wait("y", Priority::Normal), Ok(vec![]));
    assert_eq!(t, before);
    assert_eq!(t.speak("z", Priority::Override), Err(TTSError::NotInitialized));
}
