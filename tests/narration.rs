use aria::dedup::{ElementId, FocusDeduplicator};
use aria::driver::{on_keypress, Action, ControlType, Cue, FocusEvent, WindowsDriver};
use aria::highlight::Rect;
use aria::speech::{EngineCall, PlayerState};

fn focus(name: &str, help: &str, role: &str, control_type: ControlType) -> FocusEvent {
    FocusEvent {
        name: name.to_string(),
        help_text: help.to_string(),
        role: role.to_string(),
        control_type,
        rect: None,
    }
}

fn spoken(actions: &[Action]) -> Vec<String> {
    actions
        .iter()
        .filter_map(|a| match a {
            Action::Engine(EngineCall::Play(t)) => Some(t.clone()),
            _ => None,
        })
        .collect()
}

fn engine_calls(actions: &[Action]) -> usize {
    actions.iter().filter(|a| matches!(a, Action::Engine(_))).count()
}

fn id(parts: &[i32]) -> ElementId {
    ElementId::new(parts.to_vec())
}

#[test]
fn repeated_identity_runs_emit_once() {
    let mut d = FocusDeduplicator::new();
    let seq = [&[1, 2][..], &[1, 2], &[1, 2], &[3], &[3], &[1, 2]];
    let emitted: Vec<bool> = seq.iter().map(|p| d.offer(id(p))).collect();
    assert_eq!(emitted, vec![true, false, false, true, false, true]);
}

#[test]
fn same_identity_with_new_help_text_is_a_duplicate() {
    let mut d = FocusDeduplicator::new();
    let mut drv = WindowsDriver::new(false);
    drv.activate();
    assert!(d.offer(id(&[42, 7])));
    let first = drv.on_focus(&focus("Name", "first help", "Edit", ControlType::Edit));
    assert_eq!(spoken(&first), vec!["Name, first help, Edit".to_string()]);
    assert!(!d.offer(id(&[42, 7])));
}

#[test]
fn identities_of_different_length_differ() {
    assert!(!id(&[1, 2]).same_as(&id(&[1, 2, 3])));
    assert!(id(&[]).same_as(&id(&[])));
}

#[test]
fn input_focus_scenario() {
    let mut drv = WindowsDriver::new(false);
    drv.activate();
    let a = drv.on_focus(&focus("Search", "", "Edit", ControlType::Edit));
    assert_eq!(
        a,
        vec![
            Action::PlayCue(Cue::InputFocused),
            Action::Engine(EngineCall::Play("Search, Edit".to_string())),
        ]
    );
    assert!(drv.input_focused);
    let k = on_keypress(&mut drv, "a");
    assert_eq!(spoken(&k), vec!["a".to_string()]);
    let b = drv.on_focus(&focus("OK", "", "Button", ControlType::Other));
    assert_eq!(spoken(&b), vec!["OK, Button".to_string()]);
    assert!(!drv.input_focused);
    let k = on_keypress(&mut drv, "a");
    assert!(k.is_empty());
}

#[test]
fn focus_while_gates_closed_is_silent_until_activate() {
    let mut drv = WindowsDriver::new(false);
    let a = drv.on_focus(&focus("File", "", "Menu item", ControlType::Other));
    assert_eq!(engine_calls(&a), 0);
    drv.activate();
    let b = drv.on_focus(&focus("Edit", "", "Menu item", ControlType::Other));
    assert_eq!(engine_calls(&b), 1);
    assert_eq!(spoken(&b), vec!["Edit, Menu item".to_string()]);
}

#[test]
fn combo_box_counts_as_input() {
    let mut drv = WindowsDriver::new(false);
    drv.activate();
    drv.on_focus(&focus("Country", "", "Combo box", ControlType::ComboBox));
    assert!(drv.input_focused);
}

#[test]
fn overlay_gets_the_rectangle() {
    let mut drv = WindowsDriver::new(true);
    drv.activate();
    let mut ev = focus("OK", "", "Button", ControlType::Other);
    let r = Rect { left: 1, top: 2, right: 30, bottom: 40 };
    ev.rect = Some(r);
    let a = drv.on_focus(&ev);
    assert_eq!(a[0], Action::Publish(Some(r)));
}

#[test]
fn withheld_keys_are_silent() {
    let mut drv = WindowsDriver::new(false);
    drv.activate();
    drv.on_focus(&focus("Search", "", "Edit", ControlType::Edit));
    for key in ["Enter", "LeftControl", "RightControl", "C"].iter() {
        assert!(on_keypress(&mut drv, key).is_empty());
    }
}

#[test]
fn escape_forces_a_stop() {
    let mut drv = WindowsDriver::new(false);
    drv.start(true).unwrap();
    assert!(drv.tts.playing);
    let a = on_keypress(&mut drv, "Escape");
    assert_eq!(a, vec![Action::Engine(EngineCall::Stop)]);
    assert!(!drv.tts.playing);
}

#[test]
fn start_plan_with_sounds() {
    let mut drv = WindowsDriver::new(false);
    let plan = drv.start(true).unwrap();
    assert_eq!(
        plan,
        vec![
            Action::PlayCue(Cue::Startup),
            Action::Sleep(3000),
            Action::Engine(EngineCall::Play("Welcome to Aria.".to_string())),
            Action::Sleep(1000),
            Action::RegisterListeners,
            Action::Activate,
        ]
    );
    assert!(!drv.tts.can_speak && !drv.tts.can_stop);
    drv.activate();
    assert!(drv.tts.can_speak && drv.tts.can_stop);
}

#[test]
fn start_plan_without_sounds() {
    let mut drv = WindowsDriver::new(false);
    assert_eq!(drv.start(false).unwrap(), vec![Action::RegisterListeners, Action::Activate]);
}

#[test]
fn stop_plan() {
    let mut drv = WindowsDriver::new(true);
    drv.start(false).unwrap();
    drv.activate();
    drv.on_focus(&focus("OK", "", "Button", ControlType::Other));
    let plan = drv.stop(true).unwrap();
    assert_eq!(
        plan,
        vec![
            Action::Engine(EngineCall::Stop),
            Action::Engine(EngineCall::Play("Aria shutting down.".to_string())),
            Action::Engine(EngineCall::AwaitCompletion),
            Action::Engine(EngineCall::Release),
            Action::PlayCue(Cue::Shutdown),
            Action::Sleep(2000),
            Action::Publish(None),
        ]
    );
    assert!(!drv.tts.can_speak && !drv.tts.can_stop);
    assert_eq!(drv.tts.player, PlayerState::Released);
    assert!(drv.stop(true).is_err());
}

#[test]
fn offer_all_matches_repeated_offers() {
    let mut d = FocusDeduplicator::new();
    assert!(d.offer(id(&[9])));
    let flags = d.offer_all(vec![id(&[9]), id(&[9]), id(&[4]), id(&[4]), id(&[9])]);
    assert_eq!(flags, vec![false, false, true, false, true]);
    assert!(!d.offer(id(&[9])));
    assert!(d.offer_all(vec![]).is_empty());
}
