use aria::overlay::{Message, Overlay, OverlayTask};

#[test]
fn disabled_overlay_closes_on_request_only() {
    let mut o: Overlay<u32> = Overlay::new();
    assert_eq!(o.update(Message::EventOccurred(1, false)), OverlayTask::Nothing);
    assert_eq!(o.update(Message::EventOccurred(2, true)), OverlayTask::Close);
    assert!(o.last.is_empty());
}

#[test]
fn enabled_overlay_keeps_the_last_five_events() {
    let mut o: Overlay<u32> = Overlay::new();
    assert_eq!(o.update(Message::Toggled(true)), OverlayTask::Nothing);
    for e in 1..=7 {
        assert_eq!(o.update(Message::EventOccurred(e, e == 7)), OverlayTask::Nothing);
    }
    assert_eq!(o.last, vec![3, 4, 5, 6, 7]);
}

#[test]
fn exit_stops_and_closes() {
    let mut o: Overlay<u32> = Overlay::new();
    assert_eq!(o.update(Message::Exit), OverlayTask::StopAndClose);
}
