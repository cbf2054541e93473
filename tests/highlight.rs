use aria::highlight::{find_monitor_for_rect, FocusHighlighter, HighlightQueue, LocalRect, MonitorInfo, Rect};

fn mon(x: i32, y: i32, width: i32, height: i32) -> MonitorInfo {
    MonitorInfo { x, y, width, height }
}

fn rect(left: i32, top: i32, right: i32, bottom: i32) -> Rect {
    Rect { left, top, right, bottom }
}

#[test]
fn lib_new_has_no_rect() {
    let hl = FocusHighlighter::new();
    assert!(hl.target_rect().is_none());
}

#[test]
fn monitor_holding_the_centre_wins() {
    let ms = vec![mon(0, 0, 1920, 1080), mon(1920, 0, 1280, 1024)];
    assert_eq!(find_monitor_for_rect(rect(2000, 10, 2100, 50), &ms), Some(ms[1]));
    assert_eq!(find_monitor_for_rect(rect(10, 10, 50, 50), &ms), Some(ms[0]));
}

#[test]
fn right_edge_belongs_to_the_next_monitor() {
    let ms = vec![mon(0, 0, 100, 100), mon(100, 0, 100, 100)];
    assert_eq!(find_monitor_for_rect(rect(90, 10, 110, 20), &ms), Some(ms[1]));
}

#[test]
fn largest_overlap_when_no_centre_match() {
    let ms = vec![mon(0, 0, 100, 100), mon(0, 200, 100, 100)];
    // centre (50, 150) lies between the two; 10 rows overlap the first, 40 the second.
    assert_eq!(find_monitor_for_rect(rect(0, 90, 100, 240), &ms), Some(ms[1]));
}

#[test]
fn no_monitor_when_nothing_overlaps() {
    let ms = vec![mon(0, 0, 100, 100)];
    assert_eq!(find_monitor_for_rect(rect(500, 500, 600, 600), &ms), None);
    assert_eq!(find_monitor_for_rect(rect(0, 0, 10, 10), &vec![]), None);
}

#[test]
fn queue_drops_the_oldest_when_full() {
    let mut q = HighlightQueue::new(2);
    q.publish(Some(rect(0, 0, 1, 1)));
    q.publish(Some(rect(0, 0, 2, 2)));
    q.publish(None);
    assert_eq!(q.len(), 2);
    assert_eq!(q.try_recv(), Some(Some(rect(0, 0, 2, 2))));
    assert_eq!(q.try_recv(), Some(None));
    assert_eq!(q.try_recv(), None);
    assert!(q.is_empty());
}

#[test]
fn receive_moves_to_a_new_monitor_once() {
    let ms = vec![mon(0, 0, 100, 100), mon(100, 0, 100, 100)];
    let mut hl = FocusHighlighter::new();
    hl.initialize(Some(ms[0]));
    assert_eq!(hl.receive(Some(rect(10, 10, 20, 20)), 5, &ms), None);
    assert_eq!(hl.receive(Some(rect(150, 10, 160, 20)), 6, &ms), Some(ms[1]));
    assert_eq!(hl.receive(Some(rect(170, 10, 180, 20)), 7, &ms), None);
    assert_eq!(
        hl.adjusted_rect(),
        Some(LocalRect { left: 70, top: 10, right: 80, bottom: 20 })
    );
    assert_eq!(hl.receive(None, 8, &ms), None);
    assert!(hl.target_rect().is_none());
    assert_eq!(hl.adjusted_rect(), None);
}

#[test]
fn frame_delay_by_idleness() {
    let mut hl = FocusHighlighter::new();
    assert_eq!(hl.frame_delay_ms(0, true), 0);
    assert_eq!(hl.frame_delay_ms(0, false), 100);
    hl.receive(Some(rect(0, 0, 1, 1)), 1000, &vec![]);
    assert_eq!(hl.frame_delay_ms(1050, false), 16);
    assert_eq!(hl.frame_delay_ms(1100, false), 33);
    assert_eq!(hl.frame_delay_ms(1999, false), 33);
    assert_eq!(hl.frame_delay_ms(2000, false), 100);
}

#[test]
fn new_has_no_rect() {
    let hl = FocusHighlighter::new();
    assert!(hl.target_rect.is_none());
    assert!(hl.adjusted_rect().is_none());
}
