use vstd::prelude::*;

verus! {

/// How many recent events the overlay keeps.
pub const KEPT_EVENTS: usize = 5;

/// A message to the overlay window.
pub enum Message<E> {
    /// A window event, and whether it asks the window to close.
    EventOccurred(E, bool),
    Toggled(bool),
    Exit,
}

/// What the window should do after a message.
#[derive(PartialEq, Eq, Structural, Clone, Copy, Debug)]
pub enum OverlayTask {
    Nothing,
    Close,
    /// Stop the narrator, then close.
    StopAndClose,
}

/// The overlay window's state: whether it records events, and the latest ones.
pub struct Overlay<E> {
    pub last: Vec<E>,
    pub enabled: bool,
}

impl<E> Overlay<E> {
    pub fn new() -> (r: Overlay<E>)
        ensures
            r.last@.len() == 0,
            !r.enabled,
    {
        Overlay { last: Vec::new(), enabled: false }
    }

    /// Handles one message. While enabled, events are recorded, the oldest dropped
    /// beyond the last five; while disabled, a close request closes the window.
    pub fn update(&mut self, message: Message<E>) -> (r: OverlayTask)
        requires
            old(self).last@.len() <= KEPT_EVENTS,
        ensures
            final(self).last@.len() <= KEPT_EVENTS,
            match message {
                Message::EventOccurred(e, close) => if old(self).enabled {
                    r == OverlayTask::Nothing && final(self).enabled && final(self).last@ == (if old(
                        self,
                    ).last@.len() == KEPT_EVENTS {
                        old(self).last@.push(e).drop_first()
                    } else {
                        old(self).last@.push(e)
                    })
                } else {
                    r == (if close {
                        OverlayTask::Close
                    } else {
                        OverlayTask::Nothing
                    }) && final(self).last@ == old(self).last@ && !final(self).enabled
                },
                Message::Toggled(on) => r == OverlayTask::Nothing && final(self).enabled == on
                    && final(self).last@ == old(self).last@,
                Message::Exit => r == OverlayTask::StopAndClose && final(self).last@ == old(
                    self,
                ).last@ && final(self).enabled == old(self).enabled,
            },
    {
        match message {
            Message::EventOccurred(e, close) => {
                if self.enabled {
                    self.last.push(e);
                    if self.last.len() > KEPT_EVENTS {
                        self.last.remove(0);
                    }
                    OverlayTask::Nothing
                } else if close {
                    OverlayTask::Close
                } else {
                    OverlayTask::Nothing
                }
            },
            Message::Toggled(on) => {
                self.enabled = on;
                OverlayTask::Nothing
            },
            Message::Exit => OverlayTask::StopAndClose,
        }
    }
}

} // verus!
