//! Stored events: what the window of a session holds.

use vstd::prelude::*;

use crate::store::event_data::{parse_event_data, EventData, EventDataError, EventDataView};
use crate::text::{duplicate_opt, Duplicate};
use crate::wire::{SessionEvent, SessionEventView, ToolEventView, ToolEventViewView};

verus! {

/// One applied session event: the wire envelope, its optional tool view and its typed
/// payload.
#[derive(Debug, PartialEq)]
pub struct StoredEvent {
    pub event: SessionEvent,
    pub view: Option<ToolEventView>,
    pub data: EventData,
}

/// What a [`StoredEvent`] stands for.
pub struct StoredEventView {
    pub event: SessionEventView,
    pub view: Option<ToolEventViewView>,
    pub data: EventDataView,
}

impl View for StoredEvent {
    type V = StoredEventView;

    open spec fn view(&self) -> StoredEventView {
        StoredEventView {
            event: self.event@,
            view: crate::text::opt_view(self.view),
            data: self.data@,
        }
    }
}

impl Duplicate for StoredEvent {
    fn duplicate(&self) -> (r: Self) {
        StoredEvent {
            event: self.event.duplicate(),
            view: duplicate_opt(&self.view),
            data: self.data.duplicate(),
        }
    }
}

impl Clone for StoredEvent {
    fn clone(&self) -> (r: Self)
        ensures
            r@ == self@,
    {
        self.duplicate()
    }
}

/// The stored form of an event: its payload parsed, or the message of the error where a
/// known type is malformed.
pub open spec fn stored_event(event: SessionEventView, view: Option<ToolEventViewView>) -> Result<
    StoredEventView,
    Seq<char>,
> {
    match crate::store::event_data::event_data(
        event.kind,
        event.data,
        event.ignorable == Some(true),
    ) {
        Ok(data) => Ok(StoredEventView { event, view, data }),
        Err(e) => Err(e),
    }
}

impl StoredEvent {
    /// Parses the payload of `event`. A known type whose payload is malformed is refused.
    pub fn try_new(event: SessionEvent, view: Option<ToolEventView>) -> (r: Result<
        Self,
        EventDataError,
    >)
        ensures
            crate::store::event_data::outcome(r) == stored_event(
                event@,
                crate::text::opt_view(view),
            ),
    {
        let ignorable = match event.ignorable {
            Some(flag) => flag,
            None => false,
        };
        let data = parse_event_data(event.kind.as_str(), &event.data, ignorable)?;
        Ok(StoredEvent { event, view, data })
    }
}

} // verus!
