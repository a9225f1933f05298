//! Collision events as the host reports them: two entity labels and
//! whether the overlap began or ended.

use vstd::prelude::*;
use vstd::string::*;
use crate::label::striker_label;

verus! {

/// One collision event. The two labels are in no particular order.
#[derive(Debug)]
pub struct CollisionEvent {
    pub first: String,
    pub second: String,
    pub ended: bool,
}

/// A collision event as plain text.
pub struct EventView {
    pub first: Seq<char>,
    pub second: Seq<char>,
    pub ended: bool,
}

impl View for CollisionEvent {
    type V = EventView;

    open spec fn view(&self) -> EventView {
        EventView { first: self.first@, second: self.second@, ended: self.ended }
    }
}

/// The events of a frame as plain text.
pub open spec fn event_views(events: Seq<CollisionEvent>) -> Seq<EventView> {
    events.map_values(|e: CollisionEvent| e@)
}

/// What the striker met in this event: the other label if one of the two
/// is the striker's, with the first position taking precedence.
pub open spec fn struck_name(e: EventView) -> Option<Seq<char>> {
    if e.first == striker_label() {
        Some(e.second)
    } else if e.second == striker_label() {
        Some(e.first)
    } else {
        None
    }
}

impl CollisionEvent {
    /// The event that the entities labelled `first` and `second` began to
    /// overlap or, if `ended`, ceased to.
    pub fn new(first: &str, second: &str, ended: bool) -> (e: CollisionEvent)
        ensures
            e@ == (EventView { first: first@, second: second@, ended }),
    {
        CollisionEvent { first: String::from_str(first), second: String::from_str(second), ended }
    }

    /// What the striker met in this event, if it took part at all.
    pub fn striker_target(&self) -> (other: Option<&str>)
        ensures
            other is Some <==> struck_name(self@) is Some,
            other matches Some(s) ==> struck_name(self@) == Some(s@),
    {
        let player = String::from_str("player");
        if self.first == player {
            Some(self.second.as_str())
        } else if self.second == player {
            Some(self.first.as_str())
        } else {
            None
        }
    }
}

} // verus!
