//! The event-to-spawn bridge: turns trigger events into requests for new
//! effect instances, and does nothing else.
use vstd::prelude::*;

verus! {

/// A button or control that can trigger an effect.
#[derive(Clone, Copy, Debug, PartialEq, Eq, Structural)]
pub enum Button {
    Left,
    Right,
    Middle,
    Other(u16),
}

/// A button transition.
#[derive(Clone, Copy, Debug, PartialEq, Eq, Structural)]
pub enum ButtonState {
    Pressed,
    Released,
}

/// A discrete input event.
#[derive(Clone, Copy, Debug, PartialEq, Eq, Structural)]
pub struct ButtonEvent {
    pub button: Button,
    pub state: ButtonState,
}

/// Which events trigger an effect, and of which definition.
#[derive(Clone, Copy, Debug, PartialEq, Eq, Structural)]
pub struct Trigger {
    pub button: Button,
    pub state: ButtonState,
    /// The registry index of the definition to instantiate.
    pub definition: usize,
}

/// A request to create one new instance of a registered definition.
#[derive(Clone, Copy, Debug, PartialEq, Eq, Structural)]
pub struct InstanceRequest {
    pub definition: usize,
}

pub open spec fn matches_trigger(t: Trigger, e: ButtonEvent) -> bool {
    e.button == t.button && e.state == t.state
}

/// The requests for a sequence of events, in event order.
pub open spec fn requests_spec(t: Trigger, events: Seq<ButtonEvent>) -> Seq<InstanceRequest>
    decreases events.len(),
{
    if events.len() == 0 {
        Seq::empty()
    } else {
        requests_spec(t, events.drop_last()) + if matches_trigger(t, events.last()) {
            seq![InstanceRequest { definition: t.definition }]
        } else {
            Seq::empty()
        }
    }
}

/// Every request names the trigger's definition.
pub proof fn lemma_requests_target(t: Trigger, events: Seq<ButtonEvent>)
    ensures
        forall|j: int|
            0 <= j < requests_spec(t, events).len() ==> (#[trigger] requests_spec(t, events)[j]).definition
                == t.definition,
    decreases events.len(),
{
    if events.len() > 0 {
        let init = events.drop_last();
        lemma_requests_target(t, init);
        let a = requests_spec(t, init);
        let all = requests_spec(t, events);
        assert forall|j: int| 0 <= j < all.len() implies (#[trigger] all[j]).definition == t.definition by {
            if j < a.len() {
                assert(all[j] == a[j]);
            }
        }
    }
}

impl Trigger {
    /// Triggers on a press of the left button.
    pub fn left_press(definition: usize) -> (r: Trigger)
        ensures
            r == (Trigger { button: Button::Left, state: ButtonState::Pressed, definition }),
    {
        Trigger { button: Button::Left, state: ButtonState::Pressed, definition }
    }

    /// A request for the trigger's definition when `event` matches it.
    pub fn on_trigger_event(&self, event: &ButtonEvent) -> (r: Option<InstanceRequest>)
        ensures
            r == if matches_trigger(*self, *event) {
                Some(InstanceRequest { definition: self.definition })
            } else {
                None
            },
    {
        if event.button == self.button && event.state == self.state {
            Some(InstanceRequest { definition: self.definition })
        } else {
            None
        }
    }

    /// One request per matching event, in event order.
    pub fn requests(&self, events: &Vec<ButtonEvent>) -> (r: Vec<InstanceRequest>)
        ensures
            r@ == requests_spec(*self, events@),
    {
        let mut r: Vec<InstanceRequest> = Vec::new();
        let mut i: usize = 0;
        while i < events.len()
            invariant
                i <= events@.len(),
                r@ == requests_spec(*self, events@.take(i as int)),
            decreases events@.len() - i,
        {
            assert(events@.take(i + 1).drop_last() =~= events@.take(i as int));
            match self.on_trigger_event(&events[i]) {
                Some(q) => {
                    r.push(q);
                    assert(r@ =~= requests_spec(*self, events@.take(i + 1)));
                },
                None => {
                    assert(r@ =~= requests_spec(*self, events@.take(i + 1)));
                },
            }
            i = i + 1;
        }
        assert(events@.take(i as int) =~= events@);
        r
    }
}

} // verus!
