//! Type-identified events and the registry that routes each event to the
//! handlers registered for its concrete type.
//!
//! An event's identity is its concrete type, not its value.  The engine
//! carries events as records: a numeric code standing for the concrete type,
//! and that type's static name.  Routing looks the code up in a registry and
//! yields exactly the handlers registered for it, nothing else; an event
//! whose code nobody registered for is reported as unrouted, not silently
//! dropped.

use vstd::prelude::*;

verus! {

/// Identifies one handler instance held by the embedding runtime.
pub type HandlerId = usize;

/// The capability of a unit of state change produced during a tick: it names
/// its concrete type.  Implementations must return the same code from every
/// value of one type, and distinct codes for distinct types.
pub trait Event {
    /// The code standing for the concrete type of this event.
    fn type_code(&self) -> u64;

    /// The static name of the concrete type of this event.
    fn get_name(&self) -> &'static str;
}

/// The capability of handling events of one concrete type.
pub trait EventHandler<E: Event> {
    /// Called once for each routed event of type `E`.
    fn handle(&self, event: &E);
}

/// One queued event: the code of its concrete type and that type's name.
#[derive(Clone, Copy, Debug)]
pub struct EventRecord {
    /// Code standing for the event's concrete type.
    pub type_code: u64,
    /// Static name of the event's concrete type.
    pub name: &'static str,
}

impl EventRecord {
    /// Builds the record of an event of the given type.
    pub fn new(type_code: u64, name: &'static str) -> (r: EventRecord)
        ensures
            r.type_code == type_code,
            r.name == name,
    {
        EventRecord { type_code, name }
    }
}

impl Event for EventRecord {
    fn type_code(&self) -> u64 {
        self.type_code
    }

    fn get_name(&self) -> &'static str {
        self.name
    }
}

/// The handlers among the registrations `s` that were registered for `code`,
/// in registration order.
pub open spec fn registrations_for(s: Seq<(u64, HandlerId)>, code: u64) -> Seq<HandlerId>
    decreases s.len(),
{
    if s.len() == 0 {
        Seq::empty()
    } else {
        let rest = registrations_for(s.drop_last(), code);
        if s.last().0 == code {
            rest.push(s.last().1)
        } else {
            rest
        }
    }
}

/// Maps event-type codes to the ordered list of handlers registered for
/// that type.  Built once at startup; immutable during the run.
pub struct EventRegistry {
    registrations: Vec<(u64, HandlerId)>,
}

impl EventRegistry {
    /// The handlers registered for the given type code, in registration
    /// order; empty if none registered.
    pub closed spec fn handlers_of(self, code: u64) -> Seq<HandlerId> {
        registrations_for(self.registrations@, code)
    }

    /// An empty registry: no handlers for any type.
    pub fn new() -> (r: EventRegistry)
        ensures
            forall|code: u64| r.handlers_of(code) =~= Seq::<HandlerId>::empty(),
    {
        EventRegistry { registrations: Vec::new() }
    }

    /// Appends a handler to the list registered for the given type code; the
    /// lists of all other codes are untouched.
    pub fn register(&mut self, type_code: u64, handler: HandlerId)
        ensures
            final(self).handlers_of(type_code) =~= old(self).handlers_of(type_code).push(handler),
            forall|c: u64|
                c != type_code ==> final(self).handlers_of(c) =~= old(self).handlers_of(c),
    {
        let ghost pre = self.registrations@;
        self.registrations.push((type_code, handler));
        proof {
            assert(self.registrations@.drop_last() =~= pre);
        }
    }

    /// The handlers registered for the given type code, as a fresh list, in
    /// registration order; empty if none registered.
    pub fn handlers_for(&self, type_code: u64) -> (r: Vec<HandlerId>)
        ensures
            r@ =~= self.handlers_of(type_code),
    {
        let mut r: Vec<HandlerId> = Vec::new();
        let mut i: usize = 0;
        while i < self.registrations.len()
            invariant
                i <= self.registrations.len(),
                r@ =~= registrations_for(self.registrations@.take(i as int), type_code),
            decreases self.registrations.len() - i,
        {
            let entry = self.registrations[i];
            if entry.0 == type_code {
                r.push(entry.1);
            }
            proof {
                assert(self.registrations@.take(i + 1).drop_last() =~= self.registrations@.take(
                    i as int,
                ));
                assert(self.registrations@.take(i + 1).last() == self.registrations@[i as int]);
            }
            i = i + 1;
        }
        proof {
            assert(self.registrations@.take(self.registrations@.len() as int)
                =~= self.registrations@);
        }
        r
    }
}

} // verus!
