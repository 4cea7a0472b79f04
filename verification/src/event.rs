use vstd::prelude::*;

verus! {

/// An event: an immutable value belonging to a family of concrete kinds.
///
/// The bus distinguishes events by kind only, never by value. Each event
/// value reports the identifier of its kind; two events of the same kind
/// must report the same identifier, and two different kinds must never
/// collide. With an enum of event kinds, `kind` is simply a map from
/// variant to identifier.
pub trait Event: Sized {
    /// The kind identifier of this event, as a mathematical value. The
    /// default leaves it unspecified: an implementation inside `verus!`
    /// overrides it to say which kind each event value has, while an
    /// implementation left unverified may keep the default, about which
    /// nothing is known.
    open spec fn kind_spec(&self) -> u64 {
        arbitrary()
    }

    /// The kind identifier of this event, used as the registry key.
    fn kind(&self) -> (k: u64)
        ensures
            k == self.kind_spec(),
    ;
}

/// The simplest event family: a value carrying nothing but its kind
/// number.
pub struct Signal {
    pub kind_id: u64,
}

impl Event for Signal {
    open spec fn kind_spec(&self) -> u64 {
        self.kind_id
    }

    fn kind(&self) -> u64 {
        self.kind_id
    }
}

} // verus!
