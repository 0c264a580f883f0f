use vstd::prelude::*;

verus! {

/// The registry's description of one registered callback: a stable identity
/// token and the tag of the payload type the callback accepts.
///
/// The identity is drawn once, at construction, and shared by every copy of
/// the handler, so removal by identity (`EventEmitter::off`) reaches each
/// registration made from any copy of one handler. The payload tag stands
/// for the concrete payload type the callback was built for; dispatch
/// compares it with the emitted value's tag and skips the handler on a
/// mismatch.
#[derive(Clone, Copy, PartialEq, Eq, Structural, Debug)]
pub struct EventHandler {
    /// The stable identity token: equal on every copy of one handler,
    /// and intended to differ between independently constructed handlers.
    pub id: u128,
    /// The tag of the payload type this handler's callback accepts.
    pub tag: u64,
}

/// Relies on `uuid::Uuid::new_v4` for a freshly drawn random identity token
/// (here read as its 128-bit value). The value is random: nothing is
/// promised of it, and two draws may in principle coincide.
#[verifier::external_body]
fn fresh_identity() -> u128 {
    uuid::Uuid::new_v4().as_u128()
}

impl EventHandler {
    /// A handler description for a callback accepting the payload type
    /// tagged `tag`, under a freshly drawn identity.
    pub fn new(tag: u64) -> (h: EventHandler)
        ensures
            h.tag == tag,
    {
        EventHandler { id: fresh_identity(), tag }
    }

    /// The stable identity token.
    pub fn id(&self) -> (r: u128)
        ensures
            r == self.id,
    {
        self.id
    }

    /// The payload tag this handler accepts.
    pub fn tag(&self) -> (r: u64)
        ensures
            r == self.tag,
    {
        self.tag
    }

    /// Whether `other` is the same registration target: identity equality,
    /// the test `EventEmitter::off` removes by.
    pub fn is_same(&self, other: &EventHandler) -> (r: bool)
        ensures
            r == (self.id == other.id),
    {
        self.id == other.id
    }

    /// The runtime type check of one dispatch: whether a value tagged
    /// `payload_tag` is of the payload type this handler accepts. A
    /// mismatch makes the dispatch skip the handler, silently.
    pub fn accepts(&self, payload_tag: u64) -> (r: bool)
        ensures
            r == (self.tag == payload_tag),
    {
        self.tag == payload_tag
    }
}

} // verus!
