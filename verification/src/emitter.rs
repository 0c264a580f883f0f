use vstd::prelude::*;

use crate::handler::EventHandler;
use vstd::string::StringExecFns;

verus! {

/// What the registry holds, mathematically: each event name that has been
/// registered under, mapped to its handlers in registration order. A name
/// is created lazily by the first registration and then persists; removal
/// only empties its sequence.
pub type Registrations = Map<Seq<char>, Seq<EventHandler>>;

#[verifier::external_type_specification]
#[verifier::external_body]
#[verifier::reject_recursive_types(K)]
#[verifier::reject_recursive_types(V)]
#[verifier::reject_recursive_types(S)]
pub struct ExDashMap<K, V, S>(dashmap::DashMap<K, V, S>);

/// What the concurrent map holds: the handler sequence stored under each
/// event name present as a key.
pub uninterp spec fn registrations_of(m: dashmap::DashMap<String, Vec<EventHandler>>) -> Registrations;

/// Relies on `dashmap::DashMap::new`: a map that holds no keys.
#[verifier::external_body]
fn map_new() -> (m: dashmap::DashMap<String, Vec<EventHandler>>)
    ensures
        registrations_of(m) == Registrations::empty(),
{
    dashmap::DashMap::new()
}

/// Relies on `dashmap::DashMap::get`: the value stored under the key when
/// the key is present, and nothing when it is not. The stored sequence is
/// handed out as a clone.
#[verifier::external_body]
fn map_get(
    m: &dashmap::DashMap<String, Vec<EventHandler>>,
    key: &str,
) -> (r: Option<Vec<EventHandler>>)
    ensures
        r is Some <==> registrations_of(*m).dom().contains(key@),
        r matches Some(v) ==> v@ == registrations_of(*m)[key@],
{
    match m.get(key) {
        Some(entry) => Some(entry.value().clone()),
        None => None,
    }
}

/// Relies on `dashmap::DashMap::insert`: after the call the key holds
/// exactly the given value, and every other key is as it was.
#[verifier::external_body]
fn map_put(
    m: &mut dashmap::DashMap<String, Vec<EventHandler>>,
    key: String,
    value: Vec<EventHandler>,
)
    ensures
        registrations_of(*final(m)) == registrations_of(*old(m)).insert(key@, value@),
{
    m.insert(key, value);
}

/// The handlers registered under `event`: the stored sequence when the name
/// is a key, and the empty sequence when it is not.
pub open spec fn handlers_for(r: Registrations, event: Seq<char>) -> Seq<EventHandler> {
    if r.dom().contains(event) {
        r[event]
    } else {
        Seq::empty()
    }
}

/// The handlers of `s` whose payload tag is `tag`, in order: the subset one
/// emission of a `tag`-tagged value dispatches to.
pub open spec fn matching(s: Seq<EventHandler>, tag: u64) -> Seq<EventHandler> {
    s.filter(|h: EventHandler| h.tag == tag)
}

/// `s` without every handler of identity `id`, order kept.
pub open spec fn without_id(s: Seq<EventHandler>, id: u128) -> Seq<EventHandler> {
    s.filter(|h: EventHandler| h.id != id)
}

/// `s` restricted to the handlers of identity `id`, order kept.
pub open spec fn with_id(s: Seq<EventHandler>, id: u128) -> Seq<EventHandler> {
    s.filter(|h: EventHandler| h.id == id)
}

/// The registry after `on(event, h)`: `h` appended to `event`'s sequence.
pub open spec fn register(r: Registrations, event: Seq<char>, h: EventHandler) -> Registrations {
    r.insert(event, handlers_for(r, event).push(h))
}

/// The registry after `off(event, h)` for a handler of identity `id`: every
/// entry of that identity removed from `event`'s sequence; an unknown event
/// name changes nothing.
pub open spec fn unregister(r: Registrations, event: Seq<char>, id: u128) -> Registrations {
    if r.dom().contains(event) {
        r.insert(event, without_id(r[event], id))
    } else {
        r
    }
}

/// The handlers one emission of a `tag`-tagged value under `event` reaches,
/// in registration order.
pub open spec fn dispatched(r: Registrations, event: Seq<char>, tag: u64) -> Seq<EventHandler> {
    matching(handlers_for(r, event), tag)
}

/// Appending a handler extends the matching subset by it exactly when its
/// tag matches, and leaves it unchanged otherwise.
pub proof fn lemma_matching_push(s: Seq<EventHandler>, tag: u64, h: EventHandler)
    ensures
        matching(s.push(h), tag) == (if h.tag == tag {
            matching(s, tag).push(h)
        } else {
            matching(s, tag)
        }),
{
    reveal(Seq::filter);
    assert(s.push(h).drop_last() =~= s);
    assert(s.push(h).last() == h);
}

/// Appending a handler extends the removal result by it exactly when its
/// identity is not the removed one.
pub proof fn lemma_without_id_push(s: Seq<EventHandler>, id: u128, h: EventHandler)
    ensures
        without_id(s.push(h), id) == (if h.id != id {
            without_id(s, id).push(h)
        } else {
            without_id(s, id)
        }),
{
    reveal(Seq::filter);
    assert(s.push(h).drop_last() =~= s);
    assert(s.push(h).last() == h);
}

/// Appending a handler extends the identity-restricted subsequence by it
/// exactly when its identity is the restricted one.
pub proof fn lemma_with_id_push(s: Seq<EventHandler>, id: u128, h: EventHandler)
    ensures
        with_id(s.push(h), id) == (if h.id == id {
            with_id(s, id).push(h)
        } else {
            with_id(s, id)
        }),
{
    reveal(Seq::filter);
    assert(s.push(h).drop_last() =~= s);
    assert(s.push(h).last() == h);
}

/// Copies the handlers of `v` whose payload tag is `tag`, in order.
fn select_matching(v: &Vec<EventHandler>, tag: u64) -> (out: Vec<EventHandler>)
    ensures
        out@ == matching(v@, tag),
{
    let mut out: Vec<EventHandler> = Vec::new();
    let mut i: usize = 0;
    while i < v.len()
        invariant
            i <= v@.len(),
            out@ == matching(v@.subrange(0, i as int), tag),
        decreases v@.len() - i,
    {
        proof {
            lemma_matching_push(v@.subrange(0, i as int), tag, v@[i as int]);
            assert(v@.subrange(0, i as int).push(v@[i as int]) =~= v@.subrange(0, i as int + 1));
        }
        let h = v[i];
        if h.tag == tag {
            out.push(h);
        }
        i = i + 1;
    }
    proof {
        assert(v@.subrange(0, i as int) =~= v@);
    }
    out
}

/// Copies the handlers of `v` whose identity is not `id`, in order.
fn retain_other_identities(v: &Vec<EventHandler>, id: u128) -> (out: Vec<EventHandler>)
    ensures
        out@ == without_id(v@, id),
{
    let mut out: Vec<EventHandler> = Vec::new();
    let mut i: usize = 0;
    while i < v.len()
        invariant
            i <= v@.len(),
            out@ == without_id(v@.subrange(0, i as int), id),
        decreases v@.len() - i,
    {
        proof {
            lemma_without_id_push(v@.subrange(0, i as int), id, v@[i as int]);
            assert(v@.subrange(0, i as int).push(v@[i as int]) =~= v@.subrange(0, i as int + 1));
        }
        let h = v[i];
        if h.id != id {
            out.push(h);
        }
        i = i + 1;
    }
    proof {
        assert(v@.subrange(0, i as int) =~= v@);
    }
    out
}

/// The event registry: a concurrent map from event name to the handlers
/// registered under it, in registration order. Its view is the
/// `Registrations` the map holds.
pub struct EventEmitter {
    handlers: dashmap::DashMap<String, Vec<EventHandler>>,
}

impl View for EventEmitter {
    type V = Registrations;

    closed spec fn view(&self) -> Registrations {
        registrations_of(self.handlers)
    }
}

impl EventEmitter {
    /// An empty registry: no event name holds any handler.
    pub fn new() -> (r: EventEmitter)
        ensures
            r@ == Registrations::empty(),
    {
        EventEmitter { handlers: map_new() }
    }

    /// Appends `handler` to `event`'s sequence, creating the sequence on
    /// the first registration under that name. Registration always
    /// succeeds; duplicates are allowed and fan out once per entry.
    pub fn on(&mut self, event: &str, handler: &EventHandler)
        ensures
            final(self)@ == register(old(self)@, event@, *handler),
    {
        let mut current: Vec<EventHandler> = match map_get(&self.handlers, event) {
            Some(v) => v,
            None => Vec::new(),
        };
        current.push(*handler);
        proof {
            assert(current@ == handlers_for(old(self)@, event@).push(*handler));
        }
        map_put(&mut self.handlers, String::from_str(event), current);
    }

    /// Removes every handler of `handler`'s identity from `event`'s
    /// sequence, keeping the order of the rest. An unknown event name, or a
    /// handler that was never registered there, is a silent no-op.
    pub fn off(&mut self, event: &str, handler: &EventHandler)
        ensures
            final(self)@ == unregister(old(self)@, event@, handler.id),
    {
        match map_get(&self.handlers, event) {
            Some(v) => {
                let kept = retain_other_identities(&v, handler.id);
                map_put(&mut self.handlers, String::from_str(event), kept);
            },
            None => {},
        }
    }

    /// The fan-out of one emission: the handlers registered under `event`
    /// whose payload tag is `payload_tag`, in registration order. An
    /// unknown event name, or one with no matching handler, yields the
    /// empty fan-out — a silent no-op, not an error. The registry is not
    /// changed by an emission.
    pub fn emit(&self, event: &str, payload_tag: u64) -> (fired: Vec<EventHandler>)
        ensures
            fired@ == dispatched(self@, event@, payload_tag),
    {
        match map_get(&self.handlers, event) {
            Some(v) => select_matching(&v, payload_tag),
            None => {
                proof {
                    reveal(Seq::filter);
                }
                Vec::new()
            },
        }
    }
}

} // verus!
