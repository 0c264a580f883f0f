use vstd::prelude::*;

use crate::emitter::{
    dispatched, handlers_for, lemma_matching_push, lemma_with_id_push, lemma_without_id_push,
    matching, register, unregister, with_id, without_id, Registrations,
};
use crate::handler::EventHandler;
use vstd::map::*;

verus! {

/// Registering a handler extends the fan-out of its own payload tag by that
/// handler, placed last, and leaves the fan-out of every other tag as it
/// was.
pub proof fn lemma_register_dispatch(r: Registrations, event: Seq<char>, h: EventHandler, tag: u64)
    ensures
        dispatched(register(r, event, h), event, tag) == (if h.tag == tag {
            dispatched(r, event, tag).push(h)
        } else {
            dispatched(r, event, tag)
        }),
{
    assert(handlers_for(register(r, event, h), event) == handlers_for(r, event).push(h));
    lemma_matching_push(handlers_for(r, event), tag, h);
}

/// A sequence none of whose handlers has identity `id` restricts to nothing
/// under that identity.
proof fn lemma_with_id_absent(s: Seq<EventHandler>, id: u128)
    requires
        forall|i: int| 0 <= i < s.len() ==> s[i].id != id,
    ensures
        with_id(s, id) == Seq::<EventHandler>::empty(),
    decreases s.len(),
{
    reveal(Seq::filter);
    if s.len() > 0 {
        assert(s.drop_last().push(s.last()) =~= s);
        lemma_with_id_absent(s.drop_last(), id);
        lemma_with_id_push(s.drop_last(), id, s.last());
    }
}

/// Law: a handler registered under an event name is reached by an emission
/// of its payload tag on that name — appended to the previous fan-out, and,
/// when no handler of its identity was registered there before, reached
/// exactly once.
pub proof fn lemma_registered_handler_fires(r: Registrations, event: Seq<char>, h: EventHandler)
    requires
        forall|i: int| 0 <= i < handlers_for(r, event).len()
            ==> handlers_for(r, event)[i].id != h.id,
    ensures
        dispatched(register(r, event, h), event, h.tag) == dispatched(r, event, h.tag).push(h),
        with_id(dispatched(register(r, event, h), event, h.tag), h.id) == seq![h],
{
    broadcast use vstd::seq_lib::group_filter_ensures;
    broadcast use Seq::lemma_filter_contains_rev;

    lemma_register_dispatch(r, event, h, h.tag);
    let base = dispatched(r, event, h.tag);
    assert forall|j: int| 0 <= j < base.len() implies base[j].id != h.id by {
        assert(base.contains(base[j]));
        assert(handlers_for(r, event).contains(base[j]));
        let w = choose|w: int|
            0 <= w < handlers_for(r, event).len() && handlers_for(r, event)[w] == base[j];
        assert(handlers_for(r, event)[w].id != h.id);
    }
    lemma_with_id_absent(base, h.id);
    lemma_with_id_push(base, h.id, h);
    assert(Seq::<EventHandler>::empty().push(h) =~= seq![h]);
}

/// Law: an emission under an event name with no registrations reaches
/// nothing — whether the name was never registered under, or every handler
/// was removed again.
pub proof fn lemma_no_registrations_no_dispatch(r: Registrations, event: Seq<char>, tag: u64)
    requires
        !r.dom().contains(event) || handlers_for(r, event).len() == 0,
    ensures
        dispatched(r, event, tag) == Seq::<EventHandler>::empty(),
{
    reveal(Seq::filter);
}

/// Selecting by payload tag and removing by identity commute: the fan-out
/// of what is kept is what is kept of the fan-out.
proof fn lemma_matching_without_id_commute(s: Seq<EventHandler>, id: u128, tag: u64)
    ensures
        matching(without_id(s, id), tag) == without_id(matching(s, tag), id),
    decreases s.len(),
{
    reveal(Seq::filter);
    if s.len() > 0 {
        let rest = s.drop_last();
        let x = s.last();
        assert(rest.push(x) =~= s);
        lemma_matching_without_id_commute(rest, id, tag);
        lemma_without_id_push(rest, id, x);
        lemma_matching_push(rest, tag, x);
        lemma_matching_push(without_id(rest, id), tag, x);
        lemma_without_id_push(matching(rest, tag), id, x);
    }
}

/// Law: after removal by identity, an emission reaches no handler of that
/// identity — and reaches the remaining handlers exactly as before, in the
/// same order.
pub proof fn lemma_removed_handler_never_fires(
    r: Registrations,
    event: Seq<char>,
    id: u128,
    tag: u64,
)
    ensures
        dispatched(unregister(r, event, id), event, tag) == without_id(
            dispatched(r, event, tag),
            id,
        ),
        forall|j: int| 0 <= j < dispatched(unregister(r, event, id), event, tag).len()
            ==> dispatched(unregister(r, event, id), event, tag)[j].id != id,
{
    broadcast use vstd::seq_lib::group_filter_ensures;

    if r.dom().contains(event) {
        assert(handlers_for(unregister(r, event, id), event) == without_id(
            handlers_for(r, event),
            id,
        ));
        lemma_matching_without_id_commute(handlers_for(r, event), id, tag);
    } else {
        reveal(Seq::filter);
    }
}

/// Law: two handlers registered in turn under one event name are reached in
/// registration order by one emission their shared payload tag matches.
pub proof fn lemma_fire_in_registration_order(
    r: Registrations,
    event: Seq<char>,
    h1: EventHandler,
    h2: EventHandler,
    tag: u64,
)
    requires
        h1.tag == tag,
        h2.tag == tag,
    ensures
        dispatched(register(register(r, event, h1), event, h2), event, tag) == dispatched(
            r,
            event,
            tag,
        ).push(h1).push(h2),
{
    lemma_register_dispatch(r, event, h1, tag);
    lemma_register_dispatch(register(r, event, h1), event, h2, tag);
}

/// Law: a handler whose payload tag differs from the emitted value's tag is
/// never reached by that emission, whatever else is registered under the
/// name.
pub proof fn lemma_mismatched_handler_never_fires(
    r: Registrations,
    event: Seq<char>,
    h: EventHandler,
    tag: u64,
)
    requires
        h.tag != tag,
    ensures
        !dispatched(r, event, tag).contains(h),
{
    broadcast use vstd::seq_lib::group_filter_ensures;

    if dispatched(r, event, tag).contains(h) {
        let j = choose|j: int|
            0 <= j < dispatched(r, event, tag).len() && dispatched(r, event, tag)[j] == h;
        assert(dispatched(r, event, tag)[j].tag == tag);
    }
}

/// Law: registration and removal under one event name leave every other
/// event name's registrations untouched, and registrations under distinct
/// names reach the same registry in either order — the sequential shadow of
/// per-name independence.
pub proof fn lemma_disjoint_events_independent(
    r: Registrations,
    e1: Seq<char>,
    e2: Seq<char>,
    h1: EventHandler,
    h2: EventHandler,
)
    requires
        e1 != e2,
    ensures
        handlers_for(register(r, e1, h1), e2) == handlers_for(r, e2),
        handlers_for(unregister(r, e1, h1.id), e2) == handlers_for(r, e2),
        register(register(r, e1, h1), e2, h2) == register(register(r, e2, h2), e1, h1),
{
    assert(handlers_for(register(r, e1, h1), e2) == handlers_for(r, e2));
    assert(handlers_for(unregister(r, e1, h1.id), e2) == handlers_for(r, e2));
    assert(handlers_for(register(r, e2, h2), e1) == handlers_for(r, e1));
    assert_maps_equal!(
        register(register(r, e1, h1), e2, h2),
        register(register(r, e2, h2), e1, h1),
    );
}

} // verus!
