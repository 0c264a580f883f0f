use event_emitter::{EventEmitter, EventHandler};

const USER_ID_TAG: u64 = 1;
const TRIPLE_TAG: u64 = 10;
const PAIR_TAG: u64 = 20;

#[test]
fn register_then_emit_fires_once() {
    let mut em = EventEmitter::new();
    let h = EventHandler::new(USER_ID_TAG);
    em.on("e", &h);
    let fired = em.emit("e", USER_ID_TAG);
    assert_eq!(fired.len(), 1);
    assert!(fired[0].is_same(&h));
    assert_eq!(fired[0].tag(), USER_ID_TAG);
}

#[test]
fn emit_without_registrations_is_noop() {
    let em = EventEmitter::new();
    let fired = em.emit("nothing", 5);
    assert!(fired.is_empty());
}

#[test]
fn emit_on_other_event_name_is_noop() {
    let mut em = EventEmitter::new();
    let h = EventHandler::new(3);
    em.on("known", &h);
    let fired = em.emit("unknown", 3);
    assert!(fired.is_empty());
}

#[test]
fn off_removes_only_that_handler() {
    let mut em = EventEmitter::new();
    let h1 = EventHandler::new(4);
    let h2 = EventHandler::new(4);
    em.on("e", &h1);
    em.on("e", &h2);
    em.off("e", &h1);
    let fired = em.emit("e", 4);
    assert_eq!(fired.len(), 1);
    assert!(fired[0].is_same(&h2));
    assert!(!fired[0].is_same(&h1));
}

#[test]
fn handlers_fire_in_registration_order() {
    let mut em = EventEmitter::new();
    let h1 = EventHandler::new(4);
    let h2 = EventHandler::new(4);
    let h3 = EventHandler::new(4);
    em.on("e", &h1);
    em.on("e", &h2);
    em.on("e", &h3);
    let fired = em.emit("e", 4);
    assert_eq!(fired.len(), 3);
    assert!(fired[0].is_same(&h1));
    assert!(fired[1].is_same(&h2));
    assert!(fired[2].is_same(&h3));
}

#[test]
fn mismatched_payload_type_skipped() {
    let mut em = EventEmitter::new();
    let h_int = EventHandler::new(1);
    let h_text = EventHandler::new(2);
    em.on("e", &h_int);
    em.on("e", &h_text);
    let fired_int = em.emit("e", 1);
    assert_eq!(fired_int.len(), 1);
    assert!(fired_int[0].is_same(&h_int));
    let fired_text = em.emit("e", 2);
    assert_eq!(fired_text.len(), 1);
    assert!(fired_text[0].is_same(&h_text));
    let fired_none = em.emit("e", 3);
    assert!(fired_none.is_empty());
}

#[test]
fn login_scenario() {
    let mut em = EventEmitter::new();
    let h1 = EventHandler::new(USER_ID_TAG);
    em.on("login", &h1);
    let fired = em.emit("login", USER_ID_TAG);
    assert_eq!(fired.len(), 1);
    assert!(fired[0].is_same(&h1));
    em.off("login", &h1);
    let fired_after_off = em.emit("login", USER_ID_TAG);
    assert!(fired_after_off.is_empty());
}

#[test]
fn distinct_events_do_not_interfere() {
    let mut em = EventEmitter::new();
    let h1 = EventHandler::new(TRIPLE_TAG);
    let h2 = EventHandler::new(PAIR_TAG);
    em.on("e1", &h1);
    em.on("e2", &h2);
    let fired1 = em.emit("e1", TRIPLE_TAG);
    assert_eq!(fired1.len(), 1);
    assert!(fired1[0].is_same(&h1));
    let fired2 = em.emit("e2", PAIR_TAG);
    assert_eq!(fired2.len(), 1);
    assert!(fired2[0].is_same(&h2));
    assert!(em.emit("e1", PAIR_TAG).is_empty());
    assert!(em.emit("e2", TRIPLE_TAG).is_empty());
}

#[test]
fn duplicate_registration_fires_per_entry() {
    let mut em = EventEmitter::new();
    let h = EventHandler::new(6);
    em.on("e", &h);
    em.on("e", &h);
    let fired = em.emit("e", 6);
    assert_eq!(fired.len(), 2);
    assert!(fired[0].is_same(&h));
    assert!(fired[1].is_same(&h));
    em.off("e", &h);
    assert!(em.emit("e", 6).is_empty());
}

#[test]
fn off_on_unknown_event_is_noop() {
    let mut em = EventEmitter::new();
    let h = EventHandler::new(2);
    em.off("never-registered", &h);
    assert!(em.emit("never-registered", 2).is_empty());
}

#[test]
fn off_of_unregistered_handler_keeps_the_rest() {
    let mut em = EventEmitter::new();
    let h1 = EventHandler::new(9);
    let h2 = EventHandler::new(9);
    em.on("e", &h1);
    em.off("e", &h2);
    let fired = em.emit("e", 9);
    assert_eq!(fired.len(), 1);
    assert!(fired[0].is_same(&h1));
}

#[test]
fn clone_keeps_identity() {
    let mut em = EventEmitter::new();
    let h = EventHandler::new(8);
    let copy = h.clone();
    assert!(h.is_same(&copy));
    assert_eq!(h.id(), copy.id());
    em.on("e", &h);
    em.off("e", &copy);
    assert!(em.emit("e", 8).is_empty());
}

#[test]
fn independent_handlers_are_not_same() {
    let h1 = EventHandler::new(5);
    let h2 = EventHandler::new(5);
    assert!(!h1.is_same(&h2));
    assert_ne!(h1.id(), h2.id());
}

#[test]
fn accepts_compares_payload_tags() {
    let h = EventHandler::new(3);
    assert!(h.accepts(3));
    assert!(!h.accepts(4));
    assert_eq!(h.tag(), 3);
}
