use tunnel_core::actor::{Actor, ActorAction, ActorMessage};
use tunnel_core::session::{session_step, SessionEvent, SessionState};
use tunnel_core::query_types::{NameQuery, QType};
use tunnel_core::result_cache::ResultCache;

#[test]
fn it_works() {
}

#[test]
fn name_query_equality() {
    let a = NameQuery::a_record("z.cn");
    let b = NameQuery::a_record("z.cn");
    let c = NameQuery::a_record("baidu.com");
    assert!(a == b);
    assert!(a != c);
    assert_eq!(a.q_type, QType::A);
    assert_eq!(a.name, "z.cn");
}

/// Five subscriptions split across two keys trigger exactly two launches —
/// one per distinct key — and every subscriber is handed back on completion.
#[test]
fn coalescing_two_keys() {
    let mut cache: ResultCache<u32> = ResultCache::new();
    let k1 = NameQuery::a_record("z.cn");
    let k2 = NameQuery::a_record("baidu.com");

    let mut launches = 0;
    for (i, key) in [&k1, &k2, &k1, &k2, &k1].iter().enumerate() {
        if cache.subscribe(key.duplicate(), i as u32) {
            launches += 1;
        }
    }
    assert_eq!(launches, 2);

    // completion hands every waiter of a key back exactly once, in order
    let w1 = cache.notify(&k1);
    assert_eq!(w1, vec![0, 2, 4]);
    let w2 = cache.notify(&k2);
    assert_eq!(w2, vec![1, 3]);

    // nothing is left behind
    assert_eq!(cache.notify(&k1), Vec::<u32>::new());
}

/// Two sequential, non-overlapping subscriptions for one key each launch
/// their own resolution: nothing is cached past the completion.
#[test]
fn no_post_resolution_caching() {
    let mut cache: ResultCache<u32> = ResultCache::new();
    let key = NameQuery::a_record("z.cn");

    assert!(cache.subscribe(key.duplicate(), 1));
    assert_eq!(cache.notify(&key), vec![1]);

    // the second round launches again
    assert!(cache.subscribe(key.duplicate(), 2));
    assert_eq!(cache.notify(&key), vec![2]);
}

#[test]
fn notify_unknown_key_is_a_no_op() {
    let mut cache: ResultCache<u32> = ResultCache::new();
    let key = NameQuery::a_record("nowhere.test");
    assert_eq!(cache.notify(&key), Vec::<u32>::new());
}

#[test]
fn actor_coalesces_and_delivers() {
    let mut actor: Actor<u32> = Actor::new();
    let key = NameQuery::a_record("z.cn");

    // the first query launches the single resolution task
    let a1 = actor.handle_message(ActorMessage::Query {
        name_query: key.duplicate(),
        responder: 10,
    });
    match a1 {
        ActorAction::Launch { name_query } => assert_eq!(name_query.name, "z.cn"),
        _ => panic!("first query must launch"),
    }

    // a concurrent query for the same key joins the pending entry
    let a2 = actor.handle_message(ActorMessage::Query {
        name_query: key.duplicate(),
        responder: 20,
    });
    assert!(matches!(a2, ActorAction::Wait));

    // the completion delivers the one result to both waiters, in order
    let a3 = actor.handle_message(ActorMessage::Notify {
        name_query: key.duplicate(),
        result: Some([1, 2, 3, 4]),
    });
    match a3 {
        ActorAction::Deliver { waiters, result } => {
            assert_eq!(waiters, vec![10, 20]);
            assert_eq!(result, Some([1, 2, 3, 4]));
        },
        _ => panic!("completion must deliver"),
    }

    // a later query launches afresh
    let a4 = actor.handle_message(ActorMessage::Query {
        name_query: key.duplicate(),
        responder: 30,
    });
    assert!(matches!(a4, ActorAction::Launch { .. }));
}

#[test]
fn deliver_all_completes_every_waiter_once() {
    let (s1, mut r1) = tokio::sync::oneshot::channel();
    let (s2, mut r2) = tokio::sync::oneshot::channel();
    tunnel_core::delivery::deliver_all(vec![s1, s2], Some([1, 2, 3, 4]));
    assert_eq!(r1.try_recv().unwrap(), Some([1, 2, 3, 4]));
    assert_eq!(r2.try_recv().unwrap(), Some([1, 2, 3, 4]));
    // a second look finds the channel closed, never a second result
    assert!(r1.try_recv().is_err());
}

#[test]
fn deliver_all_tolerates_abandoned_waiters() {
    let (s1, r1) = tokio::sync::oneshot::channel::<Option<[u8; 4]>>();
    let (s2, mut r2) = tokio::sync::oneshot::channel();
    drop(r1);
    tunnel_core::delivery::deliver_all(vec![s1, s2], None);
    assert_eq!(r2.try_recv().unwrap(), None);
}

#[test]
fn session_lifecycle() {
    let mut s = SessionState::Listening;
    s = session_step(s, SessionEvent::AcceptSucceeded);
    assert_eq!(s, SessionState::Accepted);
    s = session_step(s, SessionEvent::HandshakeStarted);
    assert_eq!(s, SessionState::HandshakeInFlight);
    s = session_step(s, SessionEvent::HandshakeSucceeded);
    assert_eq!(s, SessionState::Relaying);
    s = session_step(s, SessionEvent::PumpsFinished);
    assert_eq!(s, SessionState::Closed);
}

#[test]
fn session_failed_accept_keeps_listening() {
    assert_eq!(
        session_step(SessionState::Listening, SessionEvent::AcceptFailed),
        SessionState::Listening
    );
}

#[test]
fn session_failed_handshake_closes() {
    assert_eq!(
        session_step(SessionState::HandshakeInFlight, SessionEvent::HandshakeFailed),
        SessionState::Closed
    );
}

#[test]
fn session_closed_is_terminal() {
    let events = [
        SessionEvent::AcceptSucceeded,
        SessionEvent::AcceptFailed,
        SessionEvent::HandshakeStarted,
        SessionEvent::HandshakeSucceeded,
        SessionEvent::HandshakeFailed,
        SessionEvent::PumpsFinished,
    ];
    for e in events {
        assert_eq!(session_step(SessionState::Closed, e), SessionState::Closed);
    }
}
