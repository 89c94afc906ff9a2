use points_store::engine::CoordinationStart;
use points_store::error::StoreError;
use points_store::message::{client_reply_byte, Message};
use points_store::order::{Order, OrderAction};
use points_store::storage::{
    ping_cycle_outcome, spread_connect_to, ConnectRequest, PointStorage, SyncRequest,
};
use points_store::transaction::{
    count_votes, decide, state_to_byte, Transaction, TransactionAction, TransactionState, TxOk,
};

fn tx(coordinator: &str, timestamp: u128, client_id: u16, action: TransactionAction, points: usize) -> Transaction {
    Transaction { coordinator: coordinator.to_string(), timestamp, client_id, action, points }
}

fn fill(storage: &mut PointStorage, client_id: u16, points: usize) {
    let msg = Message::CommitOrder(Order::new(client_id, OrderAction::FillPoints(points)));
    match storage.coordinate_msg(&msg) {
        Ok(CoordinationStart::Done(TxOk::Finalized)) => {},
        other => panic!("fill did not finalize: {:?}", other),
    }
}

fn points_at(storage: &PointStorage, client_id: u16) -> (usize, usize) {
    match storage.points.get(client_id) {
        Some(rec) => (rec.points.0, rec.points.1),
        None => (0, 0),
    }
}

#[test]
fn single_server_fill_and_use_finalize_locally() {
    let mut s = PointStorage::new("localhost:9000".to_string());
    fill(&mut s, 2, 50);
    assert_eq!(points_at(&s, 2), (50, 0));

    let lock = Message::LockOrder(Order::new(2, OrderAction::UsePoints(5)));
    match s.coordinate_msg(&lock) {
        Ok(CoordinationStart::Done(TxOk::Finalized)) => {},
        other => panic!("lock did not finalize: {:?}", other),
    }
    assert_eq!(points_at(&s, 2), (45, 5));

    let commit = Message::CommitOrder(Order::new(2, OrderAction::UsePoints(5)));
    match s.coordinate_msg(&commit) {
        Ok(CoordinationStart::Done(TxOk::Finalized)) => {},
        other => panic!("consume did not finalize: {:?}", other),
    }
    assert_eq!(points_at(&s, 2), (45, 0));
}

#[test]
fn rejected_lock_answers_zero_and_committed_lock_answers_one() {
    let mut s = PointStorage::new("localhost:9000".to_string());
    // nothing available yet: the lock is refused locally
    let lock = Message::LockOrder(Order::new(1, OrderAction::UsePoints(5)));
    let refused = s.coordinate_msg(&lock);
    assert!(matches!(refused, Err(StoreError::LockInsufficient)));
    assert_eq!(client_reply_byte(refused.is_ok()), 0);

    fill(&mut s, 1, 25);
    let granted = s.coordinate_msg(&lock);
    assert!(granted.is_ok());
    assert_eq!(client_reply_byte(granted.is_ok()), 1);
    assert_eq!(points_at(&s, 1), (20, 5));
}

#[test]
fn peer_abort_surfaces_a_lock_and_parks_anything_else() {
    let mut s = PointStorage::new("a:1".to_string());
    s.install_servers(vec!["a:1".to_string(), "b:2".to_string()]);
    fill_directly(&mut s, 1, 25);

    // the coordinator hands back the prepare fan-out
    let lock = Message::LockOrder(Order::new(1, OrderAction::UsePoints(5)));
    let t = match s.coordinate_msg(&lock) {
        Ok(CoordinationStart::Prepare(t, peers)) => {
            assert_eq!(peers, vec!["b:2".to_string()]);
            t
        },
        other => panic!("expected a prepare fan-out: {:?}", other),
    };

    // one peer refused: the lock aborts and the client hears of it
    let (votes_p, votes_a) = count_votes(&vec![TransactionState::Abort]);
    let state = decide(votes_p, votes_a, 1);
    assert_eq!(state, TransactionState::Abort);
    let (result, resync) = s.finish_coordination(&t, state);
    assert!(matches!(result, Err(StoreError::TransactionAborted)));
    assert!(!resync);
    assert_eq!(points_at(&s, 1), (25, 0));
    assert_eq!(s.pending.len(), 0);

    // an aborted fill parks in the pending queue instead
    let fill_tx = tx("a:1", 9, 1, TransactionAction::Add, 10);
    let (result, _) = s.finish_coordination(&fill_tx, TransactionState::Abort);
    assert!(matches!(result, Ok(TxOk::Pending)));
    assert_eq!(s.pending.len(), 1);
    assert_eq!(points_at(&s, 1), (25, 0));
}

fn fill_directly(storage: &mut PointStorage, client_id: u16, points: usize) {
    let t = tx(&storage.self_address.clone(), 1, client_id, TransactionAction::Add, points);
    storage.points.apply_tx(&t);
}

#[test]
fn committed_prepare_applies_on_both_sides() {
    // coordinator a, participant b
    let mut a = PointStorage::new("a:1".to_string());
    a.install_servers(vec!["a:1".to_string(), "b:2".to_string()]);
    let mut b = PointStorage::new("b:2".to_string());
    b.install_servers(vec!["a:1".to_string(), "b:2".to_string()]);
    fill_directly(&mut a, 1, 25);
    fill_directly(&mut b, 1, 25);

    let lock = Message::LockOrder(Order::new(1, OrderAction::UsePoints(5)));
    let t = match a.coordinate_msg(&lock) {
        Ok(CoordinationStart::Prepare(t, _)) => t,
        other => panic!("expected a prepare fan-out: {:?}", other),
    };

    // b votes, waits for the commit byte, applies
    let vote = b.handle_transaction(&t).unwrap();
    assert!(vote);
    let (p, ab) = count_votes(&vec![if vote {
        TransactionState::Proceed
    } else {
        TransactionState::Abort
    }]);
    let state = decide(p, ab, 1);
    assert_eq!(state, TransactionState::Proceed);
    b.commit_transaction(&t, 1).unwrap();

    let (result, _) = a.finish_coordination(&t, state);
    assert!(matches!(result, Ok(TxOk::Finalized)));
    assert_eq!(points_at(&a, 1), (20, 5));
    assert_eq!(points_at(&b, 1), (20, 5));
}

#[test]
fn participant_discards_without_the_commit_byte() {
    let mut b = PointStorage::new("b:2".to_string());
    fill_directly(&mut b, 1, 25);
    let t = tx("a:1", 5, 1, TransactionAction::Lock, 5);
    assert!(b.handle_transaction(&t).unwrap());
    // the commit window closes with an abort byte (or a timeout)
    assert!(matches!(b.commit_transaction(&t, 2), Err(StoreError::TransactionAborted)));
    assert_eq!(points_at(&b, 1), (25, 0));
    // the record is released: a later transaction passes arbitration
    let t2 = tx("c:3", 6, 1, TransactionAction::Lock, 5);
    assert!(b.handle_transaction(&t2).unwrap());
}

#[test]
fn crossing_locks_never_both_commit() {
    // each server already arbitrates its own transaction on client 1
    let ta = tx("a:1", 5, 1, TransactionAction::Lock, 5);
    let tb = tx("b:2", 6, 1, TransactionAction::Lock, 5);

    let mut a = PointStorage::new("a:1".to_string());
    let mut b = PointStorage::new("b:2".to_string());
    fill_directly(&mut a, 1, 25);
    fill_directly(&mut b, 1, 25);

    // each side's prepare reaches the other first
    assert!(a.handle_transaction(&ta).unwrap());
    assert!(b.handle_transaction(&tb).unwrap());

    // now the crossing prepares arrive: both are refused — in
    // particular the younger (tb) dies rather than commit over ta
    assert!(!a.handle_transaction(&tb).unwrap());
    assert!(!b.handle_transaction(&ta).unwrap());
}

/// Runs one full coordination round between a coordinator and a single
/// participant, moving the votes and the decision byte by hand.
fn two_party_round(
    a: &mut PointStorage,
    b: &mut PointStorage,
    msg: &Message,
) -> Result<TxOk, StoreError> {
    match a.coordinate_msg(msg) {
        Ok(CoordinationStart::Prepare(t, _peers)) => {
            let vote = match b.handle_transaction(&t) {
                Ok(v) => v,
                Err(_) => false,
            };
            let (proceed, abort) = count_votes(&vec![if vote {
                TransactionState::Proceed
            } else {
                TransactionState::Abort
            }]);
            let state = decide(proceed, abort, 1);
            if vote {
                let _ = b.commit_transaction(&t, state_to_byte(state));
            }
            let (result, _) = a.finish_coordination(&t, state);
            result
        },
        Ok(CoordinationStart::Done(ok)) => Ok(ok),
        Err(e) => Err(e),
    }
}

#[test]
fn use_reserves_then_consumes_on_both_peers() {
    let mut a = PointStorage::new("a:1".to_string());
    a.install_servers(vec!["a:1".to_string(), "b:2".to_string()]);
    let mut b = PointStorage::new("b:2".to_string());
    b.install_servers(vec!["a:1".to_string(), "b:2".to_string()]);
    fill_directly(&mut a, 1, 25);
    fill_directly(&mut b, 1, 25);

    let lock = Message::LockOrder(Order::new(1, OrderAction::UsePoints(5)));
    assert!(matches!(two_party_round(&mut a, &mut b, &lock), Ok(TxOk::Finalized)));
    // the reservation shows on both servers while the order brews
    assert_eq!(points_at(&a, 1), (20, 5));
    assert_eq!(points_at(&b, 1), (20, 5));

    let commit = Message::CommitOrder(Order::new(1, OrderAction::UsePoints(5)));
    assert!(matches!(two_party_round(&mut a, &mut b, &commit), Ok(TxOk::Finalized)));
    assert_eq!(points_at(&a, 1), (20, 0));
    assert_eq!(points_at(&b, 1), (20, 0));
}

#[test]
fn failed_use_frees_the_reservation_on_both_peers() {
    let mut a = PointStorage::new("a:1".to_string());
    a.install_servers(vec!["a:1".to_string(), "b:2".to_string()]);
    let mut b = PointStorage::new("b:2".to_string());
    b.install_servers(vec!["a:1".to_string(), "b:2".to_string()]);
    fill_directly(&mut a, 1, 25);
    fill_directly(&mut b, 1, 25);

    let lock = Message::LockOrder(Order::new(1, OrderAction::UsePoints(5)));
    assert!(matches!(two_party_round(&mut a, &mut b, &lock), Ok(TxOk::Finalized)));
    assert_eq!(points_at(&a, 1), (20, 5));

    // the brew failed: the reservation is released everywhere
    let free = Message::FreeOrder(Order::new(1, OrderAction::UsePoints(5)));
    assert!(matches!(two_party_round(&mut a, &mut b, &free), Ok(TxOk::Finalized)));
    assert_eq!(points_at(&a, 1), (25, 0));
    assert_eq!(points_at(&b, 1), (25, 0));
}

#[test]
fn connect_then_sync_copies_the_point_map() {
    let mut a = PointStorage::new("a:1".to_string());
    fill(&mut a, 2, 50);

    let mut b = PointStorage::new("b:2".to_string());
    let joined = b.add_connection(ConnectRequest { addr: "a:1".to_string(), copy: false });
    assert!(joined.is_ok());

    let resp = a.sync(SyncRequest {}).unwrap();
    b.install_points(resp.points);

    assert_eq!(points_at(&b, 2), (50, 0));
    assert_eq!(b.points.len(), a.points.len());
}

#[test]
fn originating_connect_spreads_and_answers_with_the_server_set() {
    let mut a = PointStorage::new("a:1".to_string());
    a.install_servers(vec!["a:1".to_string(), "b:2".to_string(), "c:3".to_string()]);

    let outcome = a
        .add_connection(ConnectRequest { addr: "d:4".to_string(), copy: false })
        .unwrap();
    assert_eq!(outcome.notify, vec!["b:2".to_string(), "c:3".to_string()]);
    let resp = outcome.response.unwrap();
    assert_eq!(resp.servers.len(), 4);
    assert!(resp.servers.contains(&"d:4".to_string()));

    // the forwarded copy is only recorded
    let copy = spread_connect_to(&"d:4".to_string());
    assert!(copy.copy);
    let mut b = PointStorage::new("b:2".to_string());
    let outcome = b.add_connection(copy).unwrap();
    assert!(outcome.response.is_none());
    assert!(outcome.notify.is_empty());
    assert_eq!(b.servers.len(), 2);

    // recording the same address twice grows nothing
    let outcome = b
        .add_connection(ConnectRequest { addr: "d:4".to_string(), copy: true })
        .unwrap();
    assert!(outcome.response.is_none());
    assert_eq!(b.servers.len(), 2);
}

#[test]
fn offline_storage_refuses_guarded_paths() {
    let mut s = PointStorage::new("a:1".to_string());
    fill(&mut s, 1, 25);
    s.disconnect();

    let msg = Message::CommitOrder(Order::new(1, OrderAction::FillPoints(10)));
    assert!(matches!(s.coordinate_msg(&msg), Err(StoreError::Offline)));
    assert!(matches!(s.sync(SyncRequest {}), Err(StoreError::Offline)));
    assert!(matches!(
        s.add_connection(ConnectRequest { addr: "b:2".to_string(), copy: false }),
        Err(StoreError::Offline)
    ));
    let t = tx("b:2", 5, 1, TransactionAction::Lock, 5);
    assert!(matches!(s.handle_transaction(&t), Err(StoreError::Offline)));
    assert!(s.ping_reply().is_none());
    assert_eq!(points_at(&s, 1), (25, 0));
}

#[test]
fn disconnect_then_connect_leaves_state_unchanged() {
    let mut s = PointStorage::new("a:1".to_string());
    s.install_servers(vec!["a:1".to_string(), "b:2".to_string()]);
    fill_directly(&mut s, 1, 25);

    s.disconnect();
    assert!(!s.online);
    s.connect();

    assert!(s.online);
    assert_eq!(points_at(&s, 1), (25, 0));
    assert_eq!(s.points.len(), 1);
    assert_eq!(s.servers, vec!["a:1".to_string(), "b:2".to_string()]);
    assert_eq!(s.pending.len(), 0);
}

#[test]
fn isolated_coordination_parks_or_dies() {
    let mut s = PointStorage::new("a:1".to_string());
    s.install_servers(vec!["a:1".to_string(), "b:2".to_string()]);
    fill_directly(&mut s, 1, 25);
    s.disconnect();

    // a lock dies when the cluster cannot be asked
    let lock = tx("a:1", 5, 1, TransactionAction::Lock, 5);
    assert!(matches!(s.coordinate_tx(lock), Err(StoreError::ClusterIsolated)));
    assert!(!s.pending.is_connected());

    // a fill parks and is retried later
    let add = tx("a:1", 6, 1, TransactionAction::Add, 10);
    assert!(matches!(s.coordinate_tx(add), Ok(CoordinationStart::Done(TxOk::Pending))));
    assert_eq!(s.pending.len(), 1);
    assert_eq!(points_at(&s, 1), (25, 0));
}

#[test]
fn invalid_messages_build_no_transaction() {
    let mut s = PointStorage::new("a:1".to_string());
    let lock_fill = Message::LockOrder(Order::new(1, OrderAction::FillPoints(10)));
    let free_fill = Message::FreeOrder(Order::new(1, OrderAction::FillPoints(10)));
    assert!(matches!(s.coordinate_msg(&lock_fill), Err(StoreError::InvalidMessage)));
    assert!(matches!(s.coordinate_msg(&free_fill), Err(StoreError::InvalidMessage)));
    assert!(Transaction::new("a:1".to_string(), &lock_fill).is_err());
}

#[test]
fn free_without_a_reservation_is_refused() {
    let mut s = PointStorage::new("a:1".to_string());
    fill(&mut s, 1, 25);
    let free = Message::FreeOrder(Order::new(1, OrderAction::UsePoints(5)));
    assert!(matches!(s.coordinate_msg(&free), Err(StoreError::LockedInsufficient)));
}

#[test]
fn contended_record_refuses_a_lock_and_parks_a_fill() {
    let mut s = PointStorage::new("a:1".to_string());
    fill_directly(&mut s, 1, 25);
    // a peer's prepare holds the record
    let held = tx("b:2", 5, 1, TransactionAction::Lock, 5);
    assert!(s.handle_transaction(&held).unwrap());

    let lock = tx("a:1", 6, 1, TransactionAction::Lock, 5);
    assert!(matches!(s.coordinate_tx(lock), Err(StoreError::LockContention)));

    let add = tx("a:1", 7, 1, TransactionAction::Add, 10);
    assert!(matches!(s.coordinate_tx(add), Ok(CoordinationStart::Done(TxOk::Pending))));
    assert_eq!(s.pending.len(), 1);
}

#[test]
fn decision_rule_counts_votes_and_quorum() {
    // no votes at all: the cluster is unreachable
    assert_eq!(decide(0, 0, 3), TransactionState::Disconnected);
    // any refusal aborts
    assert_eq!(decide(2, 1, 3), TransactionState::Abort);
    // fewer than half the peers consenting aborts
    assert_eq!(decide(1, 0, 4), TransactionState::Abort);
    // enough consent proceeds
    assert_eq!(decide(2, 0, 4), TransactionState::Proceed);
    assert_eq!(decide(1, 0, 2), TransactionState::Proceed);

    let votes = vec![
        TransactionState::Proceed,
        TransactionState::Timeout,
        TransactionState::Abort,
        TransactionState::Proceed,
    ];
    assert_eq!(count_votes(&votes), (2, 1));
}

#[test]
fn ping_cycle_settles_the_pending_queue() {
    assert!(ping_cycle_outcome(&vec![false, true, false]));
    assert!(!ping_cycle_outcome(&vec![false, false]));
    assert!(!ping_cycle_outcome(&vec![]));

    let mut s = PointStorage::new("a:1".to_string());
    // a silent cycle disconnects the queue
    assert!(!s.apply_ping_outcome(false));
    assert!(!s.pending.is_connected());
    // the first answered cycle reconnects it, once
    assert!(s.apply_ping_outcome(true));
    assert!(!s.apply_ping_outcome(true));
    assert!(s.pending.is_connected());
}
