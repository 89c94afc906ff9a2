use points_store::message::Message;
use points_store::order::{Order, OrderAction};
use points_store::pending::PendingTransactions;
use points_store::record::{PointRecord, Points};
use points_store::transaction::{Transaction, TransactionAction};

#[test]
fn test_add_points() {
    let mut points = Points(0, 0);
    let order = Order::new(1, OrderAction::FillPoints(100));
    let message = Message::CommitOrder(order);
    let transaction = Transaction::new("127.0.0.1:9001".to_string(), &message).unwrap();
    points.apply(transaction);
    assert_eq!(100, points.0);
    assert_eq!(0, points.1);
}

#[test]
fn test_lock_points() {
    let mut points = Points(100, 0);
    let order = Order::new(1, OrderAction::UsePoints(100));
    let message = Message::LockOrder(order);
    let transaction = Transaction::new("127.0.0.1:9001".to_string(), &message).unwrap();
    points.apply(transaction);
    assert_eq!(0, points.0);
    assert_eq!(100, points.1);
}

#[test]
fn test_free_points() {
    let mut points = Points(0, 100);
    let order = Order::new(1, OrderAction::UsePoints(100));
    let message = Message::FreeOrder(order);
    let transaction = Transaction::new("127.0.0.1:9001".to_string(), &message).unwrap();
    points.apply(transaction);
    assert_eq!(100, points.0);
    assert_eq!(0, points.1);
}

#[test]
fn test_consume_points() {
    let mut points = Points(0, 100);
    let order = Order::new(1, OrderAction::UsePoints(100));
    let message = Message::CommitOrder(order);
    let transaction = Transaction::new("127.0.0.1:9001".to_string(), &message).unwrap();
    points.apply(transaction);
    assert_eq!(0, points.0);
    assert_eq!(0, points.1);
}

#[test]
fn test_add_transactions() {
    let mut pending_transactions = PendingTransactions::new();
    let order = Order::new(1, OrderAction::UsePoints(123));
    let message = Message::LockOrder(order);
    let transaction = Transaction::new("127.0.0.1:9001".to_string(), &message).unwrap();

    let _ = pending_transactions.add(transaction.clone());
    assert_eq!(pending_transactions.len(), 1);

    let my_transaction = pending_transactions.pop().unwrap();
    assert_eq!(&transaction.clone().client_id, &my_transaction.client_id);
    assert_eq!(&transaction.points, &my_transaction.points);
}

fn tx(coordinator: &str, timestamp: u128, client_id: u16, action: TransactionAction, points: usize) -> Transaction {
    Transaction { coordinator: coordinator.to_string(), timestamp, client_id, action, points }
}

#[test]
fn pending_is_first_in_first_out() {
    let mut q = PendingTransactions::new();
    let a = tx("a:1", 1, 7, TransactionAction::Add, 10);
    let b = tx("a:1", 2, 7, TransactionAction::Add, 20);
    q.add(a).unwrap();
    q.add(b).unwrap();
    assert_eq!(q.pop().unwrap().points, 10);
    assert_eq!(q.pop().unwrap().points, 20);
    assert!(q.pop().is_none());
}

#[test]
fn disconnected_pending_hands_nothing_out() {
    let mut q = PendingTransactions::new();
    q.add(tx("a:1", 1, 7, TransactionAction::Add, 10)).unwrap();
    q.disconnect();
    assert!(q.pop().is_none());
    assert_eq!(q.len(), 1);
    let resync = q.connect();
    assert!(resync);
    assert_eq!(q.pop().unwrap().points, 10);
}

#[test]
fn reconnect_fires_once_per_transition() {
    let mut q = PendingTransactions::new();
    // already connected: no transition, no hook
    assert!(!q.connect());
    q.disconnect();
    q.disconnect();
    assert!(q.connect());
    assert!(!q.connect());
}

#[test]
fn apply_conserves_the_total_and_stays_nonnegative() {
    let mut p = Points(25, 0);
    let lock = tx("a:1", 1, 1, TransactionAction::Lock, 5);
    let consume = tx("a:1", 2, 1, TransactionAction::Consume, 5);
    let free = tx("a:1", 3, 1, TransactionAction::Free, 5);

    p.apply(lock.clone());
    assert_eq!((p.0, p.1), (20, 5));
    assert_eq!(p.0 + p.1, 25);

    p.apply(free);
    assert_eq!((p.0, p.1), (25, 0));
    assert_eq!(p.0 + p.1, 25);

    p.apply(lock);
    p.apply(consume);
    assert_eq!((p.0, p.1), (20, 0));
}

#[test]
fn wait_die_refuses_both_sides_of_a_conflict() {
    let older = tx("a:1", 5, 1, TransactionAction::Lock, 5);
    let younger = tx("b:2", 6, 1, TransactionAction::Lock, 5);

    let held_by_younger = PointRecord { points: Points(10, 0), transaction: Some(younger.clone()) };
    let held_by_older = PointRecord { points: Points(10, 0), transaction: Some(older.clone()) };

    // the younger dies, and the older waits: both are refused
    assert!(held_by_older.wait_die(&younger).is_err());
    assert!(held_by_younger.wait_die(&older).is_err());

    // a free record, or the holder itself, passes
    let free_rec = PointRecord { points: Points(10, 0), transaction: None };
    assert!(free_rec.wait_die(&older).is_ok());
    assert!(held_by_older.wait_die(&older).is_ok());
}

#[test]
fn older_than_orders_by_timestamp_then_address() {
    let a = tx("a:1", 5, 1, TransactionAction::Lock, 5);
    let b = tx("b:2", 6, 1, TransactionAction::Lock, 5);
    let c = tx("b:2", 5, 1, TransactionAction::Lock, 5);
    assert!(a.older_than(&b));
    assert!(!b.older_than(&a));
    // tie on the timestamp: the lower address is older
    assert!(a.older_than(&c));
    assert!(!c.older_than(&a));
    assert!(!a.older_than(&a));
}
