use points_store::control::{control_from_byte, control_to_byte, ControlMessage};
use points_store::message::{client_reply_byte, Message};
use points_store::order::{Order, OrderAction};

fn test_order(order: Order) {
    let order_from_buf = order.clone().encode();
    let expected_order = Order::decode(&order_from_buf).unwrap();
    assert_eq!(order, expected_order);
}

#[test]
fn test_order_use() {
    let order = Order::new(25, OrderAction::UsePoints(123));
    test_order(order);
}

#[test]
fn test_order_fill() {
    let order = Order::new(30, OrderAction::FillPoints(123));
    test_order(order);
}

fn test_message(message: Message) {
    let buf = message.clone().encode();
    let message2 = Message::decode(&buf).unwrap();
    assert_eq!(message, message2);
}

#[test]
fn lock_order() {
    let order = Order::new(1, OrderAction::UsePoints(123));
    let message = Message::LockOrder(order);
    test_message(message);
}

#[test]
fn free_order() {
    let order = Order::new(50, OrderAction::UsePoints(123));
    let message = Message::FreeOrder(order);
    test_message(message);
}

#[test]
fn commit_order() {
    let order = Order::new(30, OrderAction::UsePoints(123));
    let message = Message::CommitOrder(order);
    test_message(message);
}

#[test]
fn round_trip_edge_values() {
    test_order(Order::new(0, OrderAction::UsePoints(0)));
    test_order(Order::new(65535, OrderAction::FillPoints(999)));
    test_message(Message::CommitOrder(Order::new(65535, OrderAction::FillPoints(999))));
    test_message(Message::FreeOrder(Order::new(0, OrderAction::UsePoints(0))));
}

#[test]
fn frame_bytes_are_as_documented() {
    // tag, id big-endian, action tag, then three decimal digits
    let m = Message::CommitOrder(Order::new(258, OrderAction::FillPoints(407)));
    let buf = m.encode();
    assert_eq!(buf, vec![3, 1, 2, 2, 4, 0, 7]);
}

#[test]
fn short_frame_stands_for_nothing() {
    assert_eq!(Message::decode(&vec![]), None);
    assert_eq!(Message::decode(&vec![1, 0, 1, 1, 0, 0]), None);
    assert_eq!(Message::decode(&vec![1, 0, 1, 1, 0, 0, 5, 9]), None);
}

#[test]
fn unknown_tags_are_refused() {
    // message tag 9, action tag 7
    assert_eq!(Message::decode(&vec![9, 0, 1, 1, 0, 0, 5]), None);
    assert_eq!(Message::decode(&vec![1, 0, 1, 7, 0, 0, 5]), None);
}

#[test]
fn handle_locally_is_for_fill_bookkeeping_only() {
    let fill = Order::new(1, OrderAction::FillPoints(10));
    let spend = Order::new(1, OrderAction::UsePoints(10));
    assert!(Message::LockOrder(fill.clone()).handle_locally().is_ok());
    assert!(Message::FreeOrder(fill.clone()).handle_locally().is_ok());
    assert!(Message::CommitOrder(fill).handle_locally().is_err());
    assert!(Message::LockOrder(spend.clone()).handle_locally().is_err());
    assert!(Message::FreeOrder(spend.clone()).handle_locally().is_err());
    assert!(Message::CommitOrder(spend).handle_locally().is_err());
}

#[test]
fn control_byte_round_trip() {
    assert_eq!(control_to_byte(ControlMessage::Unknown), 0);
    assert_eq!(control_to_byte(ControlMessage::Disconnect), 1);
    assert_eq!(control_to_byte(ControlMessage::Connect), 2);
    assert_eq!(control_from_byte(1), ControlMessage::Disconnect);
    assert_eq!(control_from_byte(2), ControlMessage::Connect);
    assert_eq!(control_from_byte(0), ControlMessage::Unknown);
    assert_eq!(control_from_byte(77), ControlMessage::Unknown);
}

#[test]
fn reply_byte_says_ok_or_fail() {
    assert_eq!(client_reply_byte(true), 1);
    assert_eq!(client_reply_byte(false), 0);
}
