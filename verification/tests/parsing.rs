use points_store::control::{ControlMessage, Request};
use points_store::order::{Order, OrderAction};
use points_store::parse_addr;

#[test]
fn bare_ports_get_the_local_host() {
    assert_eq!(parse_addr("9000".to_string()), "localhost:9000");
    assert_eq!(parse_addr("127.0.0.1:9000".to_string()), "127.0.0.1:9000");
    assert_eq!(parse_addr("localhost:7".to_string()), "localhost:7");
}

#[test]
fn order_lines_parse() {
    assert_eq!(
        Order::parse("1,USE,5".to_string()).unwrap(),
        Order::new(1, OrderAction::UsePoints(5))
    );
    assert_eq!(
        Order::parse("10,FILL,999".to_string()).unwrap(),
        Order::new(10, OrderAction::FillPoints(999))
    );
    assert_eq!(
        Order::parse("65535,USE,007".to_string()).unwrap(),
        Order::new(65535, OrderAction::UsePoints(7))
    );
    // whatever follows a further comma is ignored
    assert_eq!(
        Order::parse("2,FILL,50,note".to_string()).unwrap(),
        Order::new(2, OrderAction::FillPoints(50))
    );
}

#[test]
fn malformed_order_lines_are_refused() {
    assert!(Order::parse("".to_string()).is_err());
    assert!(Order::parse("1".to_string()).is_err());
    assert!(Order::parse("1,USE".to_string()).is_err());
    assert!(Order::parse("1,BREW,5".to_string()).is_err());
    assert!(Order::parse("1,USE,".to_string()).is_err());
    assert!(Order::parse("1,USE,x5".to_string()).is_err());
    assert!(Order::parse("x,USE,5".to_string()).is_err());
    assert!(Order::parse("70000,USE,5".to_string()).is_err());
    assert!(Order::parse("1,USE,99999999999999999999999999999".to_string()).is_err());
}

#[test]
fn control_lines_parse() {
    let r = Request::parse("d 9001").unwrap();
    assert_eq!(r.msg, ControlMessage::Disconnect);
    assert_eq!(r.addr, "localhost:9001");

    let r = Request::parse("C 10.0.0.1:9002").unwrap();
    assert_eq!(r.msg, ControlMessage::Connect);
    assert_eq!(r.addr, "10.0.0.1:9002");

    // only the first letter of the word counts
    let r = Request::parse("disconnect 9000").unwrap();
    assert_eq!(r.msg, ControlMessage::Disconnect);

    // unknown words still carry their address
    let r = Request::parse("x 9000").unwrap();
    assert_eq!(r.msg, ControlMessage::Unknown);
    assert_eq!(r.addr, "localhost:9000");

    // runs of whitespace separate the tokens
    let r = Request::parse("  c \t 7 ").unwrap();
    assert_eq!(r.msg, ControlMessage::Connect);
    assert_eq!(r.addr, "localhost:7");
}

#[test]
fn control_lines_need_two_tokens() {
    assert!(Request::parse("").is_none());
    assert!(Request::parse("   ").is_none());
    assert!(Request::parse("d").is_none());
    assert!(Request::parse("d   ").is_none());
}
