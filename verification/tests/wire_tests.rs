//! End-to-end tests: request bytes in, reply bytes out, through the frame
//! decoder, the dispatcher and the serializer.

use respkv::parse::decode_frame;
use respkv::service::Service;

fn roundtrip(svc: &mut Service, req: &[u8]) -> Vec<u8> {
    let (used, bulks) = decode_frame(req).expect("request frame must decode");
    assert_eq!(used, req.len());
    svc.process(bulks).to_bytes()
}

#[test]
fn scenario_ping() {
    let mut svc = Service::empty();
    assert_eq!(roundtrip(&mut svc, b"*1\r\n$4\r\nPING\r\n"), b"+PONG\r\n");
}

#[test]
fn scenario_set_then_get() {
    let mut svc = Service::empty();
    assert_eq!(roundtrip(&mut svc, b"*3\r\n$3\r\nSET\r\n$3\r\nfoo\r\n$3\r\nbar\r\n"), b"+OK\r\n");
    assert_eq!(roundtrip(&mut svc, b"*2\r\n$3\r\nGET\r\n$3\r\nfoo\r\n"), b"$3\r\nbar\r\n");
}

#[test]
fn scenario_get_missing() {
    let mut svc = Service::empty();
    assert_eq!(roundtrip(&mut svc, b"*2\r\n$3\r\nGET\r\n$6\r\nabsent\r\n"), b"$-1\r\n");
}

#[test]
fn scenario_lpush_lrange() {
    let mut svc = Service::empty();
    assert_eq!(
        roundtrip(&mut svc, b"*5\r\n$5\r\nLPUSH\r\n$2\r\nmy\r\n$1\r\na\r\n$1\r\nb\r\n$1\r\nc\r\n"),
        b":3\r\n"
    );
    assert_eq!(
        roundtrip(&mut svc, b"*4\r\n$6\r\nLRANGE\r\n$2\r\nmy\r\n$1\r\n0\r\n$2\r\n-1\r\n"),
        b"*3\r\n$1\r\nc\r\n$1\r\nb\r\n$1\r\na\r\n"
    );
}

#[test]
fn scenario_wrongtype() {
    let mut svc = Service::empty();
    assert_eq!(roundtrip(&mut svc, b"*3\r\n$3\r\nSET\r\n$1\r\nk\r\n$1\r\nv\r\n"), b"+OK\r\n");
    assert_eq!(
        roundtrip(&mut svc, b"*3\r\n$5\r\nLPUSH\r\n$1\r\nk\r\n$1\r\nx\r\n"),
        b"-WRONGTYPE Operation against a key holding the wrong kind of value\r\n".to_vec()
    );
}

#[test]
fn scenario_sadd_scard() {
    let mut svc = Service::empty();
    assert_eq!(
        roundtrip(&mut svc, b"*4\r\n$4\r\nSADD\r\n$1\r\ns\r\n$1\r\na\r\n$1\r\na\r\n"),
        b":1\r\n"
    );
    assert_eq!(roundtrip(&mut svc, b"*2\r\n$5\r\nSCARD\r\n$1\r\ns\r\n"), b":1\r\n");
}

#[test]
fn command_reply_matches_the_static_payload() {
    let mut svc = Service::empty();
    let expected: &[u8] = b"*3\r\n*6\r\n$4\r\nping\r\n:-1\r\n*2\r\n+stable\r\n+fast\r\n:0\r\n:0\r\n:0\r\n*6\r\n$7\r\ncommand\r\n:0\r\n*3\r\n+random\r\n+loading\r\n+stable\r\n:0\r\n:0\r\n:0\r\n*6\r\n$3\r\nset\r\n:-3\r\n*2\r\n+write\r\n+denyoom\r\n:1\r\n:1\r\n:1\r\n";
    assert_eq!(roundtrip(&mut svc, b"*1\r\n$7\r\nCOMMAND\r\n"), expected);
}

#[test]
fn config_is_acknowledged() {
    let mut svc = Service::empty();
    assert_eq!(roundtrip(&mut svc, b"*2\r\n$6\r\nCONFIG\r\n$3\r\nfoo\r\n"), b"+OK\r\n");
}

#[test]
fn command_names_are_case_insensitive() {
    let mut svc = Service::empty();
    assert_eq!(roundtrip(&mut svc, b"*3\r\n$3\r\nset\r\n$1\r\nk\r\n$1\r\nv\r\n"), b"+OK\r\n");
    assert_eq!(roundtrip(&mut svc, b"*2\r\n$3\r\ngEt\r\n$1\r\nk\r\n"), b"$1\r\nv\r\n");
}

#[test]
fn unknown_command_keeps_the_session() {
    let mut svc = Service::empty();
    assert_eq!(
        roundtrip(&mut svc, b"*1\r\n$4\r\nBLAH\r\n"),
        b"-ERR unknown command\r\n".to_vec()
    );
    // The wire name is DEL; the long form is not a command.
    assert_eq!(
        roundtrip(&mut svc, b"*2\r\n$6\r\nDELETE\r\n$1\r\nk\r\n"),
        b"-ERR unknown command\r\n".to_vec()
    );
    assert_eq!(roundtrip(&mut svc, b"*1\r\n$4\r\nPING\r\n"), b"+PONG\r\n");
}

#[test]
fn arity_fault_is_a_protocol_error() {
    let mut svc = Service::empty();
    assert_eq!(
        roundtrip(&mut svc, b"*1\r\n$3\r\nGET\r\n"),
        b"-ERR protocol error: wrong number of arguments\r\n".to_vec()
    );
}

#[test]
fn bad_integer_is_a_protocol_error() {
    let mut svc = Service::empty();
    assert_eq!(
        roundtrip(&mut svc, b"*4\r\n$6\r\nLRANGE\r\n$1\r\nk\r\n$1\r\nx\r\n$1\r\n1\r\n"),
        b"-ERR protocol error: value is not an integer or out of range\r\n".to_vec()
    );
}

#[test]
fn del_and_mget_and_mset_over_the_wire() {
    let mut svc = Service::empty();
    assert_eq!(
        roundtrip(&mut svc, b"*5\r\n$4\r\nMSET\r\n$1\r\na\r\n$1\r\n1\r\n$1\r\nb\r\n$1\r\n2\r\n"),
        b"+OK\r\n"
    );
    assert_eq!(
        roundtrip(&mut svc, b"*4\r\n$4\r\nMGET\r\n$1\r\na\r\n$1\r\nz\r\n$1\r\nb\r\n"),
        b"*3\r\n$1\r\n1\r\n$-1\r\n$1\r\n2\r\n"
    );
    assert_eq!(
        roundtrip(&mut svc, b"*3\r\n$3\r\nDEL\r\n$1\r\na\r\n$1\r\nz\r\n"),
        b":1\r\n"
    );
    assert_eq!(roundtrip(&mut svc, b"*2\r\n$3\r\nGET\r\n$1\r\na\r\n"), b"$-1\r\n");
}

#[test]
fn pops_and_llen_over_the_wire() {
    let mut svc = Service::empty();
    assert_eq!(
        roundtrip(&mut svc, b"*4\r\n$5\r\nRPUSH\r\n$1\r\nl\r\n$1\r\na\r\n$1\r\nb\r\n"),
        b":2\r\n"
    );
    assert_eq!(roundtrip(&mut svc, b"*2\r\n$4\r\nLLEN\r\n$1\r\nl\r\n"), b":2\r\n");
    assert_eq!(roundtrip(&mut svc, b"*2\r\n$4\r\nLPOP\r\n$1\r\nl\r\n"), b"$1\r\na\r\n");
    assert_eq!(roundtrip(&mut svc, b"*2\r\n$4\r\nRPOP\r\n$1\r\nl\r\n"), b"$1\r\nb\r\n");
    assert_eq!(roundtrip(&mut svc, b"*2\r\n$4\r\nLPOP\r\n$1\r\nl\r\n"), b"$-1\r\n");
}

#[test]
fn smembers_over_the_wire_lists_each_member_once() {
    let mut svc = Service::empty();
    roundtrip(&mut svc, b"*4\r\n$4\r\nSADD\r\n$1\r\ns\r\n$1\r\na\r\n$1\r\nb\r\n");
    let bytes = roundtrip(&mut svc, b"*2\r\n$8\r\nSMEMBERS\r\n$1\r\ns\r\n");
    // Two orders are possible; both carry each member exactly once.
    let one: &[u8] = b"*2\r\n$1\r\na\r\n$1\r\nb\r\n";
    let two: &[u8] = b"*2\r\n$1\r\nb\r\n$1\r\na\r\n";
    assert!(bytes == one || bytes == two);
}

#[test]
fn binary_value_round_trips_through_the_wire() {
    let mut svc = Service::empty();
    assert_eq!(
        roundtrip(&mut svc, b"*3\r\n$3\r\nSET\r\n$1\r\nk\r\n$5\r\na\r\nb\0\r\n"),
        b"+OK\r\n"
    );
    assert_eq!(roundtrip(&mut svc, b"*2\r\n$3\r\nGET\r\n$1\r\nk\r\n"), b"$5\r\na\r\nb\0\r\n");
}

#[test]
fn set_accepts_and_ignores_expiry_arguments() {
    let mut svc = Service::empty();
    assert_eq!(
        roundtrip(&mut svc, b"*5\r\n$3\r\nSET\r\n$1\r\nk\r\n$1\r\nv\r\n$1\r\n1\r\n$2\r\n10\r\n"),
        b"+OK\r\n"
    );
    assert_eq!(roundtrip(&mut svc, b"*2\r\n$3\r\nGET\r\n$1\r\nk\r\n"), b"$1\r\nv\r\n");
}

#[test]
fn empty_request_is_a_protocol_error() {
    let mut svc = Service::empty();
    let reply = roundtrip(&mut svc, b"*0\r\n");
    assert!(reply.starts_with(b"-ERR protocol error: "));
}

#[test]
fn ping_and_ok_reply_helpers_encode_directly() {
    assert_eq!(Service::ping_reply(), b"+PONG\r\n");
    assert_eq!(Service::ok_reply(), b"+OK\r\n");
}
