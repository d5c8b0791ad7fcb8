//! Tests of the one-shot command parser.

use respkv::command::Command;

#[test]
fn test_config() {
    let config_str = b"$6\r\nconfig\r\n";
    assert_eq!(Command::parse(config_str), Some((config_str.len(), Command::Config)));
}

#[test]
fn test_range() {
    let config_str = b"$6\r\nLRANGE\r\n$6\r\nmylist\r\n$1\r\n0\r\n$2\r\n99\r\n";
    assert_eq!(
        Command::parse(config_str),
        Some((
            config_str.len(),
            Command::Lrange { key: b"mylist".to_vec(), start: 0, stop: 99 }
        ))
    );
}

#[test]
fn test_set() {
    let config_str = b"$3\r\nset\r\n$1\r\na\r\n$1\r\n1\r\n$1\r\n1\r\n$2\r\n10\r\n";
    assert_eq!(
        Command::parse(config_str),
        Some((
            config_str.len(),
            Command::SetValue {
                key: b"a".to_vec(),
                value: b"1".to_vec(),
                expire_seconds: Some(1),
                expire_milliseconds: Some(10)
            }
        ))
    );
}

#[test]
fn parse_command_name_maps_to_config() {
    let s = b"$7\r\ncommand\r\n";
    assert_eq!(Command::parse(s), Some((s.len(), Command::Config)));
}

#[test]
fn parse_ping_case_insensitive() {
    let s = b"$4\r\npInG\r\n";
    assert_eq!(Command::parse(s), Some((s.len(), Command::Ping)));
}

#[test]
fn parse_get_and_delete() {
    let g = b"$3\r\nget\r\n$3\r\nfoo\r\n";
    assert_eq!(Command::parse(g), Some((g.len(), Command::Get { key: b"foo".to_vec() })));
    let d = b"$6\r\ndelete\r\n$1\r\na\r\n$1\r\nb\r\n";
    assert_eq!(
        Command::parse(d),
        Some((d.len(), Command::Delete { keys: vec![b"a".to_vec(), b"b".to_vec()] }))
    );
}

#[test]
fn parse_pushes() {
    let l = b"$5\r\nlpush\r\n$1\r\nk\r\n$1\r\nx\r\n$1\r\ny\r\n";
    assert_eq!(
        Command::parse(l),
        Some((
            l.len(),
            Command::Lpush { key: b"k".to_vec(), values: vec![b"x".to_vec(), b"y".to_vec()] }
        ))
    );
    let r = b"$5\r\nrpush\r\n$1\r\nk\r\n$1\r\nx\r\n";
    assert_eq!(
        Command::parse(r),
        Some((r.len(), Command::Rpush { key: b"k".to_vec(), values: vec![b"x".to_vec()] }))
    );
}

#[test]
fn parse_lrange_negative_indices() {
    let s = b"$6\r\nlrange\r\n$1\r\nk\r\n$2\r\n-5\r\n$2\r\n-1\r\n";
    assert_eq!(
        Command::parse(s),
        Some((s.len(), Command::Lrange { key: b"k".to_vec(), start: -5, stop: -1 }))
    );
}

#[test]
fn parse_unknown_or_malformed_is_none() {
    assert_eq!(Command::parse(b"$4\r\nblah\r\n"), None);
    assert_eq!(Command::parse(b"$3\r\nget\r\n"), None);
    assert_eq!(Command::parse(b"nonsense"), None);
    assert_eq!(Command::parse(b"$6\r\nlrange\r\n$1\r\nk\r\n$1\r\nx\r\n$1\r\n1\r\n"), None);
}
