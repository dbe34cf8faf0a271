use void_orchestrator::error::Error;
use void_orchestrator::specification::{
    Arg, Entrypoint, Environment, FileSocket, Pipe, Specification, Trigger,
};

fn entry(trigger: Trigger, args: Vec<Arg>) -> Entrypoint {
    Entrypoint { trigger, args, environment: Vec::new() }
}

fn spec(entries: Vec<(&str, Entrypoint)>) -> Specification {
    Specification {
        entrypoints: entries.into_iter().map(|(n, e)| (n.to_string(), e)).collect(),
    }
}

fn pipe_rx(name: &str) -> Arg {
    Arg::Pipe(Pipe::Rx(name.to_string()))
}

fn pipe_tx(name: &str) -> Arg {
    Arg::Pipe(Pipe::Tx(name.to_string()))
}

fn socket_rx(name: &str) -> Arg {
    Arg::FileSocket(FileSocket::Rx(name.to_string()))
}

fn socket_tx(name: &str) -> Arg {
    Arg::FileSocket(FileSocket::Tx(name.to_string()))
}

#[test]
fn defaults_are_startup_and_binary_name() {
    assert_eq!(Trigger::default(), Trigger::Startup);
    assert_eq!(Arg::default_vec(), vec![Arg::BinaryName]);
}

#[test]
fn channel_names_are_read_from_either_end() {
    assert_eq!(Pipe::Rx("a".to_string()).get_name(), "a");
    assert_eq!(Pipe::Tx("b".to_string()).get_name(), "b");
    assert_eq!(FileSocket::Rx("c".to_string()).get_name(), "c");
    assert_eq!(FileSocket::Tx("d".to_string()).get_name(), "d");
}

#[test]
fn hello_startup_is_valid() {
    let s = spec(vec![("main", entry(Trigger::Startup, vec![Arg::BinaryName, Arg::Entrypoint]))]);
    assert_eq!(s.validate(), Ok(()));
    assert_eq!(s.pipes(), (vec![], vec![]));
    assert_eq!(s.sockets(), (vec![], vec![]));
}

#[test]
fn pipe_hand_off_is_valid() {
    let s = spec(vec![
        ("sender", entry(Trigger::Startup, vec![Arg::BinaryName, Arg::Entrypoint, pipe_tx("p")])),
        (
            "printer",
            entry(Trigger::Pipe("p".to_string()), vec![Arg::BinaryName, Arg::Entrypoint, Arg::Trigger]),
        ),
    ]);
    assert_eq!(s.validate(), Ok(()));
    assert_eq!(s.pipes(), (vec!["p".to_string()], vec!["p".to_string()]));
}

#[test]
fn references_are_listed_in_order() {
    let s = spec(vec![
        ("a", entry(Trigger::Pipe("t".to_string()), vec![pipe_rx("x"), pipe_tx("y"), socket_tx("s")])),
        ("b", entry(Trigger::FileSocket("s".to_string()), vec![pipe_tx("x"), socket_rx("r")])),
    ]);
    assert_eq!(
        s.pipes(),
        (vec!["t".to_string(), "x".to_string()], vec!["y".to_string(), "x".to_string()])
    );
    assert_eq!(s.sockets(), (vec!["s".to_string(), "r".to_string()], vec!["s".to_string()]));
}

#[test]
fn two_readers_of_a_pipe_are_refused() {
    let s = spec(vec![
        ("a", entry(Trigger::Startup, vec![pipe_rx("x")])),
        ("b", entry(Trigger::Startup, vec![pipe_rx("x")])),
    ]);
    assert_eq!(s.validate(), Err(Error::BadPipe("x".to_string())));
}

#[test]
fn trigger_counts_as_a_reader() {
    let s = spec(vec![
        ("a", entry(Trigger::Pipe("x".to_string()), vec![Arg::BinaryName])),
        ("b", entry(Trigger::Startup, vec![pipe_rx("x"), pipe_tx("x")])),
    ]);
    assert_eq!(s.validate(), Err(Error::BadPipe("x".to_string())));
}

#[test]
fn two_writers_of_a_pipe_are_refused() {
    let s = spec(vec![
        ("a", entry(Trigger::Pipe("x".to_string()), vec![])),
        ("b", entry(Trigger::Startup, vec![pipe_tx("x"), pipe_tx("x")])),
    ]);
    assert_eq!(s.validate(), Err(Error::BadPipe("x".to_string())));
}

#[test]
fn pipe_without_writer_is_refused() {
    let s = spec(vec![("a", entry(Trigger::Pipe("lonely".to_string()), vec![]))]);
    assert_eq!(s.validate(), Err(Error::BadPipe("lonely".to_string())));
}

#[test]
fn pipe_without_reader_is_refused() {
    let s = spec(vec![("a", entry(Trigger::Startup, vec![pipe_tx("unread")]))]);
    assert_eq!(s.validate(), Err(Error::BadPipe("unread".to_string())));
}

#[test]
fn first_offending_pipe_is_named() {
    let s = spec(vec![
        ("a", entry(Trigger::Startup, vec![pipe_rx("one"), pipe_rx("two")])),
        ("b", entry(Trigger::Startup, vec![pipe_tx("two")])),
    ]);
    assert_eq!(s.validate(), Err(Error::BadPipe("one".to_string())));
}

#[test]
fn socket_may_have_many_writers() {
    let s = spec(vec![
        ("consumer", entry(Trigger::FileSocket("s".to_string()), vec![Arg::BinaryName, Arg::Trigger])),
        ("first", entry(Trigger::Startup, vec![Arg::BinaryName, socket_tx("s")])),
        ("second", entry(Trigger::Startup, vec![Arg::BinaryName, socket_tx("s"), socket_tx("s")])),
    ]);
    assert_eq!(s.validate(), Ok(()));
}

#[test]
fn socket_with_two_readers_is_refused() {
    let s = spec(vec![
        ("a", entry(Trigger::FileSocket("s".to_string()), vec![socket_tx("s")])),
        ("b", entry(Trigger::Startup, vec![socket_rx("s")])),
    ]);
    assert_eq!(s.validate(), Err(Error::BadFileSocket("s".to_string())));
}

#[test]
fn socket_without_writer_is_refused() {
    let s = spec(vec![("a", entry(Trigger::FileSocket("s".to_string()), vec![]))]);
    assert_eq!(s.validate(), Err(Error::BadFileSocket("s".to_string())));
}

#[test]
fn socket_without_reader_is_refused() {
    let s = spec(vec![("a", entry(Trigger::Startup, vec![socket_tx("s")]))]);
    assert_eq!(s.validate(), Err(Error::BadFileSocket("s".to_string())));
}

#[test]
fn pipes_are_judged_before_sockets() {
    let s = spec(vec![("a", entry(Trigger::Startup, vec![socket_tx("s"), pipe_tx("p")]))]);
    assert_eq!(s.validate(), Err(Error::BadPipe("p".to_string())));
}

#[test]
fn trigger_argument_at_startup_is_refused() {
    let s = spec(vec![("main", entry(Trigger::Startup, vec![Arg::BinaryName, Arg::Trigger]))]);
    assert_eq!(s.validate(), Err(Error::BadTriggerArgument));
}

#[test]
fn channels_are_judged_before_trigger_arguments() {
    let s = spec(vec![("main", entry(Trigger::Startup, vec![Arg::Trigger, pipe_rx("x")]))]);
    assert_eq!(s.validate(), Err(Error::BadPipe("x".to_string())));
}

#[test]
fn stdio_is_granted_once_to_every_entrypoint() {
    let mut s = spec(vec![
        ("a", entry(Trigger::Startup, vec![])),
        (
            "b",
            Entrypoint {
                trigger: Trigger::Startup,
                args: vec![],
                environment: vec![Environment::Stdout, Environment::Procfs],
            },
        ),
    ]);
    s.grant_stdio(true, true);
    assert_eq!(s.entrypoints[0].1.environment, vec![Environment::Stdout, Environment::Stderr]);
    assert_eq!(
        s.entrypoints[1].1.environment,
        vec![Environment::Stdout, Environment::Procfs, Environment::Stderr]
    );
    let before = s.clone();
    s.grant_stdio(false, false);
    assert_eq!(s, before);
}

#[test]
fn entrypoint_names_are_told_apart() {
    let unique = spec(vec![
        ("a", entry(Trigger::Startup, vec![])),
        ("b", entry(Trigger::Startup, vec![])),
        ("c", entry(Trigger::Startup, vec![])),
    ]);
    assert!(unique.has_unique_names());
    let repeated = spec(vec![
        ("a", entry(Trigger::Startup, vec![])),
        ("b", entry(Trigger::Startup, vec![])),
        ("a", entry(Trigger::Startup, vec![])),
    ]);
    assert!(!repeated.has_unique_names());
    assert!(spec(vec![]).has_unique_names());
}
