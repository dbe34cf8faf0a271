use void_orchestrator::args::{AmbientRequest, PreparedArg, PreparedArgs, TriggerData};
use void_orchestrator::error::Error;
use void_orchestrator::fabric::{create_pipes, create_sockets};
use void_orchestrator::spawner::Spawner;
use void_orchestrator::specification::{Arg, FileSocket, Pipe, Specification};
use void_orchestrator::void::{VoidBuilder, VoidStep};

fn spawner<'a>(spec: &'a Specification, trailing: Vec<&str>) -> Spawner<'a> {
    Spawner {
        spec,
        binary: "/entrypoint".to_string(),
        binary_args: trailing.into_iter().map(|s| s.to_string()).collect(),
        debug: false,
        pipes: create_pipes(&vec!["p".to_string()], &vec![(10, 11)]),
        sockets: create_sockets(&vec!["s".to_string()], &vec![(20, 21)]),
    }
}

fn empty_spec() -> Specification {
    Specification { entrypoints: Vec::new() }
}

#[test]
fn requests_are_listed_for_files_listeners_and_socket_writers() {
    let args = vec![
        Arg::BinaryName,
        Arg::File("/etc/hosts".to_string()),
        Arg::Pipe(Pipe::Rx("p".to_string())),
        Arg::TcpListener { addr: "127.0.0.1:0".to_string() },
        Arg::FileSocket(FileSocket::Rx("s".to_string())),
        Arg::FileSocket(FileSocket::Tx("s".to_string())),
        Arg::Trigger,
        Arg::Trailing,
    ];
    assert_eq!(
        PreparedArgs::ambient_requests(&args),
        vec![
            AmbientRequest::OpenFile("/etc/hosts".to_string()),
            AmbientRequest::BindTcpListener("127.0.0.1:0".to_string()),
            AmbientRequest::DuplicateSocketWrite("s".to_string()),
        ]
    );
    assert!(PreparedArgs::ambient_requests(&vec![]).is_empty());
}

#[test]
fn hello_startup_yields_binary_and_name() {
    let spec = empty_spec();
    let mut sp = spawner(&spec, vec![]);
    let mut builder = VoidBuilder::new();
    let args = vec![Arg::BinaryName, Arg::Entrypoint];
    let prepared = PreparedArgs::prepare_ambient_mut(&mut sp, &mut builder, &args, &vec![]).unwrap();
    assert_eq!(prepared, PreparedArgs(vec![PreparedArg::BinaryName, PreparedArg::Entrypoint]));
    let argv = prepared.prepare_void(&sp, "main", &mut TriggerData::Nothing).unwrap();
    assert_eq!(argv, vec!["/entrypoint".to_string(), "main".to_string()]);
}

#[test]
fn ambient_phase_takes_ends_and_keeps_descriptors() {
    let spec = empty_spec();
    let mut sp = spawner(&spec, vec![]);
    let mut builder = VoidBuilder::new();
    let args = vec![
        Arg::BinaryName,
        Arg::Pipe(Pipe::Tx("p".to_string())),
        Arg::File("/etc/hosts".to_string()),
        Arg::FileSocket(FileSocket::Rx("s".to_string())),
        Arg::TcpListener { addr: "127.0.0.1:0".to_string() },
        Arg::FileSocket(FileSocket::Tx("s".to_string())),
    ];
    let granted = vec![30, 31, 32];
    let prepared =
        PreparedArgs::prepare_ambient_mut(&mut sp, &mut builder, &args, &granted).unwrap();
    assert_eq!(
        prepared,
        PreparedArgs(vec![
            PreparedArg::BinaryName,
            PreparedArg::Pipe(11),
            PreparedArg::File(30),
            PreparedArg::FileSocket(20),
            PreparedArg::TcpListener { socket: 31 },
            PreparedArg::FileSocket(32),
        ])
    );
    assert_eq!(
        builder.void_file_descriptors()[0],
        VoidStep::CloseDescriptors { from: 3, keep: vec![11, 30, 20, 31, 32] }
    );
    assert_eq!(sp.pipes[0].take_write(), Err(Error::BadPipe("p".to_string())));
    assert_eq!(sp.pipes[0].take_read(), Ok(10));
    assert_eq!(sp.sockets[0].take_read(), Err(Error::BadFileSocket("s".to_string())));
    assert_eq!(sp.sockets[0].write(), Ok(21));
    let argv = prepared.prepare_void(&sp, "main", &mut TriggerData::Nothing).unwrap();
    assert_eq!(argv, vec!["/entrypoint", "11", "30", "20", "31", "32"]);
}

#[test]
fn taking_an_end_twice_ends_the_phase() {
    let spec = empty_spec();
    let mut sp = spawner(&spec, vec![]);
    let mut builder = VoidBuilder::new();
    let args = vec![
        Arg::Pipe(Pipe::Rx("p".to_string())),
        Arg::Pipe(Pipe::Rx("p".to_string())),
        Arg::Pipe(Pipe::Tx("p".to_string())),
    ];
    assert_eq!(
        PreparedArgs::prepare_ambient_mut(&mut sp, &mut builder, &args, &vec![]),
        Err(Error::BadPipe("p".to_string()))
    );
    assert_eq!(sp.pipes[0].take_write(), Ok(11));
    assert!(builder.keeps(10));
    assert!(!builder.keeps(11));
}

#[test]
fn unknown_channels_are_errors() {
    let spec = empty_spec();
    let mut sp = spawner(&spec, vec![]);
    let mut builder = VoidBuilder::new();
    assert_eq!(
        PreparedArgs::prepare_ambient_mut(
            &mut sp,
            &mut builder,
            &vec![Arg::Pipe(Pipe::Tx("q".to_string()))],
            &vec![]
        ),
        Err(Error::BadPipe("q".to_string()))
    );
    assert_eq!(
        PreparedArgs::prepare_ambient_mut(
            &mut sp,
            &mut builder,
            &vec![Arg::FileSocket(FileSocket::Rx("q".to_string()))],
            &vec![]
        ),
        Err(Error::BadFileSocket("q".to_string()))
    );
}

#[test]
fn triggered_entrypoints_cannot_take_ends() {
    let spec = empty_spec();
    let sp = spawner(&spec, vec![]);
    let mut builder = VoidBuilder::new();
    assert_eq!(
        PreparedArgs::prepare_ambient(
            &sp,
            &mut builder,
            &vec![Arg::BinaryName, Arg::Pipe(Pipe::Tx("p".to_string()))],
            &vec![]
        ),
        Err(Error::BadPipe("p".to_string()))
    );
    assert_eq!(
        PreparedArgs::prepare_ambient(
            &sp,
            &mut builder,
            &vec![Arg::FileSocket(FileSocket::Rx("s".to_string()))],
            &vec![]
        ),
        Err(Error::BadFileSocket("s".to_string()))
    );
    let prepared = PreparedArgs::prepare_ambient(
        &sp,
        &mut builder,
        &vec![Arg::FileSocket(FileSocket::Tx("s".to_string())), Arg::Trigger],
        &vec![40],
    )
    .unwrap();
    assert_eq!(prepared, PreparedArgs(vec![PreparedArg::FileSocket(40), PreparedArg::Trigger]));
    assert!(builder.keeps(40));
}

#[test]
fn pipe_payload_becomes_one_argument() {
    let spec = empty_spec();
    let sp = spawner(&spec, vec![]);
    let prepared =
        PreparedArgs(vec![PreparedArg::BinaryName, PreparedArg::Entrypoint, PreparedArg::Trigger]);
    let mut trigger = TriggerData::Pipe("hello".to_string());
    let argv = prepared.clone().prepare_void(&sp, "printer", &mut trigger).unwrap();
    assert_eq!(argv, vec!["/entrypoint", "printer", "hello"]);
    let mut trigger = TriggerData::Pipe("world".to_string());
    let argv = prepared.prepare_void(&sp, "printer", &mut trigger).unwrap();
    assert_eq!(argv, vec!["/entrypoint", "printer", "world"]);
    assert_eq!(trigger, TriggerData::Pipe("world".to_string()));
}

#[test]
fn received_descriptors_become_one_argument_each_and_are_released_once() {
    let spec = empty_spec();
    let sp = spawner(&spec, vec![]);
    let prepared =
        PreparedArgs(vec![PreparedArg::BinaryName, PreparedArg::Trigger, PreparedArg::Trigger]);
    let mut trigger = TriggerData::FileSocket(vec![5, 6, 17]);
    let argv = prepared.prepare_void(&sp, "consumer", &mut trigger).unwrap();
    assert_eq!(argv, vec!["/entrypoint", "5", "6", "17"]);
    assert_eq!(trigger, TriggerData::FileSocket(vec![]));
}

#[test]
fn empty_payloads_yield_no_argument() {
    let spec = empty_spec();
    let sp = spawner(&spec, vec![]);
    let prepared = PreparedArgs(vec![PreparedArg::Trigger]);
    assert!(prepared
        .clone()
        .prepare_void(&sp, "e", &mut TriggerData::Nothing)
        .unwrap()
        .is_empty());
    assert!(prepared
        .prepare_void(&sp, "e", &mut TriggerData::FileSocket(vec![]))
        .unwrap()
        .is_empty());
    assert!(TriggerData::Nothing.args().is_empty());
    assert_eq!(TriggerData::Pipe("x".to_string()).args(), vec!["x"]);
}

#[test]
fn trailing_arguments_are_passed_through() {
    let spec = empty_spec();
    let sp = spawner(&spec, vec!["--flag", "value"]);
    let prepared =
        PreparedArgs(vec![PreparedArg::BinaryName, PreparedArg::Trailing, PreparedArg::Entrypoint]);
    let argv = prepared.prepare_void(&sp, "main", &mut TriggerData::Nothing).unwrap();
    assert_eq!(argv, vec!["/entrypoint", "--flag", "value", "main"]);
    let none = spawner(&spec, vec![]);
    let argv = PreparedArgs(vec![PreparedArg::Trailing])
        .prepare_void(&none, "main", &mut TriggerData::Nothing)
        .unwrap();
    assert!(argv.is_empty());
}

#[test]
fn delivered_descriptors_are_those_of_the_arguments() {
    let prepared = PreparedArgs(vec![
        PreparedArg::BinaryName,
        PreparedArg::Pipe(11),
        PreparedArg::Trigger,
        PreparedArg::File(30),
        PreparedArg::FileSocket(20),
        PreparedArg::Entrypoint,
        PreparedArg::TcpListener { socket: 31 },
        PreparedArg::Trailing,
    ]);
    assert_eq!(prepared.descriptors(), vec![11, 30, 20, 31]);
    assert!(PreparedArgs(vec![PreparedArg::BinaryName]).descriptors().is_empty());
    assert!(PreparedArgs(vec![]).descriptors().is_empty());
}

#[test]
fn trigger_data_carries_descriptors_for_sockets_only() {
    assert_eq!(TriggerData::FileSocket(vec![5, 6]).descriptors(), vec![5, 6]);
    assert!(TriggerData::Pipe("x".to_string()).descriptors().is_empty());
    assert!(TriggerData::Nothing.descriptors().is_empty());
}
