use void_orchestrator::args::{PreparedArg, PreparedArgs, TriggerData};
use void_orchestrator::error::Error;
use void_orchestrator::fabric::{create_pipes, create_sockets};
use void_orchestrator::spawner::{
    Launch, PipeArrival, SocketArrival, Spawner, TriggerStep, BUFFER_SIZE, MAX_FILE_DESCRIPTORS,
};
use void_orchestrator::specification::{
    Arg, Entrypoint, Environment, FileSocket, Pipe, Specification, Trigger,
};
use void_orchestrator::void::{VoidBuilder, VoidStep};

fn bind(source: &str, target: &str) -> VoidStep {
    VoidStep::BindMount { source: source.to_string(), target: target.to_string() }
}

fn application() -> Specification {
    Specification {
        entrypoints: vec![
            (
                "sender".to_string(),
                Entrypoint {
                    trigger: Trigger::Startup,
                    args: vec![
                        Arg::BinaryName,
                        Arg::Entrypoint,
                        Arg::Pipe(Pipe::Tx("p".to_string())),
                        Arg::FileSocket(FileSocket::Tx("s".to_string())),
                    ],
                    environment: vec![
                        Environment::Hostname("sender".to_string()),
                        Environment::Stdout,
                    ],
                },
            ),
            (
                "printer".to_string(),
                Entrypoint {
                    trigger: Trigger::Pipe("p".to_string()),
                    args: vec![
                        Arg::BinaryName,
                        Arg::Entrypoint,
                        Arg::Trigger,
                        Arg::File("/etc/printer.conf".to_string()),
                    ],
                    environment: vec![
                        Environment::Filesystem {
                            host_path: "/var/spool".to_string(),
                            environment_path: "/spool".to_string(),
                        },
                        Environment::Procfs,
                    ],
                },
            ),
            (
                "consumer".to_string(),
                Entrypoint {
                    trigger: Trigger::FileSocket("s".to_string()),
                    args: vec![Arg::BinaryName, Arg::Trigger],
                    environment: vec![Environment::Stderr],
                },
            ),
        ],
    }
}

fn spawner(spec: &Specification) -> Spawner<'_> {
    Spawner {
        spec,
        binary: "/entrypoint".to_string(),
        binary_args: vec![],
        debug: false,
        pipes: create_pipes(&vec!["p".to_string()], &vec![(10, 11)]),
        sockets: create_sockets(&vec!["s".to_string()], &vec![(20, 21)]),
    }
}

#[test]
fn buffers_are_sized_for_a_record_and_sixteen_descriptors() {
    assert_eq!(BUFFER_SIZE, 1024);
    assert_eq!(MAX_FILE_DESCRIPTORS, 16);
}

#[test]
fn startup_entrypoint_gets_its_void_and_arguments() {
    let spec = application();
    let mut sp = spawner(&spec);
    let launch = sp.spawn(0, "/opt/app/bin", &vec![33]).unwrap();
    match launch {
        Launch::Startup { builder, args } => {
            assert_eq!(
                args,
                PreparedArgs(vec![
                    PreparedArg::BinaryName,
                    PreparedArg::Entrypoint,
                    PreparedArg::Pipe(11),
                    PreparedArg::FileSocket(33),
                ])
            );
            assert_eq!(builder.void_mount_namespace()[3], bind("/old_root/opt/app/bin", "/entrypoint"));
            assert_eq!(
                builder.void_file_descriptors(),
                vec![
                    VoidStep::CloseDescriptors { from: 3, keep: vec![1, 11, 33] },
                    VoidStep::NullDescriptor { fd: 0 },
                    VoidStep::NullDescriptor { fd: 2 },
                    VoidStep::DetachDevNull,
                    VoidStep::ClearCloseOnExec { fd: 1 },
                    VoidStep::ClearCloseOnExec { fd: 11 },
                    VoidStep::ClearCloseOnExec { fd: 33 },
                ]
            );
            assert_eq!(builder.void_uts_namespace()[0], VoidStep::SetHostname("sender".to_string()));
        }
        other => panic!("unexpected launch: {:?}", other),
    }
    assert_eq!(sp.pipes[0].take_write(), Err(Error::BadPipe("p".to_string())));
}

#[test]
fn pipe_triggered_entrypoint_gets_a_supervisor() {
    let spec = application();
    let mut sp = spawner(&spec);
    match sp.spawn(1, "/opt/app/bin", &vec![]).unwrap() {
        Launch::PipeTrigger { builder, pipe } => {
            assert_eq!(pipe, 10);
            assert_eq!(
                builder.void_mount_namespace(),
                vec![
                    VoidStep::PrivateRoot,
                    VoidStep::NewRoot,
                    VoidStep::PivotRoot,
                    bind("/old_root/opt/app/bin", "/entrypoint"),
                    bind("/old_root/var/spool", "/var/spool"),
                    bind("/old_root/etc/printer.conf", "/etc/printer.conf"),
                    bind("/old_root/proc", "/proc"),
                    bind("/old_root/dev/null", "/dev/null"),
                    VoidStep::MountProc,
                    VoidStep::DetachOldRoot,
                ]
            );
            assert_eq!(
                builder.void_file_descriptors()[0],
                VoidStep::CloseDescriptors { from: 3, keep: vec![10, 1, 2] }
            );
        }
        other => panic!("unexpected launch: {:?}", other),
    }
    assert_eq!(sp.spawn(1, "/opt/app/bin", &vec![]).unwrap_err(), Error::BadPipe("p".to_string()));
}

#[test]
fn socket_triggered_entrypoint_gets_a_supervisor() {
    let spec = application();
    let mut sp = spawner(&spec);
    match sp.spawn(2, "/opt/app/bin", &vec![]).unwrap() {
        Launch::FileSocketTrigger { builder, socket } => {
            assert_eq!(socket, 20);
            assert!(builder.keeps(20) && builder.keeps(1) && builder.keeps(2));
            assert!(!builder.keeps(0) && !builder.keeps(21));
        }
        other => panic!("unexpected launch: {:?}", other),
    }
    assert_eq!(
        sp.spawn(2, "/opt/app/bin", &vec![]).unwrap_err(),
        Error::BadFileSocket("s".to_string())
    );
    assert_eq!(sp.sockets[0].write(), Ok(21));
}

#[test]
fn supervisor_of_a_missing_channel_is_an_error() {
    let spec = application();
    let mut sp = spawner(&spec);
    sp.pipes.clear();
    sp.sockets.clear();
    assert_eq!(sp.spawn(1, "/b", &vec![]).unwrap_err(), Error::BadPipe("p".to_string()));
    assert_eq!(sp.spawn(2, "/b", &vec![]).unwrap_err(), Error::BadFileSocket("s".to_string()));
}

#[test]
fn every_arrival_gets_a_fresh_void() {
    let spec = application();
    let sp = spawner(&spec);
    let data = TriggerData::Pipe("hello".to_string());
    let (builder, args) = sp.trigger_void(1, &data, &vec![44]).unwrap();
    assert_eq!(
        args,
        PreparedArgs(vec![
            PreparedArg::BinaryName,
            PreparedArg::Entrypoint,
            PreparedArg::Trigger,
            PreparedArg::File(44),
        ])
    );
    assert_eq!(
        builder.void_mount_namespace(),
        vec![
            VoidStep::PrivateRoot,
            VoidStep::NewRoot,
            VoidStep::PivotRoot,
            bind("/old_root/entrypoint", "/entrypoint"),
            bind("/old_root/var/spool", "/spool"),
            bind("/old_root/proc", "/proc"),
            bind("/old_root/dev/null", "/dev/null"),
            VoidStep::MountProc,
            VoidStep::DetachOldRoot,
        ]
    );
    let mut data = data;
    assert_eq!(
        args.prepare_void(&sp, "printer", &mut data).unwrap(),
        vec!["/entrypoint", "printer", "hello", "44"]
    );
    let fds = TriggerData::FileSocket(vec![8, 9]);
    let (builder, args) = sp.trigger_void(2, &fds, &vec![]).unwrap();
    assert_eq!(
        builder.void_file_descriptors()[0],
        VoidStep::CloseDescriptors { from: 3, keep: vec![8, 9, 2] }
    );
    let mut fds = fds;
    assert_eq!(args.prepare_void(&sp, "consumer", &mut fds).unwrap(), vec!["/entrypoint", "8", "9"]);
}

#[test]
fn capabilities_are_applied_in_order() {
    let spec = application();
    let sp = spawner(&spec);
    let mut builder = VoidBuilder::new();
    sp.prepare_env(
        &mut builder,
        &vec![
            Environment::Hostname("first".to_string()),
            Environment::Hostname("second".to_string()),
            Environment::DomainName("dom".to_string()),
            Environment::Stdin,
            Environment::Stderr,
            Environment::Stdout,
            Environment::Filesystem {
                host_path: "/data".to_string(),
                environment_path: "/mnt".to_string(),
            },
        ],
    );
    assert_eq!(
        builder.void_uts_namespace(),
        vec![
            VoidStep::SetHostname("second".to_string()),
            VoidStep::SetDomainName("dom".to_string())
        ]
    );
    assert_eq!(
        builder.void_file_descriptors(),
        vec![
            VoidStep::CloseDescriptors { from: 3, keep: vec![0, 2, 1] },
            VoidStep::DetachDevNull,
            VoidStep::ClearCloseOnExec { fd: 0 },
            VoidStep::ClearCloseOnExec { fd: 2 },
            VoidStep::ClearCloseOnExec { fd: 1 },
        ]
    );
    assert_eq!(builder.void_mount_namespace()[3], bind("/old_root/data", "/mnt"));
    assert!(!builder.void_mount_namespace().contains(&VoidStep::MountProc));
}

#[test]
fn entrypoint_is_mounted_at_its_fixed_place() {
    let spec = application();
    let sp = spawner(&spec);
    let mut builder = VoidBuilder::new();
    assert_eq!(sp.mount_entrypoint(&mut builder, "/usr/local/bin/app"), Ok(()));
    assert_eq!(builder.void_mount_namespace()[3], bind("/old_root/usr/local/bin/app", "/entrypoint"));
}

#[test]
fn zero_length_read_ends_the_worker_cleanly() {
    let spec = application();
    let sp = spawner(&spec);
    let step = sp.pipe_trigger(PipeArrival::Read(String::new()));
    assert_eq!(step, TriggerStep::Stop);
    assert_eq!(Spawner::supervisor_exit_code(&Ok(())), 0);
    assert_eq!(Spawner::supervisor_exit_code(&Err(Error::BadSpecType)), 1);
}

#[test]
fn interrupted_waits_end_the_worker_cleanly() {
    let spec = application();
    let sp = spawner(&spec);
    assert_eq!(sp.pipe_trigger(PipeArrival::Failed { errno: libc::EINTR }), TriggerStep::Stop);
    assert_eq!(
        sp.file_socket_trigger(SocketArrival::Failed { errno: libc::EINTR }),
        TriggerStep::Stop
    );
}

#[test]
fn other_failures_are_errors() {
    let spec = application();
    let sp = spawner(&spec);
    assert_eq!(
        sp.pipe_trigger(PipeArrival::Failed { errno: libc::EBADF }),
        TriggerStep::Fail(Error::Io(format!("os error {}", libc::EBADF)))
    );
    assert_eq!(
        sp.file_socket_trigger(SocketArrival::Failed { errno: libc::ENOTSOCK }),
        TriggerStep::Fail(Error::Syscall { op: "recvmsg".to_string(), errno: libc::ENOTSOCK })
    );
}

#[test]
fn each_record_spawns_one_void() {
    let spec = application();
    let sp = spawner(&spec);
    let mut spawned = Vec::new();
    for record in ["hello", "world", "again"] {
        match sp.pipe_trigger(PipeArrival::Read(record.to_string())) {
            TriggerStep::Spawn(data) => spawned.extend(data),
            other => panic!("unexpected step: {:?}", other),
        }
    }
    assert_eq!(
        spawned,
        vec![
            TriggerData::Pipe("hello".to_string()),
            TriggerData::Pipe("world".to_string()),
            TriggerData::Pipe("again".to_string()),
        ]
    );
}

#[test]
fn each_group_of_descriptors_spawns_one_void() {
    let spec = application();
    let sp = spawner(&spec);
    assert_eq!(
        sp.file_socket_trigger(SocketArrival::Received(vec![vec![5], vec![], vec![6, 7]])),
        TriggerStep::Spawn(vec![
            TriggerData::FileSocket(vec![5]),
            TriggerData::FileSocket(vec![]),
            TriggerData::FileSocket(vec![6, 7]),
        ])
    );
    assert_eq!(
        sp.file_socket_trigger(SocketArrival::Received(vec![])),
        TriggerStep::Spawn(vec![])
    );
}

#[test]
fn valid_application_launches_without_failure() {
    let spec = application();
    assert_eq!(spec.validate(), Ok(()));
    let (pipe_names, _) = spec.pipes();
    let (socket_names, _) = spec.sockets();
    let mut sp = Spawner {
        spec: &spec,
        binary: "/entrypoint".to_string(),
        binary_args: vec![],
        debug: false,
        pipes: create_pipes(&pipe_names, &vec![(10, 11)]),
        sockets: create_sockets(&socket_names, &vec![(20, 21)]),
    };
    for (index, (_, entrypoint)) in spec.entrypoints.iter().enumerate() {
        let granted: Vec<i32> = if entrypoint.trigger == Trigger::Startup {
            let requests = PreparedArgs::ambient_requests(&entrypoint.args);
            (0..requests.len()).map(|k| 100 + k as i32).collect()
        } else {
            Vec::new()
        };
        assert!(sp.spawn(index, "/opt/app/bin", &granted).is_ok());
    }
    assert_eq!(sp.pipes[0].take_read(), Err(Error::BadPipe("p".to_string())));
    assert_eq!(sp.pipes[0].take_write(), Err(Error::BadPipe("p".to_string())));
    assert_eq!(sp.sockets[0].take_read(), Err(Error::BadFileSocket("s".to_string())));
    assert_eq!(sp.sockets[0].write(), Ok(21));
}

#[test]
fn listener_is_handed_over_and_is_for_the_parent_to_close() {
    let spec = Specification {
        entrypoints: vec![(
            "server".to_string(),
            Entrypoint {
                trigger: Trigger::Startup,
                args: vec![Arg::BinaryName, Arg::TcpListener { addr: "127.0.0.1:0".to_string() }],
                environment: vec![],
            },
        )],
    };
    let mut sp = spawner(&spec);
    let launch = sp.spawn(0, "/opt/app/bin", &vec![7]).unwrap();
    assert_eq!(launch.delivered(), vec![7]);
    match launch {
        Launch::Startup { builder, args } => {
            assert!(builder.keeps(7));
            assert_eq!(
                args.prepare_void(&sp, "server", &mut TriggerData::Nothing).unwrap(),
                vec!["/entrypoint", "7"]
            );
        }
        other => panic!("unexpected launch: {:?}", other),
    }
}

#[test]
fn every_launch_lists_what_it_hands_over() {
    let spec = application();
    let mut sp = spawner(&spec);
    let startup = sp.spawn(0, "/opt/app/bin", &vec![33]).unwrap();
    assert_eq!(startup.delivered(), vec![11, 33]);
    let pipe = sp.spawn(1, "/opt/app/bin", &vec![]).unwrap();
    assert_eq!(pipe.delivered(), vec![10]);
    let socket = sp.spawn(2, "/opt/app/bin", &vec![]).unwrap();
    assert_eq!(socket.delivered(), vec![20]);
}
