use void_orchestrator::error::Error;
use void_orchestrator::run::{
    classify_source, detached_exit_code, embedded_specification, file_source, reap, run,
    specification_source, Reaped, RunArgs, RunPlan, SpecSource, Waited,
};
use void_orchestrator::specification::{
    Arg, Entrypoint, Environment, Pipe, Specification, Trigger,
};

fn args(spec: Option<&str>) -> RunArgs {
    RunArgs {
        spec: spec.map(|s| s.to_string()),
        debug: false,
        daemon: false,
        stdout: false,
        stderr: false,
        binary: "/bin/app".to_string(),
        binary_args: vec![],
    }
}

#[test]
fn json_files_are_accepted() {
    assert_eq!(
        specification_source(&args(Some("/etc/app.json"))),
        Ok(SpecSource::Json("/etc/app.json".to_string()))
    );
}

#[test]
fn other_files_are_refused() {
    assert_eq!(specification_source(&args(Some("/etc/app.yaml"))), Err(Error::BadSpecType));
    assert_eq!(specification_source(&args(Some("/etc/json"))), Err(Error::BadSpecType));
    assert_eq!(specification_source(&args(Some("/etc/app.JSON"))), Err(Error::BadSpecType));
    assert_eq!(
        classify_source(&"x".to_string(), &Some("json".to_string())),
        Ok(SpecSource::Json("x".to_string()))
    );
    assert_eq!(classify_source(&"x.json".to_string(), &None), Err(Error::BadSpecType));
}

#[test]
fn without_a_file_the_binary_is_asked() {
    assert_eq!(specification_source(&args(None)), Ok(SpecSource::Embedded));
    assert_eq!(embedded_specification(None), Err(Error::NoSpecification));
    let spec = Specification { entrypoints: vec![] };
    assert_eq!(embedded_specification(Some(spec.clone())), Ok(spec));
}

#[test]
fn run_lists_the_channels_to_create() {
    let mut spec = Specification {
        entrypoints: vec![
            (
                "a".to_string(),
                Entrypoint {
                    trigger: Trigger::Pipe("p".to_string()),
                    args: vec![Arg::BinaryName],
                    environment: vec![],
                },
            ),
            (
                "b".to_string(),
                Entrypoint {
                    trigger: Trigger::Startup,
                    args: vec![Arg::Pipe(Pipe::Tx("p".to_string()))],
                    environment: vec![],
                },
            ),
        ],
    };
    let mut a = args(None);
    a.stderr = true;
    assert_eq!(run(&a, &mut spec), Ok(RunPlan { pipes: vec!["p".to_string()], sockets: vec![] }));
    assert_eq!(spec.entrypoints[0].1.environment, vec![Environment::Stderr]);
    assert_eq!(spec.entrypoints[1].1.environment, vec![Environment::Stderr]);
}

#[test]
fn topology_error_stops_the_run() {
    let reader = Entrypoint {
        trigger: Trigger::Startup,
        args: vec![Arg::Pipe(Pipe::Rx("x".to_string()))],
        environment: vec![],
    };
    let mut spec =
        Specification { entrypoints: vec![("a".to_string(), reader.clone()), ("b".to_string(), reader)] };
    assert_eq!(run(&args(None), &mut spec), Err(Error::BadPipe("x".to_string())));
}

#[test]
fn daemon_leaves_at_once() {
    let mut a = args(None);
    assert_eq!(detached_exit_code(&a), None);
    a.daemon = true;
    assert_eq!(detached_exit_code(&a), Some(0));
}

#[test]
fn first_failure_is_the_exit_code() {
    let mut code = 0;
    for exited in [0, 3, 0, 7] {
        match reap(code, Waited::Exited { pid: 100, code: exited }) {
            Reaped::Waiting { exit_code } => code = exit_code,
            other => panic!("unexpected: {:?}", other),
        }
    }
    assert_eq!(code, 3);
    assert_eq!(reap(code, Waited::Failed { errno: libc::ECHILD }), Reaped::Done { exit_code: 3 });
}

#[test]
fn clean_exits_give_zero() {
    assert_eq!(reap(0, Waited::Exited { pid: 1, code: 0 }), Reaped::Waiting { exit_code: 0 });
    assert_eq!(reap(0, Waited::Signaled { pid: 1, signal: 9 }), Reaped::Waiting { exit_code: 0 });
    assert_eq!(reap(0, Waited::Failed { errno: libc::ECHILD }), Reaped::Done { exit_code: 0 });
}

#[test]
fn interrupted_wait_is_tried_again() {
    assert_eq!(reap(5, Waited::Failed { errno: libc::EINTR }), Reaped::Waiting { exit_code: 5 });
}

#[test]
fn failed_wait_is_an_error() {
    assert_eq!(
        reap(0, Waited::Failed { errno: libc::EINVAL }),
        Reaped::Failed(Error::Syscall { op: "waitpid".to_string(), errno: libc::EINVAL })
    );
}

#[test]
fn files_are_accepted_by_their_extension() {
    assert_eq!(
        file_source(&"app.json".to_string()),
        Ok(SpecSource::Json("app.json".to_string()))
    );
    assert_eq!(file_source(&"app.toml".to_string()), Err(Error::BadSpecType));
    assert_eq!(file_source(&".json".to_string()), Err(Error::BadSpecType));
    assert_eq!(file_source(&"".to_string()), Err(Error::BadSpecType));
}
