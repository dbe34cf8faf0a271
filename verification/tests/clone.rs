use void_orchestrator::clone::{clone3, CloneArgs, CloneArgsFfi, CloneOutputs, Cloned};

#[test]
fn bare_request_packs_to_flags_only() {
    let args = CloneArgs::new(0x2000_0000);
    let ffi = args.process(0x1000, 0x2000, 0x3000);
    assert_eq!(
        ffi,
        CloneArgsFfi {
            flags: 0x2000_0000,
            pidfd: 0,
            child_tid: 0,
            parent_tid: 0,
            exit_signal: 0,
            stack: 0,
            stack_size: 0,
            tls: 0,
            set_tid: 0,
            set_tid_size: 0,
            cgroup: 0,
        }
    );
}

#[test]
fn full_request_packs_every_field() {
    let mut args = CloneArgs::new(0x7E02_0000);
    args.pidfd = true;
    args.child_tid = true;
    args.parent_tid = true;
    args.exit_signal = Some(17);
    args.stack = Some((0xdead_0000, 4096));
    args.set_tid = Some((0xbeef_0000, 2));
    args.cgroup = Some(9);
    let ffi = args.process(0x1000, 0x2000, 0x3000);
    assert_eq!(
        ffi,
        CloneArgsFfi {
            flags: 0x7E02_0000,
            pidfd: 0x1000,
            child_tid: 0x2000,
            parent_tid: 0x3000,
            exit_signal: 17,
            stack: 0xdead_0000,
            stack_size: 4096,
            tls: 0,
            set_tid: 0xbeef_0000,
            set_tid_size: 2,
            cgroup: 9,
        }
    );
}

#[test]
fn slots_are_read_where_they_were_requested() {
    let mut args = CloneArgs::new(0);
    args.pidfd = true;
    assert_eq!(
        args.finalise(11, 12, 13),
        CloneOutputs { pidfd: Some(11), child_tid: None, parent_tid: None }
    );
    args.pidfd = false;
    args.parent_tid = true;
    args.child_tid = true;
    assert_eq!(
        args.finalise(11, 12, 13),
        CloneOutputs { pidfd: None, child_tid: Some(12), parent_tid: Some(13) }
    );
}

#[test]
fn returned_value_tells_child_parent_and_failure_apart() {
    let mut args = CloneArgs::new(0);
    args.pidfd = true;
    assert_eq!(
        clone3(&args, 0, 0, 6, 0, 0),
        Cloned::Child {
            outputs: CloneOutputs { pidfd: Some(6), child_tid: None, parent_tid: None }
        }
    );
    assert_eq!(
        clone3(&args, 4321, 0, 5, 0, 0),
        Cloned::Parent {
            pid: 4321,
            outputs: CloneOutputs { pidfd: Some(5), child_tid: None, parent_tid: None }
        }
    );
    assert_eq!(clone3(&args, -1, 1, 0, 0, 0), Cloned::Failed { errno: 1 });
}

#[test]
fn every_negative_return_is_a_failure() {
    let args = CloneArgs::new(0);
    assert_eq!(clone3(&args, -2, 1, 0, 0, 0), Cloned::Failed { errno: 1 });
    assert_eq!(clone3(&args, -22, 22, 7, 8, 9), Cloned::Failed { errno: 22 });
    assert_eq!(clone3(&args, i64::MIN, 12, 0, 0, 0), Cloned::Failed { errno: 12 });
    assert_eq!(
        clone3(&args, 1, 12, 0, 0, 0),
        Cloned::Parent {
            pid: 1,
            outputs: CloneOutputs { pidfd: None, child_tid: None, parent_tid: None }
        }
    );
}
