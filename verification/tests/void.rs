use void_orchestrator::void::{
    bind_action, flags_for_exec, relative, under_new_root, under_old_root, BindAction, Found,
    VoidBuilder, VoidHandle, VoidStep, CLONE_NEWCGROUP, CLONE_NEWIPC, CLONE_NEWNET, CLONE_NEWNS,
    CLONE_NEWPID, CLONE_NEWUSER, CLONE_NEWUTS,
};

fn bind(source: &str, target: &str) -> VoidStep {
    VoidStep::BindMount { source: source.to_string(), target: target.to_string() }
}

#[test]
fn host_paths_are_found_below_the_old_root() {
    assert_eq!(under_old_root("/dev/null"), "/old_root/dev/null");
    assert_eq!(under_old_root("/usr/bin/env"), "/old_root/usr/bin/env");
    assert_eq!(under_old_root("relative/path"), "/old_root/relative/path");
    assert_eq!(under_new_root("/entrypoint"), "/entrypoint");
    assert_eq!(under_new_root("proc"), "/proc");
}

#[test]
fn root_is_taken_off_absolute_paths_only() {
    assert_eq!(relative("/dev/null"), "dev/null");
    assert_eq!(relative("dev/null"), "dev/null");
    assert_eq!(relative("/"), "");
}

#[test]
fn handle_is_written_with_its_pid() {
    assert_eq!(VoidHandle { pid: 4242 }.describe(), "Void{Pid:4242}");
}

#[test]
fn user_namespace_maps_root_to_the_parent() {
    let steps = VoidBuilder::new().void_user_namespace(1000, 100);
    assert_eq!(
        steps,
        vec![
            VoidStep::WriteFile {
                path: "/proc/self/uid_map".to_string(),
                contents: "0 1000 1\n".to_string()
            },
            VoidStep::WriteFile {
                path: "/proc/self/setgroups".to_string(),
                contents: "deny\n".to_string()
            },
            VoidStep::WriteFile {
                path: "/proc/self/gid_map".to_string(),
                contents: "0 100 1\n".to_string()
            },
        ]
    );
}

#[test]
fn empty_void_mounts_dev_null_only() {
    let steps = VoidBuilder::new().void_mount_namespace();
    assert_eq!(
        steps,
        vec![
            VoidStep::PrivateRoot,
            VoidStep::NewRoot,
            VoidStep::PivotRoot,
            bind("/old_root/dev/null", "/dev/null"),
            VoidStep::DetachOldRoot,
        ]
    );
}

#[test]
fn granted_mounts_come_in_order_and_replace_by_source() {
    let mut builder = VoidBuilder::new();
    builder.mount("/usr/bin/app", "/entrypoint");
    builder.mount("/etc/app", "/etc/app");
    builder.mount("/usr/bin/app", "/bin/app");
    builder.mount("/proc", "/proc");
    builder.remount_proc();
    assert_eq!(
        builder.void_mount_namespace(),
        vec![
            VoidStep::PrivateRoot,
            VoidStep::NewRoot,
            VoidStep::PivotRoot,
            bind("/old_root/usr/bin/app", "/bin/app"),
            bind("/old_root/etc/app", "/etc/app"),
            bind("/old_root/proc", "/proc"),
            bind("/old_root/dev/null", "/dev/null"),
            VoidStep::MountProc,
            VoidStep::DetachOldRoot,
        ]
    );
}

#[test]
fn granted_dev_null_is_not_mounted_twice_nor_detached() {
    let mut builder = VoidBuilder::new();
    builder.mount("/dev/null", "/dev/null");
    assert_eq!(
        builder.void_mount_namespace(),
        vec![
            VoidStep::PrivateRoot,
            VoidStep::NewRoot,
            VoidStep::PivotRoot,
            bind("/old_root/dev/null", "/dev/null"),
            VoidStep::DetachOldRoot,
        ]
    );
    assert_eq!(
        builder.void_file_descriptors(),
        vec![
            VoidStep::CloseDescriptors { from: 3, keep: vec![] },
            VoidStep::NullDescriptor { fd: 0 },
            VoidStep::NullDescriptor { fd: 1 },
            VoidStep::NullDescriptor { fd: 2 },
        ]
    );
}

#[test]
fn kept_descriptors_survive_and_lose_close_on_exec() {
    let mut builder = VoidBuilder::new();
    builder.keep_fd(7);
    builder.keep_fd(1);
    builder.keep_fd(7);
    builder.keep_fd(12);
    assert!(builder.keeps(7));
    assert!(builder.keeps(1));
    assert!(!builder.keeps(0));
    assert_eq!(
        builder.void_file_descriptors(),
        vec![
            VoidStep::CloseDescriptors { from: 3, keep: vec![7, 1, 12] },
            VoidStep::NullDescriptor { fd: 0 },
            VoidStep::NullDescriptor { fd: 2 },
            VoidStep::DetachDevNull,
            VoidStep::ClearCloseOnExec { fd: 7 },
            VoidStep::ClearCloseOnExec { fd: 1 },
            VoidStep::ClearCloseOnExec { fd: 12 },
        ]
    );
}

#[test]
fn names_default_to_void_and_none() {
    let mut builder = VoidBuilder::new();
    assert_eq!(
        builder.void_uts_namespace(),
        vec![
            VoidStep::SetHostname("void".to_string()),
            VoidStep::SetDomainName("(none)".to_string())
        ]
    );
    builder.set_hostname("box");
    builder.set_domain_name("example.org");
    assert_eq!(
        builder.void_uts_namespace(),
        vec![
            VoidStep::SetHostname("box".to_string()),
            VoidStep::SetDomainName("example.org".to_string())
        ]
    );
}

#[test]
fn namespaces_that_are_born_empty_need_no_step() {
    let builder = VoidBuilder::new();
    assert!(builder.void_ipc_namespace().is_empty());
    assert!(builder.void_network_namespace().is_empty());
    assert!(builder.void_pid_namespace().is_empty());
    assert!(builder.void_cgroup_namespace().is_empty());
}

#[test]
fn spawn_plan_clones_into_seven_namespaces_and_voids_in_order() {
    let mut builder = VoidBuilder::new();
    builder.keep_fd(5);
    builder.set_hostname("box");
    let plan = builder.spawn(1000, 1000);
    assert_eq!(plan.clone.flags, 0x7E02_0000);
    assert_eq!(plan.clone.exit_signal, Some(libc::SIGCHLD));
    assert!(!plan.clone.pidfd && !plan.clone.child_tid && !plan.clone.parent_tid);
    assert_eq!(plan.clone.stack, None);
    assert_eq!(plan.clone.set_tid, None);
    assert_eq!(plan.clone.cgroup, None);
    let mut expected = vec![VoidStep::IgnoreHangup];
    expected.extend(builder.void_user_namespace(1000, 1000));
    expected.extend(builder.void_mount_namespace());
    expected.extend(builder.void_file_descriptors());
    expected.extend(builder.void_uts_namespace());
    assert_eq!(plan.steps, expected);
    assert_eq!(plan.steps.len(), 1 + 3 + 5 + 6 + 2);
    assert_eq!(
        plan.steps[1],
        VoidStep::WriteFile {
            path: "/proc/self/uid_map".to_string(),
            contents: "0 1000 1\n".to_string()
        }
    );
    assert_eq!(plan.steps[plan.steps.len() - 2], VoidStep::SetHostname("box".to_string()));
}

#[test]
fn procfs_is_mounted_only_where_granted() {
    let without = VoidBuilder::new().spawn(0, 0).steps;
    assert!(!without.contains(&VoidStep::MountProc));
    let mut builder = VoidBuilder::new();
    builder.remount_proc();
    assert!(builder.spawn(0, 0).steps.contains(&VoidStep::MountProc));
}

#[test]
fn close_on_exec_is_dropped_from_descriptor_flags() {
    assert_eq!(flags_for_exec(libc::FD_CLOEXEC), 0);
    assert_eq!(flags_for_exec(0), 0);
}

#[test]
fn joined_paths_follow_the_base_unless_absolute() {
    assert_eq!(under_old_root("/etc/hosts"), "/old_root/etc/hosts");
    assert_eq!(under_old_root(""), "/old_root/");
    assert_eq!(under_new_root(""), "/");
    assert_eq!(under_new_root("/a/b/"), "/a/b");
}

#[test]
fn links_are_followed_once_below_the_old_root() {
    assert_eq!(
        bind_action("/old_root/bin", &Found::Link("/usr/bin".to_string()), false),
        BindAction::Follow("/old_root/usr/bin".to_string())
    );
    assert_eq!(
        bind_action("/old_root/lib", &Found::Link("usr/lib".to_string()), false),
        BindAction::Follow("/old_root/usr/lib".to_string())
    );
    assert_eq!(
        bind_action("/old_root/usr/bin", &Found::Link("/x".to_string()), true),
        BindAction::Mount { source: "/old_root/usr/bin".to_string(), directory: false }
    );
}

#[test]
fn targets_match_what_is_found_at_the_source() {
    for followed in [false, true] {
        assert_eq!(
            bind_action("/old_root/etc", &Found::Directory, followed),
            BindAction::Mount { source: "/old_root/etc".to_string(), directory: true }
        );
        assert_eq!(
            bind_action("/old_root/dev/null", &Found::Other, followed),
            BindAction::Mount { source: "/old_root/dev/null".to_string(), directory: false }
        );
    }
}

#[test]
fn the_seven_namespace_flags_are_distinct_bits() {
    let flags = [
        (CLONE_NEWCGROUP, libc::CLONE_NEWCGROUP),
        (CLONE_NEWIPC, libc::CLONE_NEWIPC),
        (CLONE_NEWNET, libc::CLONE_NEWNET),
        (CLONE_NEWNS, libc::CLONE_NEWNS),
        (CLONE_NEWPID, libc::CLONE_NEWPID),
        (CLONE_NEWUSER, libc::CLONE_NEWUSER),
        (CLONE_NEWUTS, libc::CLONE_NEWUTS),
    ];
    let mut union = 0u64;
    for (ours, theirs) in flags {
        assert_eq!(ours, theirs as u64);
        assert_eq!(ours.count_ones(), 1);
        assert_eq!(union & ours, 0);
        union |= ours;
    }
    assert_eq!(union, 0x7E02_0000);
    assert_eq!(VoidBuilder::new().spawn(0, 0).clone.flags, union);
}
