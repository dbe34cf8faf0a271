//! The void builder: what a void is granted, and the fixed sequence of steps
//! that turns a freshly cloned child into that void.

use vstd::prelude::*;
use vstd::string::*;
use crate::clone::CloneArgs;
use crate::decimal::{decimal, decimal_nat, fd_to_string, unsigned_to_string};

verus! {

/// What `std::path::Path::strip_prefix` leaves of a path when the given
/// prefix is taken off its front; nothing where the path does not start with
/// the prefix.
pub uninterp spec fn path_stripped(path: Seq<char>, prefix: Seq<char>) -> Option<Seq<char>>;

/// What `std::path::Path::join` makes of a base directory and a path on
/// Unix: a path that starts at the root replaces the base; any other path
/// is put behind the base, after a `/` where the base is not empty and does
/// not end in one.
pub open spec fn path_joined(base: Seq<char>, path: Seq<char>) -> Seq<char> {
    if path.len() > 0 && path[0] == '/' {
        path
    } else if base.len() > 0 && base.last() != '/' {
        base + seq!['/'] + path
    } else {
        base + path
    }
}

/// Calls `std::path::Path::strip_prefix`. The contract only names the
/// result.
#[verifier::external_body]
fn strip_path_prefix(path: &str, prefix: &str) -> (rest: Option<String>)
    ensures
        name_view(rest) == path_stripped(path@, prefix@),
{
    match std::path::Path::new(path).strip_prefix(prefix) {
        Ok(rest) => Some(rest.to_string_lossy().into_owned()),
        Err(_) => None,
    }
}

/// Calls `std::path::Path::join`. The contract says what the join is on
/// Unix, where a path is absolute exactly when it starts with `/`.
#[verifier::external_body]
fn join_path(base: &str, path: &str) -> (joined: String)
    ensures
        joined@ == path_joined(base@, path@),
{
    std::path::Path::new(base).join(path).to_string_lossy().into_owned()
}

/// A path without the root at its front; a path that does not start at the
/// root is left as it is.
pub open spec fn relative_spec(path: Seq<char>) -> Seq<char> {
    match path_stripped(path, "/"@) {
        Some(rest) => rest,
        None => path,
    }
}

/// Where a path of the host is found once the old root has been pivoted away.
pub open spec fn under_old_root_spec(path: Seq<char>) -> Seq<char> {
    path_joined("/old_root/"@, relative_spec(path))
}

/// Where a path of the void lies below the new root.
pub open spec fn under_new_root_spec(path: Seq<char>) -> Seq<char> {
    path_joined("/"@, relative_spec(path))
}

/// Takes the root off the front of a path, if it is there.
pub fn relative(path: &str) -> (rest: String)
    ensures
        rest@ == relative_spec(path@),
{
    match strip_path_prefix(path, "/") {
        Some(rest) => rest,
        None => String::from_str(path),
    }
}

/// Resolves a host path below `/old_root/`.
pub fn under_old_root(path: &str) -> (resolved: String)
    ensures
        resolved@ == under_old_root_spec(path@),
{
    let rest = relative(path);
    join_path("/old_root/", rest.as_str())
}

/// Resolves a path of the void below the new root `/`.
pub fn under_new_root(path: &str) -> (resolved: String)
    ensures
        resolved@ == under_new_root_spec(path@),
{
    let rest = relative(path);
    join_path("/", rest.as_str())
}

/// A handle on a spawned void: the process id of the child.
#[derive(Debug, Clone, Copy)]
pub struct VoidHandle {
    pub pid: i32,
}

impl VoidHandle {
    /// The handle written out, as it appears in log lines.
    pub open spec fn describe_spec(self) -> Seq<char> {
        "Void{Pid:"@ + decimal(self.pid as int) + "}"@
    }

    /// Writes the handle out as `Void{Pid:<pid>}`.
    pub fn describe(&self) -> (text: String)
        ensures
            text@ == self.describe_spec(),
    {
        let pid = fd_to_string(self.pid);
        String::from_str("Void{Pid:").concat(pid.as_str()).concat("}")
    }
}

/// One step of the voiding sequence, carried out by the child in order.
#[derive(Debug, Clone, PartialEq, Eq)]
pub enum VoidStep {
    /// Ignore SIGHUP.
    IgnoreHangup,
    /// Open the file for writing, write all of the contents, close it.
    WriteFile { path: String, contents: String },
    /// Make `/` recursively private, so that no mount propagates back to the
    /// host.
    PrivateRoot,
    /// Create a fresh temporary directory and mount a tmpfs on it: the new root.
    NewRoot,
    /// Create `old_root/` in the new root, pivot into the new root and change
    /// directory to `/`.
    PivotRoot,
    /// Look at the source, follow it once if it is a link, create the target
    /// to match what is found, then bind-mount recursively.
    BindMount { source: String, target: String },
    /// Mount a fresh procfs at `/proc`.
    MountProc,
    /// Detach `/old_root` and remove its mount point.
    DetachOldRoot,
    /// Close every open descriptor from `from` on that is not in `keep`.
    CloseDescriptors { from: i32, keep: Vec<i32> },
    /// Duplicate a freshly opened `/dev/null` over the descriptor.
    NullDescriptor { fd: i32 },
    /// Detach `/dev/null` from the void.
    DetachDevNull,
    /// Clear the close-on-exec flag of the descriptor.
    ClearCloseOnExec { fd: i32 },
    /// Set the UTS host name.
    SetHostname(String),
    /// Set the UTS domain name.
    SetDomainName(String),
}

/// The mathematical value of a [`VoidStep`].
pub enum StepView {
    IgnoreHangup,
    WriteFile { path: Seq<char>, contents: Seq<char> },
    PrivateRoot,
    NewRoot,
    PivotRoot,
    BindMount { source: Seq<char>, target: Seq<char> },
    MountProc,
    DetachOldRoot,
    CloseDescriptors { from: int, keep: Seq<int> },
    NullDescriptor { fd: int },
    DetachDevNull,
    ClearCloseOnExec { fd: int },
    SetHostname(Seq<char>),
    SetDomainName(Seq<char>),
}

/// Descriptor numbers as integers.
pub open spec fn fd_views(fds: Seq<i32>) -> Seq<int> {
    fds.map_values(|fd: i32| fd as int)
}

impl View for VoidStep {
    type V = StepView;

    open spec fn view(&self) -> StepView {
        match *self {
            VoidStep::IgnoreHangup => StepView::IgnoreHangup,
            VoidStep::WriteFile { path, contents } => StepView::WriteFile {
                path: path@,
                contents: contents@,
            },
            VoidStep::PrivateRoot => StepView::PrivateRoot,
            VoidStep::NewRoot => StepView::NewRoot,
            VoidStep::PivotRoot => StepView::PivotRoot,
            VoidStep::BindMount { source, target } => StepView::BindMount {
                source: source@,
                target: target@,
            },
            VoidStep::MountProc => StepView::MountProc,
            VoidStep::DetachOldRoot => StepView::DetachOldRoot,
            VoidStep::CloseDescriptors { from, keep } => StepView::CloseDescriptors {
                from: from as int,
                keep: fd_views(keep@),
            },
            VoidStep::NullDescriptor { fd } => StepView::NullDescriptor { fd: fd as int },
            VoidStep::DetachDevNull => StepView::DetachDevNull,
            VoidStep::ClearCloseOnExec { fd } => StepView::ClearCloseOnExec { fd: fd as int },
            VoidStep::SetHostname(name) => StepView::SetHostname(name@),
            VoidStep::SetDomainName(name) => StepView::SetDomainName(name@),
        }
    }
}

/// The values of a list of steps.
pub open spec fn step_views(steps: Seq<VoidStep>) -> Seq<StepView> {
    steps.map_values(|s: VoidStep| s@)
}

/// The mathematical value of a [`VoidBuilder`]. Mounts are pairs of host
/// path and path in the void, in the order in which their host paths were
/// first named; kept descriptors are in the order in which they were first
/// named.
pub struct BuilderView {
    pub hostname: Option<Seq<char>>,
    pub domain_name: Option<Seq<char>>,
    pub mounts: Seq<(Seq<char>, Seq<char>)>,
    pub fds: Seq<int>,
    pub remount_proc: bool,
}

/// The position of the first mount from `i` on whose host path is `source`.
pub open spec fn mount_from(mounts: Seq<(Seq<char>, Seq<char>)>, source: Seq<char>, i: int) -> Option<
    int,
>
    decreases mounts.len() - i,
{
    if i < 0 || i >= mounts.len() {
        None
    } else if mounts[i].0 == source {
        Some(i)
    } else {
        mount_from(mounts, source, i + 1)
    }
}

/// The mounts after `source` has been granted at `target`: a host path that
/// was granted before is granted at the new target instead.
pub open spec fn with_mount(
    mounts: Seq<(Seq<char>, Seq<char>)>,
    source: Seq<char>,
    target: Seq<char>,
) -> Seq<(Seq<char>, Seq<char>)> {
    match mount_from(mounts, source, 0) {
        Some(i) => mounts.update(i, (source, target)),
        None => mounts.push((source, target)),
    }
}

/// The kept descriptors after `fd` has been added: each is kept once.
pub open spec fn with_fd(fds: Seq<int>, fd: int) -> Seq<int> {
    if fds.contains(fd) {
        fds
    } else {
        fds.push(fd)
    }
}

/// Some mount has the given host path.
pub open spec fn has_source(mounts: Seq<(Seq<char>, Seq<char>)>, source: Seq<char>) -> bool {
    exists|i: int| 0 <= i < mounts.len() && (#[trigger] mounts[i]).0 == source
}

/// The line that maps root inside a user namespace to one id outside it.
pub open spec fn id_map_line(id: nat) -> Seq<char> {
    "0 "@ + decimal_nat(id) + " 1\n"@
}

/// The steps that set up the user namespace: map root to the parent's user,
/// deny `setgroups`, map root's group to the parent's group.
pub open spec fn user_namespace_steps(uid: nat, gid: nat) -> Seq<StepView> {
    seq![
        StepView::WriteFile { path: "/proc/self/uid_map"@, contents: id_map_line(uid) },
        StepView::WriteFile { path: "/proc/self/setgroups"@, contents: "deny\n"@ },
        StepView::WriteFile { path: "/proc/self/gid_map"@, contents: id_map_line(gid) },
    ]
}

/// The bind mount of one granted path: from below the old root to below the
/// new one.
pub open spec fn bind_step(mount: (Seq<char>, Seq<char>)) -> StepView {
    StepView::BindMount {
        source: under_old_root_spec(mount.0),
        target: under_new_root_spec(mount.1),
    }
}

/// The bind mounts of the granted paths, in order.
pub open spec fn bind_steps(mounts: Seq<(Seq<char>, Seq<char>)>) -> Seq<StepView> {
    Seq::new(mounts.len(), |i: int| bind_step(mounts[i]))
}

/// One step for each kept descriptor, in order, that clears its
/// close-on-exec flag.
pub open spec fn clear_steps(fds: Seq<int>) -> Seq<StepView> {
    Seq::new(fds.len(), |i: int| StepView::ClearCloseOnExec { fd: fds[i] })
}

/// The steps that replace the root by an empty tmpfs holding the granted
/// mounts, and `/dev/null` besides where it was not granted.
pub open spec fn mount_namespace_steps(b: BuilderView) -> Seq<StepView> {
    seq![StepView::PrivateRoot, StepView::NewRoot, StepView::PivotRoot] + bind_steps(b.mounts) + (if has_source(b.mounts, "/dev/null"@) {
        Seq::empty()
    } else {
        seq![bind_step(("/dev/null"@, "/dev/null"@))]
    }) + (if b.remount_proc {
        seq![StepView::MountProc]
    } else {
        Seq::empty()
    }) + seq![StepView::DetachOldRoot]
}

/// The step that voids one standard descriptor, unless it is kept.
pub open spec fn null_step(fds: Seq<int>, fd: int) -> Seq<StepView> {
    if fds.contains(fd) {
        Seq::empty()
    } else {
        seq![StepView::NullDescriptor { fd }]
    }
}

/// The steps that prune the descriptors: close all but the kept ones from 3
/// on, void each standard descriptor that is not kept, let go of `/dev/null`
/// where it was not granted, and clear close-on-exec on every kept one.
pub open spec fn file_descriptor_steps(b: BuilderView) -> Seq<StepView> {
    seq![StepView::CloseDescriptors { from: 3, keep: b.fds }] + null_step(b.fds, 0) + null_step(
        b.fds,
        1,
    ) + null_step(b.fds, 2) + (if has_source(b.mounts, "/dev/null"@) {
        Seq::empty()
    } else {
        seq![StepView::DetachDevNull]
    }) + clear_steps(b.fds)
}

/// The host name of a void that was given none.
pub open spec fn default_hostname() -> Seq<char> {
    "void"@
}

/// The domain name of a void that was given none.
pub open spec fn default_domain_name() -> Seq<char> {
    "(none)"@
}

/// The steps that name the void in its UTS namespace.
pub open spec fn uts_namespace_steps(b: BuilderView) -> Seq<StepView> {
    seq![
        StepView::SetHostname(
            match b.hostname {
                Some(n) => n,
                None => default_hostname(),
            },
        ),
        StepView::SetDomainName(
            match b.domain_name {
                Some(n) => n,
                None => default_domain_name(),
            },
        ),
    ]
}

/// The whole voiding sequence, in its fixed order: ignore SIGHUP; the user
/// namespace first, which grants the capabilities that the rest needs; the
/// mount namespace; the descriptors, while `/dev/null` is still there; the
/// UTS names. The IPC, network, pid and cgroup namespaces need no step.
pub open spec fn voiding_steps(b: BuilderView, uid: nat, gid: nat) -> Seq<StepView> {
    seq![StepView::IgnoreHangup] + user_namespace_steps(uid, gid) + mount_namespace_steps(b)
        + file_descriptor_steps(b) + uts_namespace_steps(b)
}

/// What spawning a void takes: the clone request that the parent makes, and
/// the steps that the child carries out before it runs its entry.
#[derive(Debug)]
pub struct SpawnPlan {
    pub clone: CloneArgs,
    pub steps: Vec<VoidStep>,
}

/// Collects what a void is granted.
#[derive(Debug)]
pub struct VoidBuilder {
    hostname: Option<String>,
    domain_name: Option<String>,
    mounts: Vec<(String, String)>,
    fds: Vec<i32>,
    remount_proc: bool,
}

/// The values of a list of mounts.
pub open spec fn mount_views(mounts: Seq<(String, String)>) -> Seq<(Seq<char>, Seq<char>)> {
    mounts.map_values(|m: (String, String)| (m.0@, m.1@))
}

/// The value of an optional name.
pub open spec fn name_view(name: Option<String>) -> Option<Seq<char>> {
    match name {
        Some(n) => Some(n@),
        None => None,
    }
}

impl View for VoidBuilder {
    type V = BuilderView;

    closed spec fn view(&self) -> BuilderView {
        BuilderView {
            hostname: name_view(self.hostname),
            domain_name: name_view(self.domain_name),
            mounts: mount_views(self.mounts@),
            fds: fd_views(self.fds@),
            remount_proc: self.remount_proc,
        }
    }
}

impl BuilderView {
    /// No host path is mounted twice and no descriptor is kept twice.
    pub open spec fn wf(self) -> bool {
        &&& forall|i: int, j: int|
            0 <= i < j < self.mounts.len() ==> (#[trigger] self.mounts[i]).0 != (
            #[trigger] self.mounts[j]).0
        &&& self.fds.no_duplicates()
    }
}

/// The `clone3` flag of a new mount namespace.
pub const CLONE_NEWNS: u64 = 0x0002_0000;

/// The `clone3` flag of a new cgroup namespace.
pub const CLONE_NEWCGROUP: u64 = 0x0200_0000;

/// The `clone3` flag of a new UTS namespace.
pub const CLONE_NEWUTS: u64 = 0x0400_0000;

/// The `clone3` flag of a new IPC namespace.
pub const CLONE_NEWIPC: u64 = 0x0800_0000;

/// The `clone3` flag of a new user namespace.
pub const CLONE_NEWUSER: u64 = 0x1000_0000;

/// The `clone3` flag of a new pid namespace.
pub const CLONE_NEWPID: u64 = 0x2000_0000;

/// The `clone3` flag of a new network namespace.
pub const CLONE_NEWNET: u64 = 0x4000_0000;

/// The seven namespaces that a void is cloned into, as `clone3` flags:
/// cgroup, IPC, network, mount, pid, user and UTS.
pub open spec fn namespace_flags() -> u64 {
    CLONE_NEWCGROUP | CLONE_NEWIPC | CLONE_NEWNET | CLONE_NEWNS | CLONE_NEWPID | CLONE_NEWUSER
        | CLONE_NEWUTS
}

/// The seven flags are distinct bits; together they are `0x7E020000`.
pub proof fn lemma_namespace_flags()
    ensures
        namespace_flags() == 0x7E02_0000,
{
    assert(0x0200_0000u64 | 0x0800_0000u64 | 0x4000_0000u64 | 0x0002_0000u64 | 0x2000_0000u64
        | 0x1000_0000u64 | 0x0400_0000u64 == 0x7E02_0000u64) by (bit_vector);
}

/// The bits of `nix::sched::CloneFlags::CLONE_NEWNS`, with the value that
/// the flag has on Linux.
#[verifier::external_body]
fn clone_newns() -> (bits: u64)
    ensures
        bits == CLONE_NEWNS,
{
    nix::sched::CloneFlags::CLONE_NEWNS.bits() as u64
}

/// The bits of `nix::sched::CloneFlags::CLONE_NEWCGROUP`, with the value
/// that the flag has on Linux.
#[verifier::external_body]
fn clone_newcgroup() -> (bits: u64)
    ensures
        bits == CLONE_NEWCGROUP,
{
    nix::sched::CloneFlags::CLONE_NEWCGROUP.bits() as u64
}

/// The bits of `nix::sched::CloneFlags::CLONE_NEWUTS`, with the value that
/// the flag has on Linux.
#[verifier::external_body]
fn clone_newuts() -> (bits: u64)
    ensures
        bits == CLONE_NEWUTS,
{
    nix::sched::CloneFlags::CLONE_NEWUTS.bits() as u64
}

/// The bits of `nix::sched::CloneFlags::CLONE_NEWIPC`, with the value that
/// the flag has on Linux.
#[verifier::external_body]
fn clone_newipc() -> (bits: u64)
    ensures
        bits == CLONE_NEWIPC,
{
    nix::sched::CloneFlags::CLONE_NEWIPC.bits() as u64
}

/// The bits of `nix::sched::CloneFlags::CLONE_NEWUSER`, with the value that
/// the flag has on Linux.
#[verifier::external_body]
fn clone_newuser() -> (bits: u64)
    ensures
        bits == CLONE_NEWUSER,
{
    nix::sched::CloneFlags::CLONE_NEWUSER.bits() as u64
}

/// The bits of `nix::sched::CloneFlags::CLONE_NEWPID`, with the value that
/// the flag has on Linux.
#[verifier::external_body]
fn clone_newpid() -> (bits: u64)
    ensures
        bits == CLONE_NEWPID,
{
    nix::sched::CloneFlags::CLONE_NEWPID.bits() as u64
}

/// The bits of `nix::sched::CloneFlags::CLONE_NEWNET`, with the value that
/// the flag has on Linux.
#[verifier::external_body]
fn clone_newnet() -> (bits: u64)
    ensures
        bits == CLONE_NEWNET,
{
    nix::sched::CloneFlags::CLONE_NEWNET.bits() as u64
}

/// The flags with which a void is cloned: one new namespace of each of the
/// seven kinds.
fn void_clone_flags() -> (bits: u64)
    ensures
        bits == namespace_flags(),
{
    clone_newcgroup() | clone_newipc() | clone_newnet() | clone_newns() | clone_newpid()
        | clone_newuser() | clone_newuts()
}

/// The number of `nix::sys::signal::Signal::SIGCHLD`. The contract gives the
/// values that it has on the architectures that Linux runs on.
#[verifier::external_body]
fn child_exit_signal() -> (signal: i32)
    ensures
        signal == 17 || signal == 18 || signal == 20,
{
    nix::sys::signal::Signal::SIGCHLD as i32
}

impl VoidBuilder {
    /// A builder that grants nothing.
    pub fn new() -> (builder: VoidBuilder)
        ensures
            builder@ == (BuilderView {
                hostname: None,
                domain_name: None,
                mounts: Seq::empty(),
                fds: Seq::empty(),
                remount_proc: false,
            }),
            builder@.wf(),
    {
        let builder = VoidBuilder {
            hostname: None,
            domain_name: None,
            mounts: Vec::new(),
            fds: Vec::new(),
            remount_proc: false,
        };
        assert(mount_views(builder.mounts@) =~= Seq::empty());
        assert(fd_views(builder.fds@) =~= Seq::empty());
        builder
    }

    /// Names the void in its UTS namespace.
    pub fn set_hostname(&mut self, hostname: &str)
        ensures
            final(self)@ == (BuilderView { hostname: Some(hostname@), ..old(self)@ }),
    {
        self.hostname = Some(String::from_str(hostname));
    }

    /// Gives the void a domain name in its UTS namespace.
    pub fn set_domain_name(&mut self, domain_name: &str)
        ensures
            final(self)@ == (BuilderView { domain_name: Some(domain_name@), ..old(self)@ }),
    {
        self.domain_name = Some(String::from_str(domain_name));
    }

    /// The position of the mount whose host path is `source`.
    fn find_mount(&self, source: &str) -> (at: Option<usize>)
        ensures
            at is Some ==> at->0 < self@.mounts.len() && self@.mounts[at->0 as int].0 == source@,
            at is Some ==> mount_from(self@.mounts, source@, 0) == Some(at->0 as int),
            at is None ==> mount_from(self@.mounts, source@, 0) is None,
            at is Some <==> has_source(self@.mounts, source@),
    {
        let wanted = String::from_str(source);
        let mut i: usize = 0;
        while i < self.mounts.len()
            invariant
                i <= self.mounts@.len(),
                wanted@ == source@,
                mount_from(self@.mounts, source@, 0) == mount_from(self@.mounts, source@, i as int),
                forall|k: int| 0 <= k < i ==> (#[trigger] self@.mounts[k]).0 != source@,
            decreases self.mounts@.len() - i,
        {
            if self.mounts[i].0 == wanted {
                assert(self@.mounts[i as int].0 == source@);
                return Some(i);
            }
            i += 1;
        }
        None
    }

    /// Grants the host path `src` at `dst` inside the void. A host path that
    /// was granted before is granted at `dst` instead.
    pub fn mount(&mut self, src: &str, dst: &str)
        ensures
            final(self)@ == (BuilderView {
                mounts: with_mount(old(self)@.mounts, src@, dst@),
                ..old(self)@
            }),
            old(self)@.wf() ==> final(self)@.wf(),
    {
        let entry = (String::from_str(src), String::from_str(dst));
        match self.find_mount(src) {
            Some(i) => {
                self.mounts.set(i, entry);
                assert(mount_views(self.mounts@) =~= old(self)@.mounts.update(
                    i as int,
                    (src@, dst@),
                ));
                assert(old(self)@.mounts[i as int].0 == src@);
                assert forall|k: int| 0 <= k < self@.mounts.len() implies (
                #[trigger] self@.mounts[k]).0 == old(self)@.mounts[k].0 by {}
            },
            None => {
                self.mounts.push(entry);
                assert(mount_views(self.mounts@) =~= old(self)@.mounts.push((src@, dst@)));
                assert forall|k: int| 0 <= k < old(self)@.mounts.len() implies (
                #[trigger] old(self)@.mounts[k]).0 != src@ by {
                    if old(self)@.mounts[k].0 == src@ {
                        assert(has_source(old(self)@.mounts, src@));
                    }
                }
            },
        }
    }

    /// Keeps the descriptor open across the voiding and the `exec`.
    pub fn keep_fd(&mut self, fd: i32)
        ensures
            final(self)@ == (BuilderView { fds: with_fd(old(self)@.fds, fd as int), ..old(self)@ }),
            old(self)@.wf() ==> final(self)@.wf(),
    {
        if !self.keeps(fd) {
            self.fds.push(fd);
            assert(fd_views(self.fds@) =~= old(self)@.fds.push(fd as int));
        }
    }

    /// Whether the descriptor is kept.
    pub fn keeps(&self, fd: i32) -> (kept: bool)
        ensures
            kept == self@.fds.contains(fd as int),
    {
        let mut i: usize = 0;
        while i < self.fds.len()
            invariant
                i <= self.fds@.len(),
                forall|k: int| 0 <= k < i ==> #[trigger] self@.fds[k] != fd as int,
            decreases self.fds@.len() - i,
        {
            if self.fds[i] == fd {
                assert(self@.fds[i as int] == fd as int);
                return true;
            }
            i += 1;
        }
        false
    }

    /// Has a fresh procfs mounted at `/proc` inside the void.
    pub fn remount_proc(&mut self)
        ensures
            final(self)@ == (BuilderView { remount_proc: true, ..old(self)@ }),
    {
        self.remount_proc = true;
    }

    /// The user namespace comes first: it grants the capabilities that the
    /// later steps need. Root inside is mapped to the parent's user and
    /// group, which are lost once the namespace exists and so are passed in.
    pub fn void_user_namespace(&self, parent_uid: u32, parent_gid: u32) -> (steps: Vec<VoidStep>)
        ensures
            step_views(steps@) == user_namespace_steps(parent_uid as nat, parent_gid as nat),
    {
        let uid = unsigned_to_string(parent_uid);
        let gid = unsigned_to_string(parent_gid);
        let uid_line = String::from_str("0 ").concat(uid.as_str()).concat(" 1\n");
        let gid_line = String::from_str("0 ").concat(gid.as_str()).concat(" 1\n");
        let mut steps: Vec<VoidStep> = Vec::new();
        steps.push(
            VoidStep::WriteFile { path: String::from_str("/proc/self/uid_map"), contents: uid_line },
        );
        steps.push(
            VoidStep::WriteFile {
                path: String::from_str("/proc/self/setgroups"),
                contents: String::from_str("deny\n"),
            },
        );
        steps.push(
            VoidStep::WriteFile { path: String::from_str("/proc/self/gid_map"), contents: gid_line },
        );
        assert(step_views(steps@) =~= user_namespace_steps(parent_uid as nat, parent_gid as nat));
        steps
    }

    /// The mount namespace: the root becomes an empty tmpfs that holds the
    /// granted paths and nothing else. All bind mounts are made before the
    /// old root is let go, after which the host's files are out of reach.
    pub fn void_mount_namespace(&self) -> (steps: Vec<VoidStep>)
        ensures
            step_views(steps@) == mount_namespace_steps(self@),
    {
        let mut steps: Vec<VoidStep> = Vec::new();
        steps.push(VoidStep::PrivateRoot);
        steps.push(VoidStep::NewRoot);
        steps.push(VoidStep::PivotRoot);
        let ghost head = seq![StepView::PrivateRoot, StepView::NewRoot, StepView::PivotRoot];
        let mut i: usize = 0;
        assert(step_views(steps@) =~= head + bind_steps(self@.mounts.take(0)));
        while i < self.mounts.len()
            invariant
                i <= self.mounts@.len(),
                step_views(steps@) == head + bind_steps(self@.mounts.take(i as int)),
            decreases self.mounts@.len() - i,
        {
            let source = under_old_root(self.mounts[i].0.as_str());
            let target = under_new_root(self.mounts[i].1.as_str());
            let ghost before = step_views(steps@);
            steps.push(VoidStep::BindMount { source, target });
            proof {
                let mount = self@.mounts[i as int];
                assert(mount == (self.mounts@[i as int].0@, self.mounts@[i as int].1@));
                assert(step_views(steps@) =~= before.push(bind_step(mount)));
                assert(bind_steps(self@.mounts.take(i + 1)) =~= bind_steps(
                    self@.mounts.take(i as int),
                ).push(bind_step(mount)));
                assert(step_views(steps@) =~= head + bind_steps(self@.mounts.take(i + 1)));
            }
            i += 1;
        }
        assert(self@.mounts.take(i as int) =~= self@.mounts);
        let ghost granted = step_views(steps@);
        if self.find_mount("/dev/null").is_none() {
            let source = under_old_root("/dev/null");
            let target = under_new_root("/dev/null");
            steps.push(VoidStep::BindMount { source, target });
            assert(step_views(steps@) =~= granted + seq![bind_step(("/dev/null"@, "/dev/null"@))]);
        } else {
            assert(step_views(steps@) =~= granted + Seq::<StepView>::empty());
        }
        let ghost bound = step_views(steps@);
        if self.remount_proc {
            steps.push(VoidStep::MountProc);
            assert(step_views(steps@) =~= bound + seq![StepView::MountProc]);
        } else {
            assert(step_views(steps@) =~= bound + Seq::<StepView>::empty());
        }
        let ghost mounted = step_views(steps@);
        steps.push(VoidStep::DetachOldRoot);
        assert(step_views(steps@) =~= mounted + seq![StepView::DetachOldRoot]);
        steps
    }

    /// The descriptors are pruned after the mounts, while `/dev/null` can
    /// still be opened. A standard descriptor that is not kept is never
    /// closed, since something else might take its number: `/dev/null` is
    /// put in its place.
    pub fn void_file_descriptors(&self) -> (steps: Vec<VoidStep>)
        ensures
            step_views(steps@) == file_descriptor_steps(self@),
    {
        let mut steps: Vec<VoidStep> = Vec::new();
        let mut keep: Vec<i32> = Vec::new();
        let mut i: usize = 0;
        while i < self.fds.len()
            invariant
                i <= self.fds@.len(),
                keep@ == self.fds@.take(i as int),
            decreases self.fds@.len() - i,
        {
            keep.push(self.fds[i]);
            assert(keep@ =~= self.fds@.take(i + 1));
            i += 1;
        }
        assert(self.fds@.take(i as int) =~= self.fds@);
        steps.push(VoidStep::CloseDescriptors { from: 3, keep });
        assert(step_views(steps@) =~= seq![StepView::CloseDescriptors { from: 3, keep: self@.fds }]);
        let ghost closed = step_views(steps@);
        if !self.keeps(0) {
            steps.push(VoidStep::NullDescriptor { fd: 0 });
        }
        assert(step_views(steps@) =~= closed + null_step(self@.fds, 0));
        if !self.keeps(1) {
            steps.push(VoidStep::NullDescriptor { fd: 1 });
        }
        assert(step_views(steps@) =~= closed + null_step(self@.fds, 0) + null_step(self@.fds, 1));
        if !self.keeps(2) {
            steps.push(VoidStep::NullDescriptor { fd: 2 });
        }
        let ghost nulled = closed + null_step(self@.fds, 0) + null_step(self@.fds, 1) + null_step(
            self@.fds,
            2,
        );
        assert(step_views(steps@) =~= nulled);
        if self.find_mount("/dev/null").is_none() {
            steps.push(VoidStep::DetachDevNull);
            assert(step_views(steps@) =~= nulled + seq![StepView::DetachDevNull]);
        } else {
            assert(step_views(steps@) =~= nulled + Seq::<StepView>::empty());
        }
        let ghost detached = step_views(steps@);
        let mut j: usize = 0;
        assert(step_views(steps@) =~= detached + clear_steps(self@.fds.take(0)));
        while j < self.fds.len()
            invariant
                j <= self.fds@.len(),
                step_views(steps@) == detached + clear_steps(self@.fds.take(j as int)),
            decreases self.fds@.len() - j,
        {
            let ghost before = step_views(steps@);
            steps.push(VoidStep::ClearCloseOnExec { fd: self.fds[j] });
            proof {
                let fd = self@.fds[j as int];
                assert(fd == self.fds@[j as int] as int);
                assert(step_views(steps@) =~= before.push(StepView::ClearCloseOnExec { fd }));
                assert(clear_steps(self@.fds.take(j + 1)) =~= clear_steps(
                    self@.fds.take(j as int),
                ).push(StepView::ClearCloseOnExec { fd }));
                assert(step_views(steps@) =~= detached + clear_steps(self@.fds.take(j + 1)));
            }
            j += 1;
        }
        assert(self@.fds.take(j as int) =~= self@.fds);
        steps
    }

    /// A fresh IPC namespace holds nothing and shares nothing: no step.
    pub fn void_ipc_namespace(&self) -> (steps: Vec<VoidStep>)
        ensures
            steps@.len() == 0,
    {
        Vec::new()
    }

    /// A fresh UTS namespace holds copies of the parent's names: both are
    /// set, to the names that were given or to the defaults.
    pub fn void_uts_namespace(&self) -> (steps: Vec<VoidStep>)
        ensures
            step_views(steps@) == uts_namespace_steps(self@),
    {
        let hostname = match &self.hostname {
            Some(n) => n.clone(),
            None => String::from_str("void"),
        };
        let domain_name = match &self.domain_name {
            Some(n) => n.clone(),
            None => String::from_str("(none)"),
        };
        let mut steps: Vec<VoidStep> = Vec::new();
        steps.push(VoidStep::SetHostname(hostname));
        steps.push(VoidStep::SetDomainName(domain_name));
        assert(step_views(steps@) =~= uts_namespace_steps(self@));
        steps
    }

    /// A fresh network namespace holds only a loopback device: no step.
    pub fn void_network_namespace(&self) -> (steps: Vec<VoidStep>)
        ensures
            steps@.len() == 0,
    {
        Vec::new()
    }

    /// In a fresh pid namespace the first process is pid 1: no step.
    pub fn void_pid_namespace(&self) -> (steps: Vec<VoidStep>)
        ensures
            steps@.len() == 0,
    {
        Vec::new()
    }

    /// The cgroup namespace is created and nothing more: no step.
    pub fn void_cgroup_namespace(&self) -> (steps: Vec<VoidStep>)
        ensures
            steps@.len() == 0,
    {
        Vec::new()
    }

    /// Plans the spawning of this void: the clone request, into all seven
    /// namespaces and with the child-exit signal, and the voiding sequence
    /// that the child carries out before its entry runs. The parent's user
    /// and group are read before the clone and passed in.
    pub fn spawn(&self, parent_uid: u32, parent_gid: u32) -> (plan: SpawnPlan)
        ensures
            plan.clone.flags == namespace_flags(),
            plan.clone.exit_signal matches Some(s) && (s == 17 || s == 18 || s == 20),
            plan.clone == (CloneArgs {
                exit_signal: plan.clone.exit_signal,
                ..CloneArgs::new_spec(namespace_flags())
            }),
            step_views(plan.steps@) == voiding_steps(self@, parent_uid as nat, parent_gid as nat),
    {
        let mut clone = CloneArgs::new(void_clone_flags());
        clone.exit_signal = Some(child_exit_signal());
        let mut steps: Vec<VoidStep> = Vec::new();
        steps.push(VoidStep::IgnoreHangup);
        let ghost hangup = step_views(steps@);
        assert(hangup =~= seq![StepView::IgnoreHangup]);
        let mut user = self.void_user_namespace(parent_uid, parent_gid);
        let ghost user_steps = step_views(user@);
        steps.append(&mut user);
        assert(step_views(steps@) =~= hangup + user_steps);
        let mut mounts = self.void_mount_namespace();
        let ghost mount_steps = step_views(mounts@);
        steps.append(&mut mounts);
        assert(step_views(steps@) =~= hangup + user_steps + mount_steps);
        let mut descriptors = self.void_file_descriptors();
        let ghost descriptor_steps = step_views(descriptors@);
        steps.append(&mut descriptors);
        assert(step_views(steps@) =~= hangup + user_steps + mount_steps + descriptor_steps);
        let mut ipc = self.void_ipc_namespace();
        steps.append(&mut ipc);
        let mut uts = self.void_uts_namespace();
        let ghost uts_steps = step_views(uts@);
        steps.append(&mut uts);
        let mut network = self.void_network_namespace();
        steps.append(&mut network);
        let mut pid = self.void_pid_namespace();
        steps.append(&mut pid);
        let mut cgroup = self.void_cgroup_namespace();
        steps.append(&mut cgroup);
        assert(step_views(steps@) =~= hangup + user_steps + mount_steps + descriptor_steps
            + uts_steps);
        SpawnPlan { clone, steps }
    }
}

/// The descriptor steps begin by closing, from 3 on, every descriptor that
/// is not kept: exactly the kept ones are spared.
pub proof fn lemma_close_spares_kept(b: BuilderView)
    ensures
        file_descriptor_steps(b)[0] == (StepView::CloseDescriptors { from: 3, keep: b.fds }),
{
}

/// A standard descriptor is replaced by `/dev/null` exactly when it is not
/// kept.
pub proof fn lemma_standard_descriptors_voided(b: BuilderView, fd: int)
    requires
        0 <= fd <= 2,
    ensures
        file_descriptor_steps(b).contains(StepView::NullDescriptor { fd }) <==> !b.fds.contains(fd),
{
    let steps = file_descriptor_steps(b);
    let n0 = null_step(b.fds, 0).len() as int;
    let n1 = null_step(b.fds, 1).len() as int;
    if !b.fds.contains(fd) {
        let at = if fd == 0 {
            1
        } else if fd == 1 {
            1 + n0
        } else {
            1 + n0 + n1
        };
        assert(steps[at] == StepView::NullDescriptor { fd });
    }
}

/// The close-on-exec flag is cleared on exactly the kept descriptors.
pub proof fn lemma_kept_descriptors_cleared(b: BuilderView, fd: int)
    ensures
        file_descriptor_steps(b).contains(StepView::ClearCloseOnExec { fd }) <==> b.fds.contains(fd),
{
    let steps = file_descriptor_steps(b);
    let head = steps.len() - b.fds.len();
    if b.fds.contains(fd) {
        let k = choose|k: int| 0 <= k < b.fds.len() && b.fds[k] == fd;
        assert(steps[head + k] == clear_steps(b.fds)[k]);
    }
    if steps.contains(StepView::ClearCloseOnExec { fd }) {
        let i = choose|i: int| 0 <= i < steps.len() && steps[i] == StepView::ClearCloseOnExec { fd };
        assert(i >= head);
        assert(steps[i] == clear_steps(b.fds)[i - head]);
        assert(b.fds[i - head] == fd);
    }
}

/// The voiding sequence maps root inside the void to the parent's user: it
/// writes the line `0 <parent uid> 1` to the uid map, right after ignoring
/// SIGHUP and before anything else.
pub proof fn lemma_root_is_parent_user(b: BuilderView, uid: nat, gid: nat)
    ensures
        voiding_steps(b, uid, gid)[0] == StepView::IgnoreHangup,
        voiding_steps(b, uid, gid)[1] == (StepView::WriteFile {
            path: "/proc/self/uid_map"@,
            contents: "0 "@ + decimal_nat(uid) + " 1\n"@,
        }),
{
}

/// Drops close-on-exec from the flags of a descriptor, as read with
/// `F_GETFD`: `nix::fcntl::FdFlag::from_bits_truncate`, then `remove` of
/// `FD_CLOEXEC`, then `bits`. `FdFlag` knows no flag but `FD_CLOEXEC`, so no
/// bit is left.
#[verifier::external_body]
fn without_close_on_exec(flags: i32) -> (kept: i32)
    ensures
        kept == 0,
{
    let mut flags = nix::fcntl::FdFlag::from_bits_truncate(flags);
    flags.remove(nix::fcntl::FdFlag::FD_CLOEXEC);
    flags.bits()
}

/// The flags to set on a kept descriptor, given those that it has: the same,
/// without close-on-exec, so that the descriptor survives the `exec`.
pub fn flags_for_exec(flags: i32) -> (kept: i32)
    ensures
        kept == 0,
{
    without_close_on_exec(flags)
}

/// What is found at the source of a bind mount.
#[derive(Debug, Clone, PartialEq, Eq)]
pub enum Found {
    /// A symbolic link to the given path.
    Link(String),
    /// A directory.
    Directory,
    /// A file, or anything else that is mounted over an empty file.
    Other,
}

/// What is done about a bind mount once its source has been looked at.
#[derive(Debug, Clone, PartialEq, Eq)]
pub enum BindAction {
    /// Look at this path instead: the source was a link, which is followed
    /// once.
    Follow(String),
    /// Create the target, as a directory or as an empty file below its
    /// parent directories, and bind-mount the source over it.
    Mount { source: String, directory: bool },
}

/// The mathematical value of a [`BindAction`].
pub enum BindActionView {
    Follow(Seq<char>),
    Mount { source: Seq<char>, directory: bool },
}

impl View for BindAction {
    type V = BindActionView;

    open spec fn view(&self) -> BindActionView {
        match *self {
            BindAction::Follow(next) => BindActionView::Follow(next@),
            BindAction::Mount { source, directory } => BindActionView::Mount {
                source: source@,
                directory,
            },
        }
    }
}

/// What is done about a bind mount: a source that is a link is followed
/// once, to where the link points below the old root; any other source, and
/// whatever is found behind a link, is mounted over a target of its own
/// kind.
pub open spec fn bind_action_spec(source: Seq<char>, found: Found, followed: bool) -> BindActionView {
    match found {
        Found::Link(target) => if followed {
            BindActionView::Mount { source, directory: false }
        } else {
            BindActionView::Follow(under_old_root_spec(target@))
        },
        Found::Directory => BindActionView::Mount { source, directory: true },
        Found::Other => BindActionView::Mount { source, directory: false },
    }
}

/// Decides what to do about a bind mount, given what was found at its
/// source and whether a link has been followed already.
pub fn bind_action(source: &str, found: &Found, followed: bool) -> (action: BindAction)
    ensures
        action@ == bind_action_spec(source@, *found, followed),
{
    match found {
        Found::Link(target) => {
            if followed {
                BindAction::Mount { source: String::from_str(source), directory: false }
            } else {
                BindAction::Follow(under_old_root(target.as_str()))
            }
        },
        Found::Directory => BindAction::Mount { source: String::from_str(source), directory: true },
        Found::Other => BindAction::Mount { source: String::from_str(source), directory: false },
    }
}

} // verus!
