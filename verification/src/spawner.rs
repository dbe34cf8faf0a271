//! The spawner: for each entrypoint, what its void is granted and how it is
//! launched; and for triggered entrypoints, what each arrival leads to.

use vstd::prelude::*;
use vstd::string::*;
use crate::args::{
    all_kept, delivered, lemma_delivered_are_kept, lemma_position_by_names,
    lemma_position_names, lemma_run_keeps, lemma_with_fd_keeps, requests_of,
    take_pipe_end, take_socket_end, Ambient, PreparedArgs, TriggerData, TriggerView,
};
use crate::decimal::{decimal, fd_to_string};
use crate::error::{Error, ErrorView};
use crate::fabric::{pipe_views, position, socket_views, PairView, PipePair, SocketPair};
use crate::specification::{Arg, Entrypoint, Environment, Pipe, Specification, Trigger};
use crate::void::{fd_views, with_fd, with_mount, BuilderView, VoidBuilder};
use crate::wiring::Wiring;

verus! {

/// Everything that spawning the entrypoints of an application takes: the
/// specification, the target binary and the launcher's trailing arguments,
/// and the fabric, which is used up as ends are handed to voids.
#[derive(Debug)]
pub struct Spawner<'a> {
    pub spec: &'a Specification,
    pub binary: String,
    pub binary_args: Vec<String>,
    pub debug: bool,
    pub pipes: Vec<PipePair>,
    pub sockets: Vec<SocketPair>,
}

impl<'a> Spawner<'a> {
    /// This spawner differs from `other` in its fabric at most.
    pub open spec fn unchanged_but_fabric(self, other: Spawner<'a>) -> bool {
        &&& self.spec == other.spec
        &&& self.binary == other.binary
        &&& self.binary_args == other.binary_args
        &&& self.debug == other.debug
    }
}

/// The largest record that is read from a trigger pipe at once, in bytes.
pub const BUFFER_SIZE: usize = 1024;

/// The number of descriptors for which room is made in one socket message.
pub const MAX_FILE_DESCRIPTORS: usize = 16;

/// The error number of an interrupted system call.
pub open spec fn interrupted() -> int {
    4
}

/// The number of `nix::errno::Errno::EINTR`. The contract gives the value
/// that it has on Linux.
#[verifier::external_body]
pub(crate) fn interrupted_errno() -> (errno: i32)
    ensures
        errno == interrupted(),
{
    nix::errno::Errno::EINTR as i32
}

/// The constant `exitcode::OK`, the exit code of a process that succeeded.
#[verifier::external_body]
pub(crate) fn ok_exit_code() -> (code: i32)
    ensures
        code == 0,
{
    exitcode::OK
}

/// What the void is granted once one capability has been applied.
pub open spec fn env_applied(b: BuilderView, capability: Environment) -> BuilderView {
    match capability {
        Environment::Filesystem { host_path, environment_path } => BuilderView {
            mounts: with_mount(b.mounts, host_path@, environment_path@),
            ..b
        },
        Environment::Hostname(name) => BuilderView { hostname: Some(name@), ..b },
        Environment::DomainName(name) => BuilderView { domain_name: Some(name@), ..b },
        Environment::Procfs => BuilderView {
            mounts: with_mount(b.mounts, "/proc"@, "/proc"@),
            remount_proc: true,
            ..b
        },
        Environment::Stdin => BuilderView { fds: with_fd(b.fds, 0), ..b },
        Environment::Stdout => BuilderView { fds: with_fd(b.fds, 1), ..b },
        Environment::Stderr => BuilderView { fds: with_fd(b.fds, 2), ..b },
    }
}

/// What the void is granted once a run of capabilities has been applied, in
/// order.
pub open spec fn env_prepared(b: BuilderView, environment: Seq<Environment>) -> BuilderView
    decreases environment.len(),
{
    if environment.len() == 0 {
        b
    } else {
        env_applied(env_prepared(b, environment.drop_last()), environment.last())
    }
}

/// The mounts once the host paths of a run of capabilities have been
/// forwarded, each to the same path.
pub open spec fn env_forwarded(
    mounts: Seq<(Seq<char>, Seq<char>)>,
    environment: Seq<Environment>,
) -> Seq<(Seq<char>, Seq<char>)>
    decreases environment.len(),
{
    if environment.len() == 0 {
        mounts
    } else {
        let front = env_forwarded(mounts, environment.drop_last());
        match environment.last() {
            Environment::Filesystem { host_path, environment_path: _ } => with_mount(
                front,
                host_path@,
                host_path@,
            ),
            _ => front,
        }
    }
}

/// The mounts once the files of a run of arguments have been forwarded, each
/// to the same path.
pub open spec fn args_forwarded(mounts: Seq<(Seq<char>, Seq<char>)>, args: Seq<Arg>) -> Seq<
    (Seq<char>, Seq<char>),
>
    decreases args.len(),
{
    if args.len() == 0 {
        mounts
    } else {
        let front = args_forwarded(mounts, args.drop_last());
        match args.last() {
            Arg::File(path) => with_mount(front, path@, path@),
            _ => front,
        }
    }
}

/// The void that holds nothing but the target binary, at `/entrypoint`.
pub open spec fn entry_void(binary: Seq<char>) -> BuilderView {
    BuilderView {
        hostname: None,
        domain_name: None,
        mounts: with_mount(Seq::empty(), binary, "/entrypoint"@),
        fds: Seq::empty(),
        remount_proc: false,
    }
}

/// The void of a supervisor: the target binary at `/entrypoint`; every host
/// path that the voids it spawns will need, at the same path; the read end of
/// its channel; a fresh `/proc`; and standard output and standard error.
pub open spec fn supervisor_void(binary: Seq<char>, entry: Entrypoint, channel: int) -> BuilderView {
    let forwarded = args_forwarded(
        env_forwarded(entry_void(binary).mounts, entry.environment@),
        entry.args@,
    );
    BuilderView {
        hostname: None,
        domain_name: None,
        mounts: with_mount(forwarded, "/proc"@, "/proc"@),
        fds: with_fd(with_fd(with_fd(Seq::empty(), channel), 1), 2),
        remount_proc: true,
    }
}

/// A void with `/entrypoint` passed on from the supervisor and with the
/// given descriptors kept, in order.
pub open spec fn worker_void(fds: Seq<int>) -> BuilderView
    decreases fds.len(),
{
    if fds.len() == 0 {
        BuilderView {
            hostname: None,
            domain_name: None,
            mounts: with_mount(Seq::empty(), "/entrypoint"@, "/entrypoint"@),
            fds: Seq::empty(),
            remount_proc: false,
        }
    } else {
        let front = worker_void(fds.drop_last());
        BuilderView { fds: with_fd(front.fds, fds.last()), ..front }
    }
}

/// How one entrypoint is launched.
#[derive(Debug)]
pub enum Launch {
    /// Spawn this void; in it, complete the arguments and execute
    /// `/entrypoint`.
    Startup { builder: VoidBuilder, args: PreparedArgs },
    /// Spawn this supervisor void; in it, fork a worker that spawns a void
    /// for every record read from the pipe end.
    PipeTrigger { builder: VoidBuilder, pipe: i32 },
    /// Spawn this supervisor void; in it, fork a worker that spawns a void
    /// for every group of descriptors received on the socket end.
    FileSocketTrigger { builder: VoidBuilder, socket: i32 },
}

impl Launch {
    /// What the void of the launch is granted.
    pub open spec fn granted(self) -> BuilderView {
        match self {
            Launch::Startup { builder, args } => builder@,
            Launch::PipeTrigger { builder, pipe } => builder@,
            Launch::FileSocketTrigger { builder, socket } => builder@,
        }
    }

    /// The descriptors that the launch hands to its void: those of the
    /// arguments of an entrypoint that starts at startup, the read end of
    /// its channel for a supervisor.
    pub open spec fn delivered_spec(self) -> Seq<i32> {
        match self {
            Launch::Startup { builder, args } => delivered(args.0@),
            Launch::PipeTrigger { builder, pipe } => seq![pipe],
            Launch::FileSocketTrigger { builder, socket } => seq![socket],
        }
    }

    /// The descriptors that the launch hands to its void. Once the void is
    /// cloned they are the void's: the parent closes its own copies, and
    /// holds none of them afterwards.
    pub fn delivered(&self) -> (fds: Vec<i32>)
        ensures
            fds@ == self.delivered_spec(),
    {
        match self {
            Launch::Startup { builder: _, args } => args.descriptors(),
            Launch::PipeTrigger { builder: _, pipe } => {
                let mut fds: Vec<i32> = Vec::new();
                fds.push(*pipe);
                assert(fds@ =~= seq![*pipe]);
                fds
            },
            Launch::FileSocketTrigger { builder: _, socket } => {
                let mut fds: Vec<i32> = Vec::new();
                fds.push(*socket);
                assert(fds@ =~= seq![*socket]);
                fds
            },
        }
    }
}

/// What came of waiting for a record on a trigger pipe.
#[derive(Debug, Clone, PartialEq, Eq)]
pub enum PipeArrival {
    /// The bytes that were read; none at the end of the pipe.
    Read(String),
    /// The read failed.
    Failed { errno: i32 },
}

/// What came of waiting for a message on a trigger socket.
#[derive(Debug, Clone, PartialEq, Eq)]
pub enum SocketArrival {
    /// The groups of descriptors that the message carried, one for each
    /// control message.
    Received(Vec<Vec<i32>>),
    /// The receive failed.
    Failed { errno: i32 },
}

/// What a trigger worker does about an arrival.
#[derive(Debug, Clone, PartialEq, Eq)]
pub enum TriggerStep {
    /// Spawn one void for each trigger datum, in order, then wait again.
    Spawn(Vec<TriggerData>),
    /// Leave the loop; the worker ends with the exit code of success.
    Stop,
    /// Leave the loop with an error.
    Fail(Error),
}

/// The mathematical value of a [`TriggerStep`].
pub enum TriggerStepView {
    Spawn(Seq<TriggerView>),
    Stop,
    Fail(ErrorView),
}

/// The values of a list of trigger data.
pub open spec fn trigger_views(data: Seq<TriggerData>) -> Seq<TriggerView> {
    data.map_values(|d: TriggerData| d@)
}

impl View for TriggerStep {
    type V = TriggerStepView;

    open spec fn view(&self) -> TriggerStepView {
        match *self {
            TriggerStep::Spawn(data) => TriggerStepView::Spawn(trigger_views(data@)),
            TriggerStep::Stop => TriggerStepView::Stop,
            TriggerStep::Fail(e) => TriggerStepView::Fail(e@),
        }
    }
}

/// What a failed system call leads to in a trigger loop: an interrupted one
/// ends the loop cleanly, any other is the error of the named call.
pub open spec fn wait_failed(op: Seq<char>, errno: i32) -> TriggerStepView {
    if errno == interrupted() {
        TriggerStepView::Stop
    } else {
        TriggerStepView::Fail(ErrorView::Syscall { op, errno: errno as int })
    }
}

/// The message of an I/O error that is known by its error number.
pub open spec fn io_message(errno: int) -> Seq<char> {
    "os error "@ + decimal(errno)
}

/// What a pipe trigger does about an arrival: a record spawns one void that
/// is handed the record; the end of the pipe and an interrupted read end the
/// loop cleanly; any other failure of the read is an I/O error.
pub open spec fn pipe_step(arrival: PipeArrival) -> TriggerStepView {
    match arrival {
        PipeArrival::Read(record) => if record@.len() == 0 {
            TriggerStepView::Stop
        } else {
            TriggerStepView::Spawn(seq![TriggerView::Pipe(record@)])
        },
        PipeArrival::Failed { errno } => if errno == interrupted() {
            TriggerStepView::Stop
        } else {
            TriggerStepView::Fail(ErrorView::Io(io_message(errno as int)))
        },
    }
}

/// One trigger datum for each group of descriptors.
pub open spec fn socket_data(groups: Seq<Vec<i32>>) -> Seq<TriggerView> {
    Seq::new(groups.len(), |i: int| TriggerView::FileSocket(fd_views(groups[i]@)))
}

/// What a socket trigger does about an arrival: each group of descriptors
/// spawns one void that is handed the group; an interrupted receive ends the
/// loop cleanly.
pub open spec fn socket_step(arrival: SocketArrival) -> TriggerStepView {
    match arrival {
        SocketArrival::Received(groups) => TriggerStepView::Spawn(socket_data(groups@)),
        SocketArrival::Failed { errno } => wait_failed("recvmsg"@, errno),
    }
}

/// The number of voids that a pipe trigger spawns over a run of arrivals:
/// the loop ends with the first arrival that spawns nothing.
pub open spec fn voids_spawned(arrivals: Seq<PipeArrival>) -> nat
    decreases arrivals.len(),
{
    if arrivals.len() == 0 {
        0
    } else {
        match pipe_step(arrivals.first()) {
            TriggerStepView::Spawn(data) => data.len() + voids_spawned(arrivals.drop_first()),
            _ => 0,
        }
    }
}

/// A pipe trigger that reads `n` records, none of them empty, spawns exactly
/// `n` voids.
pub proof fn lemma_one_void_per_record(arrivals: Seq<PipeArrival>)
    requires
        forall|i: int|
            0 <= i < arrivals.len() ==> (#[trigger] arrivals[i] matches PipeArrival::Read(r)
                && r@.len() > 0),
    ensures
        voids_spawned(arrivals) == arrivals.len(),
    decreases arrivals.len(),
{
    if arrivals.len() > 0 {
        assert(arrivals[0] is Read);
        let rest = arrivals.drop_first();
        assert forall|i: int| 0 <= i < rest.len() implies (#[trigger] rest[i] matches PipeArrival::Read(
            r,
        ) && r@.len() > 0) by {
            assert(rest[i] == arrivals[i + 1]);
        }
        lemma_one_void_per_record(rest);
    }
}

impl<'a> Spawner<'a> {
    /// Grants the target binary at `/entrypoint`. The path is that of the
    /// binary on the host, made canonical by the caller.
    pub fn mount_entrypoint(&self, builder: &mut VoidBuilder, binary: &str) -> (done: Result<
        (),
        Error,
    >)
        ensures
            done is Ok,
            final(builder)@ == (BuilderView {
                mounts: with_mount(old(builder)@.mounts, binary@, "/entrypoint"@),
                ..old(builder)@
            }),
            old(builder)@.wf() ==> final(builder)@.wf(),
    {
        builder.mount(binary, "/entrypoint");
        Ok(())
    }

    /// Applies the capabilities of an entrypoint to its void, in order.
    pub fn prepare_env(&self, builder: &mut VoidBuilder, environment: &Vec<Environment>)
        ensures
            final(builder)@ == env_prepared(old(builder)@, environment@),
            old(builder)@.wf() ==> final(builder)@.wf(),
    {
        let mut i: usize = 0;
        assert(environment@.take(0) =~= Seq::empty());
        while i < environment.len()
            invariant
                i <= environment@.len(),
                builder@ == env_prepared(old(builder)@, environment@.take(i as int)),
                old(builder)@.wf() ==> builder@.wf(),
            decreases environment@.len() - i,
        {
            match &environment[i] {
                Environment::Filesystem { host_path, environment_path } => {
                    builder.mount(host_path.as_str(), environment_path.as_str());
                },
                Environment::Hostname(name) => {
                    builder.set_hostname(name.as_str());
                },
                Environment::DomainName(name) => {
                    builder.set_domain_name(name.as_str());
                },
                Environment::Procfs => {
                    builder.mount("/proc", "/proc");
                    builder.remount_proc();
                },
                Environment::Stdin => {
                    builder.keep_fd(0);
                },
                Environment::Stdout => {
                    builder.keep_fd(1);
                },
                Environment::Stderr => {
                    builder.keep_fd(2);
                },
            }
            proof {
                let next = environment@.take(i + 1);
                assert(next.drop_last() =~= environment@.take(i as int));
                assert(next.last() == environment@[i as int]);
            }
            i += 1;
        }
        assert(environment@.take(i as int) =~= environment@);
    }

    /// Grants a supervisor every host path that the voids it spawns will be
    /// granted: the host paths of the capabilities and the files among the
    /// arguments, each at the same path.
    pub fn forward_mounts(
        &self,
        builder: &mut VoidBuilder,
        environment: &Vec<Environment>,
        arguments: &Vec<Arg>,
    )
        ensures
            final(builder)@ == (BuilderView {
                mounts: args_forwarded(
                    env_forwarded(old(builder)@.mounts, environment@),
                    arguments@,
                ),
                ..old(builder)@
            }),
            old(builder)@.wf() ==> final(builder)@.wf(),
    {
        let mut i: usize = 0;
        assert(environment@.take(0) =~= Seq::empty());
        while i < environment.len()
            invariant
                i <= environment@.len(),
                builder@ == (BuilderView {
                    mounts: env_forwarded(old(builder)@.mounts, environment@.take(i as int)),
                    ..old(builder)@
                }),
                old(builder)@.wf() ==> builder@.wf(),
            decreases environment@.len() - i,
        {
            if let Environment::Filesystem { host_path, environment_path: _ } = &environment[i] {
                builder.mount(host_path.as_str(), host_path.as_str());
            }
            proof {
                let next = environment@.take(i + 1);
                assert(next.drop_last() =~= environment@.take(i as int));
                assert(next.last() == environment@[i as int]);
            }
            i += 1;
        }
        assert(environment@.take(i as int) =~= environment@);
        let ghost forwarded = builder@.mounts;
        let mut j: usize = 0;
        assert(arguments@.take(0) =~= Seq::empty());
        while j < arguments.len()
            invariant
                j <= arguments@.len(),
                builder@ == (BuilderView {
                    mounts: args_forwarded(forwarded, arguments@.take(j as int)),
                    ..old(builder)@
                }),
                old(builder)@.wf() ==> builder@.wf(),
            decreases arguments@.len() - j,
        {
            if let Arg::File(path) = &arguments[j] {
                builder.mount(path.as_str(), path.as_str());
            }
            proof {
                let next = arguments@.take(j + 1);
                assert(next.drop_last() =~= arguments@.take(j as int));
                assert(next.last() == arguments@[j as int]);
            }
            j += 1;
        }
        assert(arguments@.take(j as int) =~= arguments@);
    }

    /// What a pipe trigger worker does about what its blocking read came
    /// back with.
    pub fn pipe_trigger(&self, arrival: PipeArrival) -> (step: TriggerStep)
        ensures
            step@ == pipe_step(arrival),
    {
        match arrival {
            PipeArrival::Read(record) => {
                if record.as_str().unicode_len() == 0 {
                    TriggerStep::Stop
                } else {
                    let mut data: Vec<TriggerData> = Vec::new();
                    data.push(TriggerData::Pipe(record));
                    assert(trigger_views(data@) =~= seq![TriggerView::Pipe(record@)]);
                    TriggerStep::Spawn(data)
                }
            },
            PipeArrival::Failed { errno } => {
                if errno == interrupted_errno() {
                    TriggerStep::Stop
                } else {
                    let number = fd_to_string(errno);
                    let message = String::from_str("os error ").concat(number.as_str());
                    TriggerStep::Fail(Error::Io(message))
                }
            },
        }
    }

    /// What a socket trigger worker does about what its blocking receive
    /// came back with.
    pub fn file_socket_trigger(&self, arrival: SocketArrival) -> (step: TriggerStep)
        ensures
            step@ == socket_step(arrival),
    {
        match arrival {
            SocketArrival::Received(groups) => {
                let mut data: Vec<TriggerData> = Vec::new();
                let mut groups = groups;
                let ghost all = groups@;
                let mut i: usize = 0;
                assert(trigger_views(data@) =~= socket_data(all.take(0)));
                while i < groups.len()
                    invariant
                        i <= groups@.len(),
                        groups@.len() == all.len(),
                        forall|k: int| i <= k < all.len() ==> groups@[k] == all[k],
                        trigger_views(data@) == socket_data(all.take(i as int)),
                    decreases groups@.len() - i,
                {
                    let ghost before = trigger_views(data@);
                    let mut group: Vec<i32> = Vec::new();
                    core::mem::swap(&mut group, &mut groups[i]);
                    data.push(TriggerData::FileSocket(group));
                    proof {
                        let datum = TriggerView::FileSocket(fd_views(all[i as int]@));
                        assert(trigger_views(data@) =~= before.push(datum));
                        assert(socket_data(all.take(i + 1)) =~= socket_data(
                            all.take(i as int),
                        ).push(datum));
                    }
                    i += 1;
                }
                assert(all.take(i as int) =~= all);
                TriggerStep::Spawn(data)
            },
            SocketArrival::Failed { errno } => {
                if errno == interrupted_errno() {
                    TriggerStep::Stop
                } else {
                    TriggerStep::Fail(Error::Syscall { op: String::from_str("recvmsg"), errno })
                }
            },
        }
    }
}

/// The end of a pair that a supervisor reads from, if the pair is there and
/// its read end has not been taken.
pub open spec fn read_end(pairs: Seq<PairView>, name: Seq<char>) -> Option<int> {
    match position(pairs, name) {
        Some(i) => pairs[i].read,
        None => None,
    }
}

/// The pairs once the read end of the named pair has been taken.
pub open spec fn without_read_end(pairs: Seq<PairView>, name: Seq<char>) -> Seq<PairView> {
    match position(pairs, name) {
        Some(i) => if pairs[i].read is Some {
            pairs.update(i, PairView { read: None, ..pairs[i] })
        } else {
            pairs
        },
        None => pairs,
    }
}

/// The descriptors that trigger data carries.
pub open spec fn carried(data: TriggerView) -> Seq<int> {
    match data {
        TriggerView::FileSocket(fds) => fds,
        _ => Seq::empty(),
    }
}

impl<'a> Spawner<'a> {
    /// The state in which the ambient phase of an entrypoint begins: the
    /// fabric as it is, and the given void.
    pub open spec fn ambient_start(self, builder: BuilderView) -> Ambient {
        Ambient {
            pipes: pipe_views(self.pipes@),
            sockets: socket_views(self.sockets@),
            builder,
            used: 0,
            prepared: Seq::empty(),
            failed: None,
        }
    }

    /// Plans the launch of the entrypoint at `index`. `binary` is the
    /// canonical path of the target binary on the host.
    ///
    /// An entrypoint that starts at startup gets a void with the binary at
    /// `/entrypoint` and with its capabilities, and its arguments go through
    /// the ambient phase, for which `granted` answers their requests. A
    /// triggered entrypoint gets a supervisor void that holds the read end of
    /// its channel, which is taken out of the fabric: a channel that is not
    /// there, or whose read end is gone, is an error.
    pub fn spawn(&mut self, index: usize, binary: &str, granted: &Vec<i32>) -> (launch: Result<
        Launch,
        Error,
    >)
        requires
            index < old(self).spec.entrypoints@.len(),
            old(self).spec.entrypoints@[index as int].1.trigger is Startup ==> granted@.len()
                == requests_of(old(self).spec.entrypoints@[index as int].1.args@).len(),
        ensures
            final(self).unchanged_but_fabric(*old(self)),
            (Wiring {
                pipes: pipe_views(old(self).pipes@),
                sockets: socket_views(old(self).sockets@),
                failed: None,
            }).launch(old(self).spec.entrypoints@[index as int].1, binary@, granted@) == (Wiring {
                pipes: pipe_views(final(self).pipes@),
                sockets: socket_views(final(self).sockets@),
                failed: match launch {
                    Ok(_) => None,
                    Err(e) => Some(e@),
                },
            }),
            launch matches Ok(l) ==> all_kept(l.delivered_spec(), l.granted()),
            match launch {
                Ok(Launch::Startup { builder, args }) => builder@.wf(),
                Ok(Launch::PipeTrigger { builder, pipe }) => builder@.wf(),
                Ok(Launch::FileSocketTrigger { builder, socket }) => builder@.wf(),
                Err(_) => true,
            },
            ({
                let entry = old(self).spec.entrypoints@[index as int].1;
                match entry.trigger {
                    Trigger::Startup => {
                        let end = old(self).ambient_start(
                            env_prepared(entry_void(binary@), entry.environment@),
                        ).run(entry.args@, granted@, true);
                        &&& pipe_views(final(self).pipes@) == end.pipes
                        &&& socket_views(final(self).sockets@) == end.sockets
                        &&& match launch {
                            Ok(Launch::Startup { builder, args }) => end.failed is None && builder@
                                == end.builder && args.0@ == end.prepared,
                            Ok(_) => false,
                            Err(e) => end.failed == Some(e@),
                        }
                    },
                    Trigger::Pipe(name) => {
                        let pipes = pipe_views(old(self).pipes@);
                        &&& pipe_views(final(self).pipes@) == without_read_end(pipes, name@)
                        &&& socket_views(final(self).sockets@) == socket_views(old(self).sockets@)
                        &&& match read_end(pipes, name@) {
                            Some(fd) => launch matches Ok(Launch::PipeTrigger { builder, pipe })
                                && pipe == fd && builder@ == supervisor_void(binary@, entry, fd),
                            None => launch matches Err(e) && e@ == ErrorView::BadPipe(name@),
                        }
                    },
                    Trigger::FileSocket(name) => {
                        let sockets = socket_views(old(self).sockets@);
                        &&& socket_views(final(self).sockets@) == without_read_end(sockets, name@)
                        &&& pipe_views(final(self).pipes@) == pipe_views(old(self).pipes@)
                        &&& match read_end(sockets, name@) {
                            Some(fd) => launch matches Ok(
                                Launch::FileSocketTrigger { builder, socket },
                            ) && socket == fd && builder@ == supervisor_void(binary@, entry, fd),
                            None => launch matches Err(e) && e@ == ErrorView::BadFileSocket(name@),
                        }
                    },
                }
            }),
    {
        let spec: &'a Specification = self.spec;
        let entry = &spec.entrypoints[index].1;
        let mut builder = VoidBuilder::new();
        let _ = self.mount_entrypoint(&mut builder, binary);
        assert(builder@ == entry_void(binary@));
        match &entry.trigger {
            Trigger::Startup => {
                self.prepare_env(&mut builder, &entry.environment);
                proof {
                    lemma_delivered_are_kept(
                        self.ambient_start(builder@),
                        entry.args@,
                        granted@,
                        true,
                    );
                }
                match PreparedArgs::prepare_ambient_mut(self, &mut builder, &entry.args, granted) {
                    Ok(args) => Ok(Launch::Startup { builder, args }),
                    Err(e) => Err(e),
                }
            },
            Trigger::Pipe(name) => {
                self.forward_mounts(&mut builder, &entry.environment, &entry.args);
                let end = Pipe::Rx(name.clone());
                match take_pipe_end(&mut self.pipes, &end) {
                    Ok(pipe) => {
                        builder.keep_fd(pipe);
                        builder.mount("/proc", "/proc");
                        builder.remount_proc();
                        builder.keep_fd(1);
                        builder.keep_fd(2);
                        proof {
                            let kept = with_fd(Seq::empty(), pipe as int);
                            lemma_with_fd_keeps(Seq::empty(), pipe as int, pipe as int);
                            lemma_with_fd_keeps(kept, 1, pipe as int);
                            lemma_with_fd_keeps(with_fd(kept, 1), 2, pipe as int);
                        }
                        Ok(Launch::PipeTrigger { builder, pipe })
                    },
                    Err(e) => Err(e),
                }
            },
            Trigger::FileSocket(name) => {
                self.forward_mounts(&mut builder, &entry.environment, &entry.args);
                match take_socket_end(&mut self.sockets, name) {
                    Ok(socket) => {
                        builder.keep_fd(socket);
                        builder.mount("/proc", "/proc");
                        builder.remount_proc();
                        builder.keep_fd(1);
                        builder.keep_fd(2);
                        proof {
                            let kept = with_fd(Seq::empty(), socket as int);
                            lemma_with_fd_keeps(Seq::empty(), socket as int, socket as int);
                            lemma_with_fd_keeps(kept, 1, socket as int);
                            lemma_with_fd_keeps(with_fd(kept, 1), 2, socket as int);
                        }
                        Ok(Launch::FileSocketTrigger { builder, socket })
                    },
                    Err(e) => Err(e),
                }
            },
        }
    }

    /// Plans the void that a trigger worker spawns for one arrival at the
    /// entrypoint at `index`: `/entrypoint` is passed on from the supervisor,
    /// the descriptors that arrived are kept, the capabilities are applied,
    /// and the arguments go through the ambient phase with the fabric left
    /// as it is. `granted` answers the requests of the arguments.
    pub fn trigger_void(&self, index: usize, data: &TriggerData, granted: &Vec<i32>) -> (planned:
        Result<(VoidBuilder, PreparedArgs), Error>)
        requires
            index < self.spec.entrypoints@.len(),
            granted@.len() == requests_of(self.spec.entrypoints@[index as int].1.args@).len(),
        ensures
            ({
                let entry = self.spec.entrypoints@[index as int].1;
                let end = self.ambient_start(
                    env_prepared(worker_void(carried(data@)), entry.environment@),
                ).run(entry.args@, granted@, false);
                match planned {
                    Ok((builder, args)) => end.failed is None && builder@ == end.builder
                        && args.0@ == end.prepared && builder@.wf() && all_kept(
                        delivered(args.0@),
                        builder@,
                    ) && (forall|k: int|
                        0 <= k < carried(data@).len() ==> builder@.fds.contains(
                            #[trigger] carried(data@)[k],
                        )),
                    Err(e) => end.failed == Some(e@),
                }
            }),
    {
        let entry = &self.spec.entrypoints[index].1;
        let mut builder = VoidBuilder::new();
        builder.mount("/entrypoint", "/entrypoint");
        assert(builder@ == worker_void(Seq::empty()));
        if let TriggerData::FileSocket(fds) = data {
            let mut i: usize = 0;
            assert(fd_views(fds@).take(0) =~= Seq::empty());
            while i < fds.len()
                invariant
                    i <= fds@.len(),
                    builder@.wf(),
                    builder@ == worker_void(fd_views(fds@).take(i as int)),
                decreases fds@.len() - i,
            {
                builder.keep_fd(fds[i]);
                proof {
                    let next = fd_views(fds@).take(i + 1);
                    assert(next.drop_last() =~= fd_views(fds@).take(i as int));
                    assert(next.last() == fds@[i as int] as int);
                }
                i += 1;
            }
            assert(fd_views(fds@).take(i as int) =~= fd_views(fds@));
        }
        self.prepare_env(&mut builder, &entry.environment);
        proof {
            lemma_delivered_are_kept(self.ambient_start(builder@), entry.args@, granted@, false);
            let arrived = carried(data@);
            let start = self.ambient_start(builder@);
            assert forall|k: int| 0 <= k < arrived.len() implies start.run(
                entry.args@,
                granted@,
                false,
            ).builder.fds.contains(#[trigger] arrived[k]) by {
                lemma_worker_void_keeps(arrived, k);
                lemma_env_keeps(worker_void(arrived), entry.environment@, arrived[k]);
                lemma_run_keeps(start, entry.args@, granted@, false, arrived[k]);
            }
        }
        match PreparedArgs::prepare_ambient(self, &mut builder, &entry.args, granted) {
            Ok(args) => Ok((builder, args)),
            Err(e) => Err(e),
        }
    }

    /// The exit code of a supervisor whose trigger loop has ended: that of
    /// success where the loop ended cleanly, 1 where it failed.
    pub fn supervisor_exit_code(outcome: &Result<(), Error>) -> (code: i32)
        ensures
            code == (if outcome is Ok {
                0i32
            } else {
                1i32
            }),
    {
        match outcome {
            Ok(_) => ok_exit_code(),
            Err(_) => 1,
        }
    }
}

/// Applying capabilities never lets go of a descriptor that the void keeps.
pub proof fn lemma_env_keeps(b: BuilderView, environment: Seq<Environment>, fd: int)
    requires
        b.fds.contains(fd),
    ensures
        env_prepared(b, environment).fds.contains(fd),
    decreases environment.len(),
{
    if environment.len() > 0 {
        lemma_env_keeps(b, environment.drop_last(), fd);
        let before = env_prepared(b, environment.drop_last());
        lemma_with_fd_keeps(before.fds, 0, fd);
        lemma_with_fd_keeps(before.fds, 1, fd);
        lemma_with_fd_keeps(before.fds, 2, fd);
    }
}

/// The void of a worker keeps every descriptor that arrived.
pub proof fn lemma_worker_void_keeps(fds: Seq<int>, k: int)
    requires
        0 <= k < fds.len(),
    ensures
        worker_void(fds).fds.contains(fds[k]),
    decreases fds.len(),
{
    let front = worker_void(fds.drop_last());
    if k == fds.len() - 1 {
        lemma_with_fd_keeps(front.fds, fds.last(), fds.last());
    } else {
        lemma_worker_void_keeps(fds.drop_last(), k);
        lemma_with_fd_keeps(front.fds, fds.last(), fds[k]);
    }
}

/// The read end that a supervisor was handed is gone from the fabric: the
/// pair is still found under its name, and the parent no longer holds its
/// read end.
pub proof fn lemma_supervisor_end_is_gone(pairs: Seq<PairView>, name: Seq<char>)
    requires
        read_end(pairs, name) is Some,
    ensures
        position(without_read_end(pairs, name), name) == position(pairs, name),
        read_end(without_read_end(pairs, name), name) is None,
{
    lemma_position_names(pairs, name);
    lemma_position_by_names(pairs, without_read_end(pairs, name), name, 0);
}

} // verus!
