//! The argument preparer. Arguments are prepared in two phases: with ambient
//! authority in the parent, where files are opened, ports are bound and
//! channel ends are taken; and inside the void, where descriptor numbers are
//! written out and the command line is assembled.

use vstd::prelude::*;
use vstd::string::*;
use crate::decimal::{decimal, fd_to_string};
use crate::error::{Error, ErrorView};
use crate::fabric::{
    find_pipe, find_socket, pipe_views, position, socket_views, PairView, PipePair, SocketPair,
};
use crate::spawner::Spawner;
use crate::specification::{names, Arg, FileSocket, Pipe};
use crate::void::{with_fd, BuilderView, VoidBuilder};

verus! {

/// Work that only the parent can do for an argument, with its ambient
/// authority. Each request is answered by one descriptor.
#[derive(Debug, Clone, PartialEq, Eq)]
pub enum AmbientRequest {
    /// Open the file read-only.
    OpenFile(String),
    /// Bind a TCP socket to the address and listen on it.
    BindTcpListener(String),
    /// Duplicate the write end of the named socket pair.
    DuplicateSocketWrite(String),
}

/// The mathematical value of an [`AmbientRequest`].
pub enum RequestView {
    OpenFile(Seq<char>),
    BindTcpListener(Seq<char>),
    DuplicateSocketWrite(Seq<char>),
}

impl View for AmbientRequest {
    type V = RequestView;

    open spec fn view(&self) -> RequestView {
        match *self {
            AmbientRequest::OpenFile(p) => RequestView::OpenFile(p@),
            AmbientRequest::BindTcpListener(a) => RequestView::BindTcpListener(a@),
            AmbientRequest::DuplicateSocketWrite(n) => RequestView::DuplicateSocketWrite(n@),
        }
    }
}

/// The values of a list of requests.
pub open spec fn request_views(requests: Seq<AmbientRequest>) -> Seq<RequestView> {
    requests.map_values(|r: AmbientRequest| r@)
}

/// What the parent has to do for one argument, if anything.
pub open spec fn request_of(arg: Arg) -> Option<RequestView> {
    match arg {
        Arg::File(path) => Some(RequestView::OpenFile(path@)),
        Arg::TcpListener { addr } => Some(RequestView::BindTcpListener(addr@)),
        Arg::FileSocket(FileSocket::Tx(name)) => Some(RequestView::DuplicateSocketWrite(name@)),
        _ => None,
    }
}

/// What the parent has to do for a run of arguments, in order.
pub open spec fn requests_of(args: Seq<Arg>) -> Seq<RequestView>
    decreases args.len(),
{
    if args.len() == 0 {
        Seq::empty()
    } else {
        match request_of(args.last()) {
            Some(r) => requests_of(args.drop_last()).push(r),
            None => requests_of(args.drop_last()),
        }
    }
}

/// An argument after the ambient phase: whatever needed the parent's
/// authority has become a descriptor.
#[derive(Debug, Clone, Copy, PartialEq, Eq)]
pub enum PreparedArg {
    BinaryName,
    Entrypoint,
    File(i32),
    Pipe(i32),
    FileSocket(i32),
    Trigger,
    TcpListener { socket: i32 },
    Trailing,
}

/// The arguments of one entrypoint after the ambient phase.
#[derive(Debug, Clone, PartialEq, Eq)]
pub struct PreparedArgs(pub Vec<PreparedArg>);

/// What a trigger delivered.
#[derive(Debug, Clone, PartialEq, Eq)]
pub enum TriggerData {
    /// Nothing, as at startup.
    Nothing,
    /// A record read from a pipe.
    Pipe(String),
    /// Descriptors received over a socket, not yet handed on.
    FileSocket(Vec<i32>),
}

/// The mathematical value of a [`TriggerData`].
pub enum TriggerView {
    Nothing,
    Pipe(Seq<char>),
    FileSocket(Seq<int>),
}

impl View for TriggerData {
    type V = TriggerView;

    open spec fn view(&self) -> TriggerView {
        match *self {
            TriggerData::Nothing => TriggerView::Nothing,
            TriggerData::Pipe(s) => TriggerView::Pipe(s@),
            TriggerData::FileSocket(fds) => TriggerView::FileSocket(crate::void::fd_views(fds@)),
        }
    }
}

/// The numerals of a list of descriptors.
pub open spec fn numerals(fds: Seq<int>) -> Seq<Seq<char>> {
    Seq::new(fds.len(), |i: int| decimal(fds[i]))
}

impl TriggerView {
    /// The command-line entries that the trigger data yields: none at
    /// startup, the record for a pipe, one numeral for each descriptor for a
    /// socket.
    pub open spec fn args(self) -> Seq<Seq<char>> {
        match self {
            TriggerView::Nothing => Seq::empty(),
            TriggerView::Pipe(s) => seq![s],
            TriggerView::FileSocket(fds) => numerals(fds),
        }
    }

    /// What is left once the entries have been handed out: descriptors are
    /// handed out once.
    pub open spec fn spent(self) -> TriggerView {
        match self {
            TriggerView::FileSocket(_) => TriggerView::FileSocket(Seq::empty()),
            other => other,
        }
    }
}

impl TriggerData {
    /// Hands out the command-line entries of the trigger data. Received
    /// descriptors are released by this and are not handed out again.
    pub fn args(&mut self) -> (entries: Vec<String>)
        ensures
            names(entries@) == old(self)@.args(),
            final(self)@ == old(self)@.spent(),
    {
        let mut entries: Vec<String> = Vec::new();
        assert(names(entries@) =~= Seq::empty());
        match self {
            TriggerData::Nothing => {},
            TriggerData::Pipe(s) => {
                entries.push(s.clone());
                assert(names(entries@) =~= seq![s@]);
            },
            TriggerData::FileSocket(fds) => {
                let mut i: usize = 0;
                while i < fds.len()
                    invariant
                        i <= fds@.len(),
                        names(entries@) == numerals(crate::void::fd_views(fds@).take(i as int)),
                    decreases fds@.len() - i,
                {
                    let ghost before = names(entries@);
                    entries.push(fd_to_string(fds[i]));
                    proof {
                        let views = crate::void::fd_views(fds@);
                        assert(names(entries@) =~= before.push(decimal(views[i as int])));
                        assert(numerals(views.take(i + 1)) =~= numerals(views.take(i as int)).push(
                            decimal(views[i as int]),
                        ));
                    }
                    i += 1;
                }
                assert(crate::void::fd_views(fds@).take(i as int) =~= crate::void::fd_views(fds@));
                fds.clear();
                assert(crate::void::fd_views(fds@) =~= Seq::empty());
            },
        }
        entries
    }
}

/// The state of the ambient phase: the fabric, what the void is granted so
/// far, how many answers to requests have been used, the arguments prepared
/// so far, and the failure that ended the phase, if one did.
pub struct Ambient {
    pub pipes: Seq<PairView>,
    pub sockets: Seq<PairView>,
    pub builder: BuilderView,
    pub used: int,
    pub prepared: Seq<PreparedArg>,
    pub failed: Option<ErrorView>,
}

impl Ambient {
    /// The phase has failed with the given error.
    pub open spec fn fail(self, error: ErrorView) -> Ambient {
        Ambient { failed: Some(error), ..self }
    }

    /// An argument that needs nothing from the parent has been passed on.
    pub open spec fn pass(self, arg: PreparedArg) -> Ambient {
        Ambient { prepared: self.prepared.push(arg), ..self }
    }

    /// The next answer has been used for an argument and is kept open.
    pub open spec fn grant(self, arg: PreparedArg, fd: i32) -> Ambient {
        Ambient {
            builder: BuilderView { fds: with_fd(self.builder.fds, fd as int), ..self.builder },
            used: self.used + 1,
            prepared: self.prepared.push(arg),
            ..self
        }
    }

    /// An end of a pipe has been asked for.
    pub open spec fn take_pipe(self, end: Pipe) -> Ambient {
        match position(self.pipes, end.name()) {
            None => self.fail(ErrorView::BadPipe(end.name())),
            Some(i) => {
                let pair = self.pipes[i];
                match end {
                    Pipe::Rx(_) => match pair.read {
                        None => self.fail(ErrorView::BadPipe(end.name())),
                        Some(fd) => Ambient {
                            pipes: self.pipes.update(i, PairView { read: None, ..pair }),
                            builder: BuilderView {
                                fds: with_fd(self.builder.fds, fd as i32 as int),
                                ..self.builder
                            },
                            prepared: self.prepared.push(PreparedArg::Pipe(fd as i32)),
                            ..self
                        },
                    },
                    Pipe::Tx(_) => match pair.write {
                        None => self.fail(ErrorView::BadPipe(end.name())),
                        Some(fd) => Ambient {
                            pipes: self.pipes.update(i, PairView { write: None, ..pair }),
                            builder: BuilderView {
                                fds: with_fd(self.builder.fds, fd as i32 as int),
                                ..self.builder
                            },
                            prepared: self.prepared.push(PreparedArg::Pipe(fd as i32)),
                            ..self
                        },
                    },
                }
            },
        }
    }

    /// The read end of a socket pair has been asked for.
    pub open spec fn take_socket(self, name: Seq<char>) -> Ambient {
        match position(self.sockets, name) {
            None => self.fail(ErrorView::BadFileSocket(name)),
            Some(i) => {
                let pair = self.sockets[i];
                match pair.read {
                    None => self.fail(ErrorView::BadFileSocket(name)),
                    Some(fd) => Ambient {
                        sockets: self.sockets.update(i, PairView { read: None, ..pair }),
                        builder: BuilderView {
                            fds: with_fd(self.builder.fds, fd as i32 as int),
                            ..self.builder
                        },
                        prepared: self.prepared.push(PreparedArg::FileSocket(fd as i32)),
                        ..self
                    },
                }
            },
        }
    }

    /// One argument has been prepared. Nothing happens once the phase has
    /// failed. Ends of channels are handed out only where the fabric may be
    /// used up (`may_take`): elsewhere asking for one is an error. Each
    /// request is answered by the next of the `granted` descriptors.
    pub open spec fn step(self, arg: Arg, granted: Seq<i32>, may_take: bool) -> Ambient {
        if self.failed is Some {
            self
        } else {
            match arg {
                Arg::BinaryName => self.pass(PreparedArg::BinaryName),
                Arg::Entrypoint => self.pass(PreparedArg::Entrypoint),
                Arg::Trigger => self.pass(PreparedArg::Trigger),
                Arg::Trailing => self.pass(PreparedArg::Trailing),
                Arg::File(_) => self.grant(
                    PreparedArg::File(granted[self.used]),
                    granted[self.used],
                ),
                Arg::TcpListener { addr: _ } => self.grant(
                    PreparedArg::TcpListener { socket: granted[self.used] },
                    granted[self.used],
                ),
                Arg::FileSocket(FileSocket::Tx(_)) => self.grant(
                    PreparedArg::FileSocket(granted[self.used]),
                    granted[self.used],
                ),
                Arg::Pipe(end) => if may_take {
                    self.take_pipe(end)
                } else {
                    self.fail(ErrorView::BadPipe(end.name()))
                },
                Arg::FileSocket(FileSocket::Rx(name)) => if may_take {
                    self.take_socket(name@)
                } else {
                    self.fail(ErrorView::BadFileSocket(name@))
                },
            }
        }
    }

    /// A run of arguments has been prepared, in order.
    pub open spec fn run(self, args: Seq<Arg>, granted: Seq<i32>, may_take: bool) -> Ambient
        decreases args.len(),
    {
        if args.len() == 0 {
            self
        } else {
            self.run(args.drop_last(), granted, may_take).step(args.last(), granted, may_take)
        }
    }
}

/// The phase never uses more answers than there are requests.
pub proof fn lemma_used_answers(start: Ambient, args: Seq<Arg>, granted: Seq<i32>, may_take: bool)
    ensures
        start.used <= start.run(args, granted, may_take).used <= start.used + requests_of(
            args,
        ).len(),
    decreases args.len(),
{
    if args.len() > 0 {
        lemma_used_answers(start, args.drop_last(), granted, may_take);
    }
}

/// Requests only grow along a run of arguments.
pub proof fn lemma_requests_grow(args: Seq<Arg>, i: int)
    requires
        0 <= i <= args.len(),
    ensures
        requests_of(args.take(i)).len() <= requests_of(args).len(),
    decreases args.len(),
{
    if i < args.len() {
        lemma_requests_grow(args.drop_last(), i);
        assert(args.drop_last().take(i) =~= args.take(i));
    } else {
        assert(args.take(i) =~= args);
    }
}

/// The state of the ambient phase that the given values stand for.
pub open spec fn ambient(
    spawner: Spawner,
    builder: VoidBuilder,
    used: usize,
    prepared: Seq<PreparedArg>,
    failed: Option<Error>,
) -> Ambient {
    Ambient {
        pipes: pipe_views(spawner.pipes@),
        sockets: socket_views(spawner.sockets@),
        builder: builder@,
        used: used as int,
        prepared,
        failed: match failed {
            Some(e) => Some(e@),
            None => None,
        },
    }
}

/// Takes one end of a pipe out of the fabric.
pub fn take_pipe_end(pipes: &mut Vec<PipePair>, end: &Pipe) -> (taken: Result<i32, Error>)
    ensures
        match position(pipe_views(old(pipes)@), end.name()) {
            None => pipe_views(final(pipes)@) == pipe_views(old(pipes)@) && (taken matches Err(e)
                && e@ == ErrorView::BadPipe(end.name())),
            Some(i) => {
                let pair = pipe_views(old(pipes)@)[i];
                let wanted = if end is Rx {
                    pair.read
                } else {
                    pair.write
                };
                let left = if end is Rx {
                    PairView { read: None, ..pair }
                } else {
                    PairView { write: None, ..pair }
                };
                match wanted {
                    None => pipe_views(final(pipes)@) == pipe_views(old(pipes)@) && (
                    taken matches Err(e) && e@ == ErrorView::BadPipe(end.name())),
                    Some(fd) => pipe_views(final(pipes)@) == pipe_views(old(pipes)@).update(i, left)
                        && taken == Ok::<i32, Error>(fd as i32) && fd == fd as i32,
                }
            },
        },
{
    let name = match end {
        Pipe::Rx(n) => n,
        Pipe::Tx(n) => n,
    };
    match find_pipe(pipes, name) {
        None => Err(Error::BadPipe(name.clone())),
        Some(i) => {
            proof {
                lemma_position_names(pipe_views(pipes@), name@);
            }
            let mut pair = pipes.remove(i);
            let taken = match end {
                Pipe::Rx(_) => pair.take_read(),
                Pipe::Tx(_) => pair.take_write(),
            };
            pipes.insert(i, pair);
            proof {
                let before = pipe_views(old(pipes)@);
                if taken is Ok {
                    assert(pipe_views(pipes@) =~= before.update(i as int, pair@));
                } else {
                    assert(pipe_views(pipes@) =~= before);
                }
            }
            taken
        },
    }
}

/// Takes the read end of a socket pair out of the fabric.
pub fn take_socket_end(sockets: &mut Vec<SocketPair>, name: &String) -> (taken: Result<i32, Error>)
    ensures
        match position(socket_views(old(sockets)@), name@) {
            None => socket_views(final(sockets)@) == socket_views(old(sockets)@) && (
            taken matches Err(e) && e@ == ErrorView::BadFileSocket(name@)),
            Some(i) => {
                let pair = socket_views(old(sockets)@)[i];
                match pair.read {
                    None => socket_views(final(sockets)@) == socket_views(old(sockets)@) && (
                    taken matches Err(e) && e@ == ErrorView::BadFileSocket(name@)),
                    Some(fd) => socket_views(final(sockets)@) == socket_views(
                        old(sockets)@,
                    ).update(i, PairView { read: None, ..pair }) && taken == Ok::<i32, Error>(
                        fd as i32,
                    ) && fd == fd as i32,
                }
            },
        },
{
    match find_socket(sockets, name) {
        None => Err(Error::BadFileSocket(name.clone())),
        Some(i) => {
            proof {
                lemma_position_names(socket_views(sockets@), name@);
            }
            let mut pair = sockets.remove(i);
            let taken = pair.take_read();
            sockets.insert(i, pair);
            proof {
                let before = socket_views(old(sockets)@);
                if taken is Ok {
                    assert(socket_views(sockets@) =~= before.update(i as int, pair@));
                } else {
                    assert(socket_views(sockets@) =~= before);
                }
            }
            taken
        },
    }
}

/// The pair that a search by name finds has that name.
pub proof fn lemma_position_names(pairs: Seq<PairView>, name: Seq<char>)
    ensures
        position(pairs, name) matches Some(i) ==> 0 <= i < pairs.len() && pairs[i].name == name,
{
    lemma_position_from(pairs, name, 0);
}

/// The pair that a search by name from `i` on finds has that name.
pub proof fn lemma_position_from(pairs: Seq<PairView>, name: Seq<char>, i: int)
    requires
        0 <= i,
    ensures
        crate::fabric::position_from(pairs, name, i) matches Some(k) ==> i <= k < pairs.len()
            && pairs[k].name == name,
    decreases pairs.len() - i,
{
    if i < pairs.len() && pairs[i].name != name {
        lemma_position_from(pairs, name, i + 1);
    }
}

impl PreparedArg {
    /// Prepares one argument with ambient authority, in a place where the
    /// fabric may be used up: ends of pipes and read ends of sockets are
    /// taken out of it.
    fn prepare_ambient_mut(
        spawner: &mut Spawner,
        builder: &mut VoidBuilder,
        arg: &Arg,
        granted: &Vec<i32>,
        used: &mut usize,
        prepared: &mut Vec<PreparedArg>,
    ) -> (failed: Option<Error>)
        requires
            request_of(*arg) is Some ==> *old(used) < granted@.len(),
        ensures
            ambient(*final(spawner), *final(builder), *final(used), final(prepared)@, failed)
                == ambient(*old(spawner), *old(builder), *old(used), old(prepared)@, None).step(
                *arg,
                granted@,
                true,
            ),
            final(spawner).unchanged_but_fabric(*old(spawner)),
            old(builder)@.wf() ==> final(builder)@.wf(),
    {
        match arg {
            Arg::Pipe(end) => {
                match take_pipe_end(&mut spawner.pipes, end) {
                    Ok(fd) => {
                        builder.keep_fd(fd);
                        prepared.push(PreparedArg::Pipe(fd));
                        None
                    },
                    Err(e) => Some(e),
                }
            },
            Arg::FileSocket(FileSocket::Rx(name)) => {
                match take_socket_end(&mut spawner.sockets, name) {
                    Ok(fd) => {
                        builder.keep_fd(fd);
                        prepared.push(PreparedArg::FileSocket(fd));
                        None
                    },
                    Err(e) => Some(e),
                }
            },
            other => PreparedArg::prepare_ambient(spawner, builder, other, granted, used, prepared),
        }
    }

    /// Prepares one argument with ambient authority, in a place where the
    /// fabric must be left as it is: asking for an end of a pipe or for the
    /// read end of a socket is an error there.
    fn prepare_ambient(
        spawner: &Spawner,
        builder: &mut VoidBuilder,
        arg: &Arg,
        granted: &Vec<i32>,
        used: &mut usize,
        prepared: &mut Vec<PreparedArg>,
    ) -> (failed: Option<Error>)
        requires
            request_of(*arg) is Some ==> *old(used) < granted@.len(),
        ensures
            ambient(*spawner, *final(builder), *final(used), final(prepared)@, failed) == ambient(
                *spawner,
                *old(builder),
                *old(used),
                old(prepared)@,
                None,
            ).step(*arg, granted@, false),
            !(arg is Pipe) && !(arg matches Arg::FileSocket(FileSocket::Rx(_))) ==> ambient(
                *spawner,
                *final(builder),
                *final(used),
                final(prepared)@,
                failed,
            ) == ambient(*spawner, *old(builder), *old(used), old(prepared)@, None).step(
                *arg,
                granted@,
                true,
            ),
            old(builder)@.wf() ==> final(builder)@.wf(),
    {
        match arg {
            Arg::Pipe(end) => Some(Error::BadPipe(String::from_str(end.get_name()))),
            Arg::FileSocket(FileSocket::Rx(name)) => Some(Error::BadFileSocket(name.clone())),
            Arg::FileSocket(FileSocket::Tx(_)) => {
                let limit = granted.len();
                let fd = granted[*used];
                assert(*used < limit);
                *used = *used + 1;
                builder.keep_fd(fd);
                prepared.push(PreparedArg::FileSocket(fd));
                None
            },
            Arg::File(_) => {
                let limit = granted.len();
                let fd = granted[*used];
                assert(*used < limit);
                *used = *used + 1;
                builder.keep_fd(fd);
                prepared.push(PreparedArg::File(fd));
                None
            },
            Arg::TcpListener { addr: _ } => {
                let limit = granted.len();
                let fd = granted[*used];
                assert(*used < limit);
                *used = *used + 1;
                builder.keep_fd(fd);
                prepared.push(PreparedArg::TcpListener { socket: fd });
                None
            },
            Arg::BinaryName => {
                prepared.push(PreparedArg::BinaryName);
                None
            },
            Arg::Entrypoint => {
                prepared.push(PreparedArg::Entrypoint);
                None
            },
            Arg::Trigger => {
                prepared.push(PreparedArg::Trigger);
                None
            },
            Arg::Trailing => {
                prepared.push(PreparedArg::Trailing);
                None
            },
        }
    }
}

/// The command-line entries that one prepared argument yields, and what is
/// left of the trigger data afterwards. A descriptor is written as its
/// decimal number.
pub open spec fn void_entries(
    arg: PreparedArg,
    binary: Seq<char>,
    trailing: Seq<Seq<char>>,
    entrypoint: Seq<char>,
    trigger: TriggerView,
) -> (Seq<Seq<char>>, TriggerView) {
    match arg {
        PreparedArg::BinaryName => (seq![binary], trigger),
        PreparedArg::Entrypoint => (seq![entrypoint], trigger),
        PreparedArg::File(fd) => (seq![decimal(fd as int)], trigger),
        PreparedArg::Pipe(fd) => (seq![decimal(fd as int)], trigger),
        PreparedArg::FileSocket(fd) => (seq![decimal(fd as int)], trigger),
        PreparedArg::TcpListener { socket } => (seq![decimal(socket as int)], trigger),
        PreparedArg::Trigger => (trigger.args(), trigger.spent()),
        PreparedArg::Trailing => (trailing, trigger),
    }
}

/// The command line that a run of prepared arguments yields, in order, and
/// what is left of the trigger data afterwards.
pub open spec fn void_command_line(
    prepared: Seq<PreparedArg>,
    binary: Seq<char>,
    trailing: Seq<Seq<char>>,
    entrypoint: Seq<char>,
    trigger: TriggerView,
) -> (Seq<Seq<char>>, TriggerView)
    decreases prepared.len(),
{
    if prepared.len() == 0 {
        (Seq::empty(), trigger)
    } else {
        let front = void_command_line(prepared.drop_last(), binary, trailing, entrypoint, trigger);
        let last = void_entries(prepared.last(), binary, trailing, entrypoint, front.1);
        (front.0 + last.0, last.1)
    }
}

impl PreparedArg {
    /// Completes the preparation of one argument inside the void.
    fn prepare_void(self, spawner: &Spawner, entrypoint: &str, trigger: &mut TriggerData) -> (entries:
        Vec<String>)
        ensures
            (names(entries@), final(trigger)@) == void_entries(
                self,
                spawner.binary@,
                names(spawner.binary_args@),
                entrypoint@,
                old(trigger)@,
            ),
    {
        let mut entries: Vec<String> = Vec::new();
        match self {
            PreparedArg::BinaryName => {
                entries.push(spawner.binary.clone());
                assert(names(entries@) =~= seq![spawner.binary@]);
            },
            PreparedArg::Entrypoint => {
                entries.push(String::from_str(entrypoint));
                assert(names(entries@) =~= seq![entrypoint@]);
            },
            PreparedArg::File(fd) => {
                entries.push(fd_to_string(fd));
                assert(names(entries@) =~= seq![decimal(fd as int)]);
            },
            PreparedArg::Pipe(fd) => {
                entries.push(fd_to_string(fd));
                assert(names(entries@) =~= seq![decimal(fd as int)]);
            },
            PreparedArg::FileSocket(fd) => {
                entries.push(fd_to_string(fd));
                assert(names(entries@) =~= seq![decimal(fd as int)]);
            },
            PreparedArg::TcpListener { socket } => {
                entries.push(fd_to_string(socket));
                assert(names(entries@) =~= seq![decimal(socket as int)]);
            },
            PreparedArg::Trigger => {
                entries = trigger.args();
            },
            PreparedArg::Trailing => {
                let mut i: usize = 0;
                assert(names(entries@) =~= names(spawner.binary_args@).take(0));
                while i < spawner.binary_args.len()
                    invariant
                        i <= spawner.binary_args@.len(),
                        names(entries@) == names(spawner.binary_args@).take(i as int),
                    decreases spawner.binary_args@.len() - i,
                {
                    let ghost before = names(entries@);
                    let entry = spawner.binary_args[i].clone();
                    entries.push(entry);
                    proof {
                        let all = names(spawner.binary_args@);
                        assert(entry@ == all[i as int]);
                        assert(names(entries@) =~= before.push(entry@));
                        assert(all.take(i + 1) =~= all.take(i as int).push(all[i as int]));
                    }
                    i += 1;
                }
                assert(names(spawner.binary_args@).take(i as int) =~= names(spawner.binary_args@));
            },
        }
        entries
    }
}

impl PreparedArgs {
    /// What the parent has to do before the ambient phase: one request for
    /// each argument that needs a file opened, a port bound or a write end
    /// duplicated, in the order of the arguments.
    pub fn ambient_requests(args: &Vec<Arg>) -> (requests: Vec<AmbientRequest>)
        ensures
            request_views(requests@) == requests_of(args@),
    {
        let mut requests: Vec<AmbientRequest> = Vec::new();
        let mut i: usize = 0;
        assert(args@.take(0) =~= Seq::empty());
        assert(request_views(requests@) =~= Seq::empty());
        while i < args.len()
            invariant
                i <= args@.len(),
                request_views(requests@) == requests_of(args@.take(i as int)),
            decreases args@.len() - i,
        {
            let ghost before = request_views(requests@);
            match &args[i] {
                Arg::File(path) => {
                    requests.push(AmbientRequest::OpenFile(path.clone()));
                },
                Arg::TcpListener { addr } => {
                    requests.push(AmbientRequest::BindTcpListener(addr.clone()));
                },
                Arg::FileSocket(FileSocket::Tx(name)) => {
                    requests.push(AmbientRequest::DuplicateSocketWrite(name.clone()));
                },
                _ => {},
            }
            proof {
                let next = args@.take(i + 1);
                assert(next.drop_last() =~= args@.take(i as int));
                assert(next.last() == args@[i as int]);
                match request_of(args@[i as int]) {
                    Some(r) => {
                        assert(request_views(requests@) =~= before.push(r));
                    },
                    None => {
                        assert(request_views(requests@) =~= before);
                    },
                }
            }
            i += 1;
        }
        assert(args@.take(i as int) =~= args@);
        requests
    }

    /// The ambient phase of an entrypoint that is started once: whatever
    /// needs the parent's authority is done, and the builder is told to keep
    /// each descriptor that results. Ends of pipes and read ends of sockets
    /// are taken out of the fabric. `granted` holds the answers to the
    /// requests of these arguments, in order. The first argument that cannot
    /// be prepared ends the phase with its error.
    pub fn prepare_ambient_mut(
        spawner: &mut Spawner,
        builder: &mut VoidBuilder,
        args: &Vec<Arg>,
        granted: &Vec<i32>,
    ) -> (outcome: Result<PreparedArgs, Error>)
        requires
            granted@.len() == requests_of(args@).len(),
        ensures
            ({
                let end = ambient(*old(spawner), *old(builder), 0, Seq::empty(), None).run(
                    args@,
                    granted@,
                    true,
                );
                &&& pipe_views(final(spawner).pipes@) == end.pipes
                &&& socket_views(final(spawner).sockets@) == end.sockets
                &&& final(builder)@ == end.builder
                &&& match outcome {
                    Ok(prepared) => end.failed is None && prepared.0@ == end.prepared,
                    Err(e) => end.failed == Some(e@),
                }
            }),
            final(spawner).unchanged_but_fabric(*old(spawner)),
            old(builder)@.wf() ==> final(builder)@.wf(),
    {
        let ghost start = ambient(*spawner, *builder, 0, Seq::empty(), None);
        let mut prepared: Vec<PreparedArg> = Vec::new();
        let mut failure: Option<Error> = None;
        let mut used: usize = 0;
        let mut i: usize = 0;
        assert(args@.take(0) =~= Seq::empty());
        while i < args.len()
            invariant
                i <= args@.len(),
                granted@.len() == requests_of(args@).len(),
                start.used == 0,
                old(builder)@.wf() ==> builder@.wf(),
                spawner.unchanged_but_fabric(*old(spawner)),
                ambient(*spawner, *builder, used, prepared@, failure) == start.run(
                    args@.take(i as int),
                    granted@,
                    true,
                ),
            decreases args@.len() - i,
        {
            proof {
                let next = args@.take(i + 1);
                assert(next.drop_last() =~= args@.take(i as int));
                assert(next.last() == args@[i as int]);
                lemma_used_answers(start, args@.take(i as int), granted@, true);
                lemma_requests_grow(args@, i + 1);
                assert(start.run(args@.take(i as int), granted@, true).used == used);
                assert(request_of(args@[i as int]) is Some ==> requests_of(next).len()
                    == requests_of(args@.take(i as int)).len() + 1);
            }
            if failure.is_none() {
                failure =
                PreparedArg::prepare_ambient_mut(
                    spawner,
                    builder,
                    &args[i],
                    granted,
                    &mut used,
                    &mut prepared,
                );
            }
            i += 1;
        }
        assert(args@.take(i as int) =~= args@);
        match failure {
            Some(e) => Err(e),
            None => Ok(PreparedArgs(prepared)),
        }
    }

    /// The ambient phase of an entrypoint that is started for every arrival:
    /// the fabric is left as it is, so an argument that asks for an end of a
    /// pipe or for the read end of a socket ends the phase with an error.
    /// `granted` holds the answers to the requests of these arguments, in
    /// order.
    pub fn prepare_ambient(
        spawner: &Spawner,
        builder: &mut VoidBuilder,
        args: &Vec<Arg>,
        granted: &Vec<i32>,
    ) -> (outcome: Result<PreparedArgs, Error>)
        requires
            granted@.len() == requests_of(args@).len(),
        ensures
            ({
                let end = ambient(*spawner, *old(builder), 0, Seq::empty(), None).run(
                    args@,
                    granted@,
                    false,
                );
                &&& final(builder)@ == end.builder
                &&& match outcome {
                    Ok(prepared) => end.failed is None && prepared.0@ == end.prepared,
                    Err(e) => end.failed == Some(e@),
                }
            }),
            old(builder)@.wf() ==> final(builder)@.wf(),
    {
        let ghost start = ambient(*spawner, *builder, 0, Seq::empty(), None);
        let mut prepared: Vec<PreparedArg> = Vec::new();
        let mut failure: Option<Error> = None;
        let mut used: usize = 0;
        let mut i: usize = 0;
        assert(args@.take(0) =~= Seq::empty());
        while i < args.len()
            invariant
                i <= args@.len(),
                granted@.len() == requests_of(args@).len(),
                start.used == 0,
                old(builder)@.wf() ==> builder@.wf(),
                ambient(*spawner, *builder, used, prepared@, failure) == start.run(
                    args@.take(i as int),
                    granted@,
                    false,
                ),
            decreases args@.len() - i,
        {
            proof {
                let next = args@.take(i + 1);
                assert(next.drop_last() =~= args@.take(i as int));
                assert(next.last() == args@[i as int]);
                lemma_used_answers(start, args@.take(i as int), granted@, false);
                lemma_requests_grow(args@, i + 1);
                assert(start.run(args@.take(i as int), granted@, false).used == used);
                assert(request_of(args@[i as int]) is Some ==> requests_of(next).len()
                    == requests_of(args@.take(i as int)).len() + 1);
            }
            if failure.is_none() {
                failure =
                PreparedArg::prepare_ambient(
                    spawner,
                    builder,
                    &args[i],
                    granted,
                    &mut used,
                    &mut prepared,
                );
            }
            i += 1;
        }
        assert(args@.take(i as int) =~= args@);
        match failure {
            Some(e) => Err(e),
            None => Ok(PreparedArgs(prepared)),
        }
    }

    /// The void phase: inside the void, after every other descriptor has
    /// been closed, the command line is assembled. Each descriptor is
    /// released as its decimal number; the trigger data is handed out where
    /// it is asked for.
    pub fn prepare_void(self, spawner: &Spawner, entrypoint: &str, trigger: &mut TriggerData) -> (argv:
        Result<Vec<String>, Error>)
        ensures
            argv matches Ok(line) && (names(line@), final(trigger)@) == void_command_line(
                self.0@,
                spawner.binary@,
                names(spawner.binary_args@),
                entrypoint@,
                old(trigger)@,
            ),
    {
        let mut line: Vec<String> = Vec::new();
        let mut i: usize = 0;
        assert(self.0@.take(0) =~= Seq::empty());
        assert(names(line@) =~= Seq::empty());
        while i < self.0.len()
            invariant
                i <= self.0@.len(),
                (names(line@), trigger@) == void_command_line(
                    self.0@.take(i as int),
                    spawner.binary@,
                    names(spawner.binary_args@),
                    entrypoint@,
                    old(trigger)@,
                ),
            decreases self.0@.len() - i,
        {
            let ghost before = names(line@);
            let mut entries = self.0[i].prepare_void(spawner, entrypoint, trigger);
            let ghost added = names(entries@);
            line.append(&mut entries);
            proof {
                let next = self.0@.take(i + 1);
                assert(next.drop_last() =~= self.0@.take(i as int));
                assert(next.last() == self.0@[i as int]);
                assert(names(line@) =~= before + added);
            }
            i += 1;
        }
        assert(self.0@.take(i as int) =~= self.0@);
        Ok(line)
    }
}

/// The pairs `after` are the pairs `before` with some ends taken: the same
/// names in the same places, and every end either as it was or gone.
pub open spec fn only_taken(before: Seq<PairView>, after: Seq<PairView>) -> bool {
    &&& before.len() == after.len()
    &&& forall|i: int|
        0 <= i < before.len() ==> {
            &&& (#[trigger] after[i]).name == before[i].name
            &&& (after[i].read == before[i].read || after[i].read is None)
            &&& (after[i].write == before[i].write || after[i].write is None)
        }
}

/// A search by name finds the same place in two fabrics that hold the same
/// names in the same places.
pub proof fn lemma_position_by_names(a: Seq<PairView>, b: Seq<PairView>, name: Seq<char>, i: int)
    requires
        0 <= i,
        a.len() == b.len(),
        forall|k: int| 0 <= k < a.len() ==> (#[trigger] b[k]).name == a[k].name,
    ensures
        crate::fabric::position_from(a, name, i) == crate::fabric::position_from(b, name, i),
    decreases a.len() - i,
{
    if i < a.len() {
        assert(b[i].name == a[i].name);
        if a[i].name != name {
            lemma_position_by_names(a, b, name, i + 1);
        }
    }
}

/// One step of the ambient phase takes ends out of the fabric and does
/// nothing else to it.
pub proof fn lemma_step_only_takes(st: Ambient, arg: Arg, granted: Seq<i32>, may_take: bool)
    ensures
        only_taken(st.pipes, st.step(arg, granted, may_take).pipes),
        only_taken(st.sockets, st.step(arg, granted, may_take).sockets),
{
    match arg {
        Arg::Pipe(end) => {
            lemma_position_names(st.pipes, end.name());
        },
        Arg::FileSocket(FileSocket::Rx(name)) => {
            lemma_position_names(st.sockets, name@);
        },
        _ => {},
    }
}

/// An end that an argument was handed is gone from the fabric: once the
/// ambient phase has gone through without failure, the pipe end that each of
/// its arguments names is no longer held.
pub proof fn lemma_delivered_pipe_end_is_gone(
    start: Ambient,
    args: Seq<Arg>,
    granted: Seq<i32>,
    j: int,
)
    requires
        0 <= j < args.len(),
        args[j] is Pipe,
        start.run(args, granted, true).failed is None,
    ensures
        ({
            let end = start.run(args, granted, true);
            let wanted = args[j]->Pipe_0;
            position(end.pipes, wanted.name()) matches Some(i) && 0 <= i < end.pipes.len() && (
            if wanted is Rx {
                end.pipes[i].read is None
            } else {
                end.pipes[i].write is None
            })
        }),
    decreases args.len(),
{
    let wanted = args[j]->Pipe_0;
    let name = wanted.name();
    let before = start.run(args.drop_last(), granted, true);
    let end = before.step(args.last(), granted, true);
    assert(end == start.run(args, granted, true));
    assert(before.failed is None);
    lemma_step_only_takes(before, args.last(), granted, true);
    lemma_position_by_names(before.pipes, end.pipes, name, 0);
    lemma_position_names(before.pipes, name);
    if j == args.len() - 1 {
        assert(args.last() == args[j]);
    } else {
        assert(args.drop_last()[j] == args[j]);
        lemma_delivered_pipe_end_is_gone(start, args.drop_last(), granted, j);
    }
}

/// The argument asks for an end that can only be taken out of the fabric.
pub open spec fn asks_for_end(arg: Arg) -> bool {
    arg is Pipe || arg matches Arg::FileSocket(FileSocket::Rx(_))
}

/// Where the fabric is left as it is, the ambient phase goes through
/// exactly when no argument asks for an end of a pipe or for the read end of
/// a socket, and then one argument is prepared for each that was given.
pub proof fn lemma_worker_phase(start: Ambient, args: Seq<Arg>, granted: Seq<i32>)
    requires
        start.failed is None,
    ensures
        start.run(args, granted, false).failed is None <==> forall|j: int|
            0 <= j < args.len() ==> !asks_for_end(#[trigger] args[j]),
        start.run(args, granted, false).failed is None ==> start.run(
            args,
            granted,
            false,
        ).prepared.len() == start.prepared.len() + args.len(),
        start.run(args, granted, false).pipes == start.pipes,
        start.run(args, granted, false).sockets == start.sockets,
    decreases args.len(),
{
    if args.len() > 0 {
        let front = args.drop_last();
        lemma_worker_phase(start, front, granted);
        if start.run(front, granted, false).failed is None {
            if asks_for_end(args.last()) {
                assert(asks_for_end(args[args.len() - 1]));
            } else {
                assert forall|j: int| 0 <= j < args.len() implies !asks_for_end(
                    #[trigger] args[j],
                ) by {
                    if j < args.len() - 1 {
                        assert(front[j] == args[j]);
                    }
                }
            }
        } else {
            let j = choose|j: int| 0 <= j < front.len() && asks_for_end(#[trigger] front[j]);
            assert(front[j] == args[j]);
        }
    }
}

impl PreparedArg {
    /// The descriptor that the argument hands to the void, if it hands one.
    pub open spec fn descriptor(self) -> Option<i32> {
        match self {
            PreparedArg::File(fd) => Some(fd),
            PreparedArg::Pipe(fd) => Some(fd),
            PreparedArg::FileSocket(fd) => Some(fd),
            PreparedArg::TcpListener { socket } => Some(socket),
            _ => None,
        }
    }
}

/// The descriptors that a run of prepared arguments hands to the void, in
/// order: once the void is cloned they are the void's, and the parent is to
/// close its own copies.
pub open spec fn delivered(prepared: Seq<PreparedArg>) -> Seq<i32>
    decreases prepared.len(),
{
    if prepared.len() == 0 {
        Seq::empty()
    } else {
        match prepared.last().descriptor() {
            Some(fd) => delivered(prepared.drop_last()).push(fd),
            None => delivered(prepared.drop_last()),
        }
    }
}

/// Every one of the descriptors is kept open in the void.
pub open spec fn all_kept(fds: Seq<i32>, builder: BuilderView) -> bool {
    forall|k: int| 0 <= k < fds.len() ==> builder.fds.contains(#[trigger] fds[k] as int)
}

impl PreparedArgs {
    /// The descriptors that these arguments hand to the void, in order. The
    /// parent closes them once the void is cloned.
    pub fn descriptors(&self) -> (fds: Vec<i32>)
        ensures
            fds@ == delivered(self.0@),
    {
        let mut fds: Vec<i32> = Vec::new();
        let mut i: usize = 0;
        assert(self.0@.take(0) =~= Seq::empty());
        while i < self.0.len()
            invariant
                i <= self.0@.len(),
                fds@ == delivered(self.0@.take(i as int)),
            decreases self.0@.len() - i,
        {
            match self.0[i] {
                PreparedArg::File(fd) => {
                    fds.push(fd);
                },
                PreparedArg::Pipe(fd) => {
                    fds.push(fd);
                },
                PreparedArg::FileSocket(fd) => {
                    fds.push(fd);
                },
                PreparedArg::TcpListener { socket } => {
                    fds.push(socket);
                },
                _ => {},
            }
            proof {
                let next = self.0@.take(i + 1);
                assert(next.drop_last() =~= self.0@.take(i as int));
                assert(next.last() == self.0@[i as int]);
            }
            i += 1;
        }
        assert(self.0@.take(i as int) =~= self.0@);
        fds
    }
}

impl TriggerData {
    /// The descriptors that the trigger data carries. They are kept open in
    /// the void that is spawned for the arrival, and the worker closes its
    /// own copies once that void is cloned.
    pub fn descriptors(&self) -> (fds: Vec<i32>)
        ensures
            fds@ == (match *self {
                TriggerData::FileSocket(carried) => carried@,
                _ => Seq::empty(),
            }),
    {
        match self {
            TriggerData::FileSocket(carried) => carried.clone(),
            _ => Vec::new(),
        }
    }
}

/// Keeping one more descriptor loses none.
pub proof fn lemma_with_fd_keeps(fds: Seq<int>, fd: int, other: int)
    ensures
        with_fd(fds, fd).contains(fd),
        fds.contains(other) ==> with_fd(fds, fd).contains(other),
{
    if !fds.contains(fd) {
        assert(fds.push(fd)[fds.len() as int] == fd);
        if fds.contains(other) {
            let k = choose|k: int| 0 <= k < fds.len() && fds[k] == other;
            assert(fds.push(fd)[k] == other);
        }
    }
}

/// One step of the ambient phase keeps open in the void every descriptor
/// that it hands to it.
pub proof fn lemma_step_keeps(st: Ambient, arg: Arg, granted: Seq<i32>, may_take: bool)
    requires
        all_kept(delivered(st.prepared), st.builder),
    ensures
        all_kept(
            delivered(st.step(arg, granted, may_take).prepared),
            st.step(arg, granted, may_take).builder,
        ),
{
    let next = st.step(arg, granted, may_take);
    if next.prepared != st.prepared {
        assert(next.prepared.drop_last() =~= st.prepared);
        let before = delivered(st.prepared);
        let after = delivered(next.prepared);
        match next.prepared.last().descriptor() {
            Some(fd) => {
                assert(next.builder.fds == with_fd(st.builder.fds, fd as int));
                assert forall|k: int| 0 <= k < after.len() implies next.builder.fds.contains(
                    #[trigger] after[k] as int,
                ) by {
                    lemma_with_fd_keeps(st.builder.fds, fd as int, after[k] as int);
                    if k < before.len() {
                        assert(after[k] == before[k]);
                    }
                }
            },
            None => {},
        }
    }
}

/// Every descriptor that the ambient phase hands to a void is kept open in
/// that void, whether the phase goes through or not.
pub proof fn lemma_delivered_are_kept(
    start: Ambient,
    args: Seq<Arg>,
    granted: Seq<i32>,
    may_take: bool,
)
    requires
        all_kept(delivered(start.prepared), start.builder),
    ensures
        all_kept(
            delivered(start.run(args, granted, may_take).prepared),
            start.run(args, granted, may_take).builder,
        ),
    decreases args.len(),
{
    if args.len() > 0 {
        lemma_delivered_are_kept(start, args.drop_last(), granted, may_take);
        lemma_step_keeps(start.run(args.drop_last(), granted, may_take), args.last(), granted, may_take);
    }
}

/// The read end of a socket that an argument was handed is gone from the
/// fabric: once the ambient phase has gone through without failure, the
/// parent no longer holds it.
pub proof fn lemma_delivered_socket_end_is_gone(
    start: Ambient,
    args: Seq<Arg>,
    granted: Seq<i32>,
    j: int,
)
    requires
        0 <= j < args.len(),
        args[j] matches Arg::FileSocket(FileSocket::Rx(_)),
        start.run(args, granted, true).failed is None,
    ensures
        ({
            let end = start.run(args, granted, true);
            let name = args[j]->FileSocket_0.name();
            position(end.sockets, name) matches Some(i) && 0 <= i < end.sockets.len()
                && end.sockets[i].read is None
        }),
    decreases args.len(),
{
    let name = args[j]->FileSocket_0.name();
    let before = start.run(args.drop_last(), granted, true);
    let end = before.step(args.last(), granted, true);
    assert(end == start.run(args, granted, true));
    assert(before.failed is None);
    lemma_step_only_takes(before, args.last(), granted, true);
    lemma_position_by_names(before.sockets, end.sockets, name, 0);
    lemma_position_names(before.sockets, name);
    if j == args.len() - 1 {
        assert(args.last() == args[j]);
    } else {
        assert(args.drop_last()[j] == args[j]);
        lemma_delivered_socket_end_is_gone(start, args.drop_last(), granted, j);
    }
}

/// The ambient phase never lets go of a descriptor that the void keeps.
pub proof fn lemma_run_keeps(
    start: Ambient,
    args: Seq<Arg>,
    granted: Seq<i32>,
    may_take: bool,
    fd: int,
)
    requires
        start.builder.fds.contains(fd),
    ensures
        start.run(args, granted, may_take).builder.fds.contains(fd),
    decreases args.len(),
{
    if args.len() > 0 {
        lemma_run_keeps(start, args.drop_last(), granted, may_take, fd);
        let before = start.run(args.drop_last(), granted, may_take);
        let after = before.step(args.last(), granted, may_take);
        if after.builder.fds != before.builder.fds {
            match args.last() {
                Arg::Pipe(end) => {
                    let i = position(before.pipes, end.name())->0;
                    let taken = if end is Rx {
                        before.pipes[i].read->0
                    } else {
                        before.pipes[i].write->0
                    };
                    lemma_with_fd_keeps(before.builder.fds, taken as i32 as int, fd);
                },
                Arg::FileSocket(FileSocket::Rx(name)) => {
                    let i = position(before.sockets, name@)->0;
                    lemma_with_fd_keeps(
                        before.builder.fds,
                        before.sockets[i].read->0 as i32 as int,
                        fd,
                    );
                },
                _ => {
                    lemma_with_fd_keeps(before.builder.fds, granted[before.used] as int, fd);
                },
            }
        }
    }
}

} // verus!
