//! The declarative specification: which entrypoints exist, what starts each of
//! them, what each is handed as arguments and what its void may contain.

use vstd::prelude::*;
use vstd::string::*;
use crate::error::ErrorView;

verus! {

/// The event that causes an entrypoint to be spawned.
#[derive(Debug, Clone, PartialEq, Eq)]
pub enum Trigger {
    /// Start this entrypoint when the application starts.
    Startup,
    /// Start a fresh void for every record that arrives on the named pipe.
    Pipe(String),
    /// Start a fresh void for every datagram that arrives on the named socket.
    FileSocket(String),
}

impl Default for Trigger {
    fn default() -> (trigger: Trigger)
        ensures
            trigger == Trigger::Startup,
    {
        Trigger::Startup
    }
}

/// One end of a named pipe.
#[derive(Debug, Clone, PartialEq, Eq)]
pub enum Pipe {
    Rx(String),
    Tx(String),
}

impl Pipe {
    /// The name of the pipe, whichever end this is.
    pub open spec fn name(self) -> Seq<char> {
        match self {
            Pipe::Rx(n) => n@,
            Pipe::Tx(n) => n@,
        }
    }

    pub fn get_name(&self) -> (name: &str)
        ensures
            name@ == self.name(),
    {
        match self {
            Pipe::Rx(n) => n.as_str(),
            Pipe::Tx(n) => n.as_str(),
        }
    }
}

/// One end of a named datagram socket pair.
#[derive(Debug, Clone, PartialEq, Eq)]
pub enum FileSocket {
    Rx(String),
    Tx(String),
}

impl FileSocket {
    /// The name of the socket pair, whichever end this is.
    pub open spec fn name(self) -> Seq<char> {
        match self {
            FileSocket::Rx(n) => n@,
            FileSocket::Tx(n) => n@,
        }
    }

    pub fn get_name(&self) -> (name: &str)
        ensures
            name@ == self.name(),
    {
        match self {
            FileSocket::Rx(n) => n.as_str(),
            FileSocket::Tx(n) => n.as_str(),
        }
    }
}

/// One argument specifier of an entrypoint.
#[derive(Debug, Clone, PartialEq, Eq)]
pub enum Arg {
    /// The path of the target binary, emitted as `argv[0]`.
    BinaryName,
    /// The name of this entrypoint.
    Entrypoint,
    /// A file of the launching namespace, opened read-only and passed as a
    /// descriptor number.
    File(String),
    /// A chosen end of a named pipe.
    Pipe(Pipe),
    /// A chosen end of a named socket pair.
    FileSocket(FileSocket),
    /// Whatever the trigger delivered. Only valid where the trigger is a pipe
    /// or a socket.
    Trigger,
    /// A listening TCP socket bound to `addr` by the launcher.
    TcpListener { addr: String },
    /// The launcher's own trailing arguments, zero or more.
    Trailing,
}

impl Arg {
    /// The arguments of an entrypoint that names none.
    pub fn default_vec() -> (args: Vec<Arg>)
        ensures
            args@ == seq![Arg::BinaryName],
    {
        let mut args: Vec<Arg> = Vec::new();
        args.push(Arg::BinaryName);
        args
    }
}

/// Address families that a socket request may be restricted to.
#[derive(Debug, Clone, Copy, PartialEq, Eq)]
pub enum AddressFamily {
    /// IPv4 address
    Inet,
    /// IPv6 address
    Inet6,
}

/// A remote call that a void may be permitted to make. `None` in a field
/// permits any value there; a given value permits exactly that one.
#[derive(Debug, Clone, PartialEq, Eq)]
pub enum RpcSpecification {
    /// Open a TCP socket.
    OpenTcpSocket { family: Option<AddressFamily>, port: Option<u16>, host: Option<String> },
    /// Open a UDP socket.
    OpenUdpSocket { family: Option<AddressFamily>, port: Option<u16>, host: Option<String> },
}

/// Something a void is granted beyond the bare minimum.
#[derive(Debug, Clone, PartialEq, Eq, Hash)]
pub enum Environment {
    /// Bind-mount `host_path` into the void at `environment_path`.
    Filesystem { host_path: String, environment_path: String },
    /// Set the UTS host name.
    Hostname(String),
    /// Set the UTS domain name.
    DomainName(String),
    /// Mount a fresh procfs at `/proc`.
    Procfs,
    /// Inherit standard input.
    Stdin,
    /// Inherit standard output.
    Stdout,
    /// Inherit standard error.
    Stderr,
}

/// A network that a void may be attached to. A private network is given by
/// its base address, most significant octet first, and its prefix length.
#[derive(Debug, Clone, PartialEq, Eq, Hash)]
pub enum Network {
    InternetV4,
    InternetV6,
    PrivateV4(u32, u8),
    PrivateV6(u128, u8),
}

/// A named dispatch target within the target binary.
#[derive(Debug, Clone, PartialEq, Eq)]
pub struct Entrypoint {
    pub trigger: Trigger,
    pub args: Vec<Arg>,
    pub environment: Vec<Environment>,
}

/// The whole application: entrypoints by name, in spawning order.
#[derive(Debug, Clone, PartialEq, Eq)]
pub struct Specification {
    pub entrypoints: Vec<(String, Entrypoint)>,
}

/// The two kinds of named channel that entrypoints are wired with.
#[derive(Debug, Clone, Copy)]
pub enum Channel {
    Pipe,
    FileSocket,
}

/// The names held by a list of strings.
pub open spec fn names(v: Seq<String>) -> Seq<Seq<char>> {
    v.map_values(|s: String| s@)
}

impl Trigger {
    /// The channel of the given kind that this trigger reads from, if any.
    pub open spec fn reads(self, kind: Channel) -> Option<Seq<char>> {
        match (kind, self) {
            (Channel::Pipe, Trigger::Pipe(n)) => Some(n@),
            (Channel::FileSocket, Trigger::FileSocket(n)) => Some(n@),
            _ => None,
        }
    }
}

impl Arg {
    /// The channel of the given kind whose read end this argument asks for.
    pub open spec fn reads(self, kind: Channel) -> Option<Seq<char>> {
        match (kind, self) {
            (Channel::Pipe, Arg::Pipe(Pipe::Rx(n))) => Some(n@),
            (Channel::FileSocket, Arg::FileSocket(FileSocket::Rx(n))) => Some(n@),
            _ => None,
        }
    }

    /// The channel of the given kind whose write end this argument asks for.
    pub open spec fn writes(self, kind: Channel) -> Option<Seq<char>> {
        match (kind, self) {
            (Channel::Pipe, Arg::Pipe(Pipe::Tx(n))) => Some(n@),
            (Channel::FileSocket, Arg::FileSocket(FileSocket::Tx(n))) => Some(n@),
            _ => None,
        }
    }
}

/// `s` with `n` appended where there is one.
pub open spec fn push_some(s: Seq<Seq<char>>, n: Option<Seq<char>>) -> Seq<Seq<char>> {
    match n {
        Some(n) => s.push(n),
        None => s,
    }
}

/// The channels of one kind that a run of arguments reads from, in order.
pub open spec fn arg_reads(kind: Channel, args: Seq<Arg>) -> Seq<Seq<char>>
    decreases args.len(),
{
    if args.len() == 0 {
        Seq::empty()
    } else {
        push_some(arg_reads(kind, args.drop_last()), args.last().reads(kind))
    }
}

/// The channels of one kind that a run of arguments writes to, in order.
pub open spec fn arg_writes(kind: Channel, args: Seq<Arg>) -> Seq<Seq<char>>
    decreases args.len(),
{
    if args.len() == 0 {
        Seq::empty()
    } else {
        push_some(arg_writes(kind, args.drop_last()), args.last().writes(kind))
    }
}

impl Entrypoint {
    /// The reader references of one entrypoint: its trigger, then its
    /// arguments.
    pub open spec fn reads(self, kind: Channel) -> Seq<Seq<char>> {
        push_some(Seq::empty(), self.trigger.reads(kind)) + arg_reads(kind, self.args@)
    }

    /// The writer references of one entrypoint.
    pub open spec fn writes(self, kind: Channel) -> Seq<Seq<char>> {
        arg_writes(kind, self.args@)
    }

    /// A trigger argument where nothing is delivered by the trigger.
    pub open spec fn misplaced_trigger(self) -> bool {
        self.trigger is Startup && exists|j: int|
            0 <= j < self.args@.len() && #[trigger] self.args@[j] is Trigger
    }
}

/// The reader references of a run of entrypoints, in order.
pub open spec fn all_reads(kind: Channel, entries: Seq<(String, Entrypoint)>) -> Seq<Seq<char>>
    decreases entries.len(),
{
    if entries.len() == 0 {
        Seq::empty()
    } else {
        all_reads(kind, entries.drop_last()) + entries.last().1.reads(kind)
    }
}

/// The writer references of a run of entrypoints, in order.
pub open spec fn all_writes(kind: Channel, entries: Seq<(String, Entrypoint)>) -> Seq<Seq<char>>
    decreases entries.len(),
{
    if entries.len() == 0 {
        Seq::empty()
    } else {
        all_writes(kind, entries.drop_last()) + entries.last().1.writes(kind)
    }
}

/// How often `n` occurs in `s`.
pub open spec fn count(s: Seq<Seq<char>>, n: Seq<char>) -> nat
    decreases s.len(),
{
    if s.len() == 0 {
        0
    } else {
        count(s.drop_last(), n) + if s.last() == n { 1nat } else { 0nat }
    }
}

/// The name at `i` has already occurred before `i`.
pub open spec fn occurs_before(s: Seq<Seq<char>>, i: int) -> bool {
    exists|j: int| 0 <= j < i && #[trigger] s[j] == s[i]
}

/// The name at `i` of `s` occurs nowhere in `t`.
pub open spec fn absent_from(s: Seq<Seq<char>>, i: int, t: Seq<Seq<char>>) -> bool {
    forall|j: int| 0 <= j < t.len() ==> #[trigger] t[j] != s[i]
}

/// The first position from `i` on whose name occurred earlier.
pub open spec fn first_repeat_from(s: Seq<Seq<char>>, i: int) -> Option<int>
    decreases s.len() - i,
{
    if i < 0 || i >= s.len() {
        None
    } else if occurs_before(s, i) {
        Some(i)
    } else {
        first_repeat_from(s, i + 1)
    }
}

/// The first position from `i` on whose name `t` lacks.
pub open spec fn first_absent_from(s: Seq<Seq<char>>, t: Seq<Seq<char>>, i: int) -> Option<int>
    decreases s.len() - i,
{
    if i < 0 || i >= s.len() {
        None
    } else if absent_from(s, i, t) {
        Some(i)
    } else {
        first_absent_from(s, t, i + 1)
    }
}

/// The name at a position, where there is a position.
pub open spec fn name_at(s: Seq<Seq<char>>, i: Option<int>) -> Option<Seq<char>> {
    match i {
        Some(i) => Some(s[i]),
        None => None,
    }
}

/// The first name that is referenced a second time.
pub open spec fn first_repeat(s: Seq<Seq<char>>) -> Option<Seq<char>> {
    name_at(s, first_repeat_from(s, 0))
}

/// The first name of `s` that `t` lacks.
pub open spec fn first_absent(s: Seq<Seq<char>>, t: Seq<Seq<char>>) -> Option<Seq<char>> {
    name_at(s, first_absent_from(s, t, 0))
}

/// `a` where it names something, else `b`.
pub open spec fn or_else(a: Option<Seq<char>>, b: Option<Seq<char>>) -> Option<Seq<char>> {
    if a is Some {
        a
    } else {
        b
    }
}

/// The pipe that breaks the topology rule, if one does: the first one read
/// twice, else the first one written twice, else the first one read but never
/// written, else the first one written but never read.
pub open spec fn pipe_fault(reads: Seq<Seq<char>>, writes: Seq<Seq<char>>) -> Option<Seq<char>> {
    or_else(
        first_repeat(reads),
        or_else(
            first_repeat(writes),
            or_else(first_absent(reads, writes), first_absent(writes, reads)),
        ),
    )
}

/// The socket that breaks the topology rule, if one does: the first one read
/// twice, else the first one read but never written, else the first one
/// written but never read. Writers may repeat.
pub open spec fn socket_fault(reads: Seq<Seq<char>>, writes: Seq<Seq<char>>) -> Option<
    Seq<char>,
> {
    or_else(first_repeat(reads), or_else(first_absent(reads, writes), first_absent(writes, reads)))
}

impl Specification {
    /// No two entrypoints share a name.
    pub open spec fn wf(self) -> bool {
        forall|i: int, j: int|
            0 <= i < j < self.entrypoints@.len() ==> (#[trigger] self.entrypoints@[i]).0@ != (
            #[trigger] self.entrypoints@[j]).0@
    }

    /// Every reader reference to a channel of the given kind, in order.
    pub open spec fn reads(self, kind: Channel) -> Seq<Seq<char>> {
        all_reads(kind, self.entrypoints@)
    }

    /// Every writer reference to a channel of the given kind, in order.
    pub open spec fn writes(self, kind: Channel) -> Seq<Seq<char>> {
        all_writes(kind, self.entrypoints@)
    }

    /// Some entrypoint started at startup asks for trigger data.
    pub open spec fn misplaced_trigger(self) -> bool {
        exists|i: int|
            0 <= i < self.entrypoints@.len() && (
            #[trigger] self.entrypoints@[i]).1.misplaced_trigger()
    }

    /// What is wrong with the specification, if anything: pipes are judged
    /// first, then sockets, then trigger arguments.
    pub open spec fn verdict(self) -> Option<ErrorView> {
        let pipe = pipe_fault(self.reads(Channel::Pipe), self.writes(Channel::Pipe));
        let socket = socket_fault(
            self.reads(Channel::FileSocket),
            self.writes(Channel::FileSocket),
        );
        if let Some(n) = pipe {
            Some(ErrorView::BadPipe(n))
        } else if let Some(n) = socket {
            Some(ErrorView::BadFileSocket(n))
        } else if self.misplaced_trigger() {
            Some(ErrorView::BadTriggerArgument)
        } else {
            None
        }
    }

    /// The reader and writer references to channels of one kind.
    pub fn channels(&self, kind: Channel) -> (found: (Vec<String>, Vec<String>))
        ensures
            names(found.0@) == self.reads(kind),
            names(found.1@) == self.writes(kind),
    {
        let mut read: Vec<String> = Vec::new();
        let mut write: Vec<String> = Vec::new();
        let mut i: usize = 0;
        assert(self.entrypoints@.take(0) =~= Seq::empty());
        assert(names(read@) =~= Seq::empty());
        assert(names(write@) =~= Seq::empty());
        while i < self.entrypoints.len()
            invariant
                i <= self.entrypoints@.len(),
                names(read@) == all_reads(kind, self.entrypoints@.take(i as int)),
                names(write@) == all_writes(kind, self.entrypoints@.take(i as int)),
            decreases self.entrypoints@.len() - i,
        {
            let entry = &self.entrypoints[i].1;
            let ghost before_read = names(read@);
            let ghost before_write = names(write@);
            match (kind, &entry.trigger) {
                (Channel::Pipe, Trigger::Pipe(s)) => {
                    read.push(s.clone());
                },
                (Channel::FileSocket, Trigger::FileSocket(s)) => {
                    read.push(s.clone());
                },
                _ => {},
            }
            assert(names(read@) =~= before_read + push_some(
                Seq::empty(),
                entry.trigger.reads(kind),
            ));
            let mut j: usize = 0;
            assert(entry.args@.take(0) =~= Seq::empty());
            while j < entry.args.len()
                invariant
                    j <= entry.args@.len(),
                    names(read@) == before_read + push_some(
                        Seq::empty(),
                        entry.trigger.reads(kind),
                    ) + arg_reads(kind, entry.args@.take(j as int)),
                    names(write@) == before_write + arg_writes(kind, entry.args@.take(j as int)),
                decreases entry.args@.len() - j,
            {
                let ghost r = names(read@);
                let ghost w = names(write@);
                match (kind, &entry.args[j]) {
                    (Channel::Pipe, Arg::Pipe(Pipe::Rx(s))) => {
                        read.push(s.clone());
                    },
                    (Channel::Pipe, Arg::Pipe(Pipe::Tx(s))) => {
                        write.push(s.clone());
                    },
                    (Channel::FileSocket, Arg::FileSocket(FileSocket::Rx(s))) => {
                        read.push(s.clone());
                    },
                    (Channel::FileSocket, Arg::FileSocket(FileSocket::Tx(s))) => {
                        write.push(s.clone());
                    },
                    _ => {},
                }
                proof {
                    let next = entry.args@.take(j + 1);
                    assert(next.drop_last() =~= entry.args@.take(j as int));
                    assert(next.last() == entry.args@[j as int]);
                    assert(names(read@) =~= push_some(r, entry.args@[j as int].reads(kind)));
                    assert(names(write@) =~= push_some(w, entry.args@[j as int].writes(kind)));
                    assert(names(read@) =~= before_read + push_some(
                        Seq::empty(),
                        entry.trigger.reads(kind),
                    ) + arg_reads(kind, next));
                    assert(names(write@) =~= before_write + arg_writes(kind, next));
                }
                j += 1;
            }
            proof {
                assert(entry.args@.take(j as int) =~= entry.args@);
                let next = self.entrypoints@.take(i + 1);
                assert(next.drop_last() =~= self.entrypoints@.take(i as int));
                assert(next.last() == self.entrypoints@[i as int]);
                assert(names(read@) =~= before_read + entry.reads(kind));
            }
            i += 1;
        }
        assert(self.entrypoints@.take(i as int) =~= self.entrypoints@);
        (read, write)
    }

    /// The pipes that are read from and those that are written to, one entry
    /// for each reference.
    pub fn pipes(&self) -> (found: (Vec<String>, Vec<String>))
        ensures
            names(found.0@) == self.reads(Channel::Pipe),
            names(found.1@) == self.writes(Channel::Pipe),
    {
        self.channels(Channel::Pipe)
    }

    /// The sockets that are read from and those that are written to, one
    /// entry for each reference.
    pub fn sockets(&self) -> (found: (Vec<String>, Vec<String>))
        ensures
            names(found.0@) == self.reads(Channel::FileSocket),
            names(found.1@) == self.writes(Channel::FileSocket),
    {
        self.channels(Channel::FileSocket)
    }
}

} // verus!
