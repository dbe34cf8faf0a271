//! Why validation is enough: the launch of a valid application never fails
//! for want of a channel end. Every end is asked for at most once, so it is
//! still in the fabric when its turn comes.

use vstd::prelude::*;
use crate::args::{lemma_position_names, Ambient};
use crate::error::ErrorView;
use crate::fabric::{fresh_pairs, lemma_position_found, position, PairView};
use crate::spawner::{entry_void, env_prepared, read_end, without_read_end};
use crate::specification::{
    all_reads, all_writes, arg_reads, arg_writes, count, occurs_before, pipe_fault, push_some,
    socket_fault, Arg, Channel, Entrypoint, FileSocket, Pipe, Specification, Trigger,
};
use crate::validation::{
    lemma_count_contains, lemma_first_repeat, lemma_pipe_rule, lemma_socket_rule,
};

verus! {

/// The fabric during the launch of an application, and the failure that
/// ended the launch, if one did.
pub struct Wiring {
    pub pipes: Seq<PairView>,
    pub sockets: Seq<PairView>,
    pub failed: Option<ErrorView>,
}

impl Wiring {
    /// The launch of one entrypoint: one that starts at startup sends its
    /// arguments through the ambient phase, a triggered one has the read end
    /// of its channel taken for its supervisor. Nothing happens once the
    /// launch has failed.
    pub open spec fn launch(self, entry: Entrypoint, binary: Seq<char>, granted: Seq<i32>) -> Wiring {
        if self.failed is Some {
            self
        } else {
            match entry.trigger {
                Trigger::Startup => {
                    let end = (Ambient {
                        pipes: self.pipes,
                        sockets: self.sockets,
                        builder: env_prepared(entry_void(binary), entry.environment@),
                        used: 0,
                        prepared: Seq::empty(),
                        failed: None,
                    }).run(entry.args@, granted, true);
                    Wiring { pipes: end.pipes, sockets: end.sockets, failed: end.failed }
                },
                Trigger::Pipe(name) => Wiring {
                    pipes: without_read_end(self.pipes, name@),
                    sockets: self.sockets,
                    failed: if read_end(self.pipes, name@) is Some {
                        None
                    } else {
                        Some(ErrorView::BadPipe(name@))
                    },
                },
                Trigger::FileSocket(name) => Wiring {
                    pipes: self.pipes,
                    sockets: without_read_end(self.sockets, name@),
                    failed: if read_end(self.sockets, name@) is Some {
                        None
                    } else {
                        Some(ErrorView::BadFileSocket(name@))
                    },
                },
            }
        }
    }

    /// The launch of a run of entrypoints, in order; `granted` holds the
    /// answers to the requests of each.
    pub open spec fn launch_all(
        self,
        entries: Seq<(String, Entrypoint)>,
        binary: Seq<char>,
        granted: Seq<Seq<i32>>,
    ) -> Wiring
        decreases entries.len(),
    {
        if entries.len() == 0 {
            self
        } else {
            self.launch_all(entries.drop_last(), binary, granted).launch(
                entries.last().1,
                binary,
                granted[entries.len() - 1],
            )
        }
    }
}

/// The read ends that the launch of one entrypoint asks for: those that its
/// arguments name where it starts at startup, that of its trigger otherwise.
pub open spec fn entry_taken_reads(kind: Channel, entry: Entrypoint) -> Seq<Seq<char>> {
    if entry.trigger is Startup {
        arg_reads(kind, entry.args@)
    } else {
        push_some(Seq::empty(), entry.trigger.reads(kind))
    }
}

/// The write ends that the launch of one entrypoint asks for.
pub open spec fn entry_taken_writes(kind: Channel, entry: Entrypoint) -> Seq<Seq<char>> {
    if entry.trigger is Startup {
        arg_writes(kind, entry.args@)
    } else {
        Seq::empty()
    }
}

/// The read ends that the launch of a run of entrypoints asks for, in order.
pub open spec fn taken_reads(kind: Channel, entries: Seq<(String, Entrypoint)>) -> Seq<Seq<char>>
    decreases entries.len(),
{
    if entries.len() == 0 {
        Seq::empty()
    } else {
        taken_reads(kind, entries.drop_last()) + entry_taken_reads(kind, entries.last().1)
    }
}

/// The write ends that the launch of a run of entrypoints asks for, in
/// order.
pub open spec fn taken_writes(kind: Channel, entries: Seq<(String, Entrypoint)>) -> Seq<Seq<char>>
    decreases entries.len(),
{
    if entries.len() == 0 {
        Seq::empty()
    } else {
        taken_writes(kind, entries.drop_last()) + entry_taken_writes(kind, entries.last().1)
    }
}

/// No name occurs twice.
pub open spec fn distinct(names: Seq<Seq<char>>) -> bool {
    forall|i: int, j: int| 0 <= i < j < names.len() ==> #[trigger] names[i] != #[trigger] names[j]
}

/// The fabric holds one pair for each name, in order, and every end that has
/// not been asked for yet is still there.
pub open spec fn holds(
    pairs: Seq<PairView>,
    names: Seq<Seq<char>>,
    read: Seq<Seq<char>>,
    written: Seq<Seq<char>>,
) -> bool {
    &&& pairs.len() == names.len()
    &&& forall|i: int|
        0 <= i < pairs.len() ==> {
            &&& (#[trigger] pairs[i]).name == names[i]
            &&& (count(read, names[i]) == 0 ==> pairs[i].read is Some)
            &&& (count(written, names[i]) == 0 ==> pairs[i].write is Some)
        }
}

/// Counting goes over both parts of a list.
pub proof fn lemma_count_add(a: Seq<Seq<char>>, b: Seq<Seq<char>>, n: Seq<char>)
    ensures
        count(a + b, n) == count(a, n) + count(b, n),
    decreases b.len(),
{
    if b.len() == 0 {
        assert(a + b =~= a);
    } else {
        assert((a + b).drop_last() =~= a + b.drop_last());
        assert((a + b).last() == b.last());
        lemma_count_add(a, b.drop_last(), n);
    }
}

/// Counting after one more name.
pub proof fn lemma_count_push(s: Seq<Seq<char>>, x: Option<Seq<char>>, n: Seq<char>)
    ensures
        count(push_some(s, x), n) == count(s, n) + (if x == Some(n) {
            1nat
        } else {
            0nat
        }),
{
    if let Some(v) = x {
        assert(s.push(v).drop_last() =~= s);
    }
}

/// The launch of an entrypoint asks for no end more often than the
/// entrypoint refers to it.
pub proof fn lemma_entry_taken(kind: Channel, entry: Entrypoint, n: Seq<char>)
    ensures
        count(entry_taken_reads(kind, entry), n) <= count(entry.reads(kind), n),
        count(entry_taken_writes(kind, entry), n) <= count(entry.writes(kind), n),
{
    let trigger = push_some(Seq::empty(), entry.trigger.reads(kind));
    lemma_count_add(trigger, arg_reads(kind, entry.args@), n);
    if entry.trigger is Startup {
        assert(trigger =~= Seq::empty());
    }
}

/// The launch of a run of entrypoints asks for no end more often than the
/// entrypoints refer to it.
pub proof fn lemma_taken(kind: Channel, entries: Seq<(String, Entrypoint)>, n: Seq<char>)
    ensures
        count(taken_reads(kind, entries), n) <= count(all_reads(kind, entries), n),
        count(taken_writes(kind, entries), n) <= count(all_writes(kind, entries), n),
    decreases entries.len(),
{
    if entries.len() > 0 {
        let front = entries.drop_last();
        let last = entries.last().1;
        lemma_taken(kind, front, n);
        lemma_entry_taken(kind, last, n);
        lemma_count_add(taken_reads(kind, front), entry_taken_reads(kind, last), n);
        lemma_count_add(taken_writes(kind, front), entry_taken_writes(kind, last), n);
        lemma_count_add(all_reads(kind, front), last.reads(kind), n);
        lemma_count_add(all_writes(kind, front), last.writes(kind), n);
    }
}

/// A name that is held is found, at a place where the pair of that name
/// lies.
pub proof fn lemma_held_is_found(
    pairs: Seq<PairView>,
    names: Seq<Seq<char>>,
    read: Seq<Seq<char>>,
    written: Seq<Seq<char>>,
    n: Seq<char>,
)
    requires
        holds(pairs, names, read, written),
        distinct(names),
        names.contains(n),
    ensures
        position(pairs, n) matches Some(i) && 0 <= i < pairs.len() && names[i] == n,
{
    let k = choose|k: int| 0 <= k < names.len() && names[k] == n;
    assert(pairs[k].name == n);
    lemma_position_found(pairs, n, 0, k);
    lemma_position_names(pairs, n);
    let i = position(pairs, n)->0;
    assert(pairs[i].name == names[i]);
}

/// Taking an end that has not been asked for before leaves every other end
/// where it is.
pub proof fn lemma_take_holds(
    pairs: Seq<PairView>,
    names: Seq<Seq<char>>,
    read: Seq<Seq<char>>,
    written: Seq<Seq<char>>,
    n: Seq<char>,
    reading: bool,
)
    requires
        holds(pairs, names, read, written),
        distinct(names),
        names.contains(n),
        reading ==> count(read, n) == 0,
        !reading ==> count(written, n) == 0,
    ensures
        ({
            let i = position(pairs, n)->0;
            let left = if reading {
                PairView { read: None, ..pairs[i] }
            } else {
                PairView { write: None, ..pairs[i] }
            };
            &&& position(pairs, n) is Some
            &&& 0 <= i < pairs.len()
            &&& reading ==> pairs[i].read is Some
            &&& !reading ==> pairs[i].write is Some
            &&& holds(
                pairs.update(i, left),
                names,
                if reading {
                    read.push(n)
                } else {
                    read
                },
                if reading {
                    written
                } else {
                    written.push(n)
                },
            )
        }),
{
    lemma_held_is_found(pairs, names, read, written, n);
    let i = position(pairs, n)->0;
    assert(pairs[i].name == names[i]);
    let left = if reading {
        PairView { read: None, ..pairs[i] }
    } else {
        PairView { write: None, ..pairs[i] }
    };
    let after = pairs.update(i, left);
    let read_after = if reading {
        read.push(n)
    } else {
        read
    };
    let written_after = if reading {
        written
    } else {
        written.push(n)
    };
    assert forall|k: int| 0 <= k < after.len() implies {
        &&& (#[trigger] after[k]).name == names[k]
        &&& (count(read_after, names[k]) == 0 ==> after[k].read is Some)
        &&& (count(written_after, names[k]) == 0 ==> after[k].write is Some)
    } by {
        assert(pairs[k].name == names[k]);
        lemma_count_push(read, Some(n), names[k]);
        lemma_count_push(written, Some(n), names[k]);
        if k != i {
            assert(names[k] != names[i]);
        }
    }
}

/// One argument that asks for nothing twice goes through the ambient phase
/// without failure, and every end that has not been asked for is still
/// there afterwards.
pub proof fn lemma_step_holds(
    st: Ambient,
    arg: Arg,
    granted: Seq<i32>,
    pipe_names: Seq<Seq<char>>,
    pipes_read: Seq<Seq<char>>,
    pipes_written: Seq<Seq<char>>,
    socket_names: Seq<Seq<char>>,
    sockets_read: Seq<Seq<char>>,
)
    requires
        st.failed is None,
        distinct(pipe_names),
        distinct(socket_names),
        holds(st.pipes, pipe_names, pipes_read, pipes_written),
        holds(st.sockets, socket_names, sockets_read, Seq::empty()),
        arg.reads(Channel::Pipe) matches Some(n) ==> pipe_names.contains(n) && count(
            pipes_read,
            n,
        ) == 0,
        arg.writes(Channel::Pipe) matches Some(n) ==> pipe_names.contains(n) && count(
            pipes_written,
            n,
        ) == 0,
        arg.reads(Channel::FileSocket) matches Some(n) ==> socket_names.contains(n) && count(
            sockets_read,
            n,
        ) == 0,
    ensures
        ({
            let next = st.step(arg, granted, true);
            &&& next.failed is None
            &&& holds(
                next.pipes,
                pipe_names,
                push_some(pipes_read, arg.reads(Channel::Pipe)),
                push_some(pipes_written, arg.writes(Channel::Pipe)),
            )
            &&& holds(
                next.sockets,
                socket_names,
                push_some(sockets_read, arg.reads(Channel::FileSocket)),
                Seq::empty(),
            )
        }),
{
    match arg {
        Arg::Pipe(Pipe::Rx(name)) => {
            lemma_take_holds(st.pipes, pipe_names, pipes_read, pipes_written, name@, true);
        },
        Arg::Pipe(Pipe::Tx(name)) => {
            lemma_take_holds(st.pipes, pipe_names, pipes_read, pipes_written, name@, false);
        },
        Arg::FileSocket(FileSocket::Rx(name)) => {
            lemma_take_holds(st.sockets, socket_names, sockets_read, Seq::empty(), name@, true);
        },
        _ => {},
    }
}

/// The arguments of one entrypoint, none of which asks for an end that was
/// asked for before, go through the ambient phase without failure, and every
/// end that has not been asked for is still there afterwards.
pub proof fn lemma_run_holds(
    start: Ambient,
    args: Seq<Arg>,
    granted: Seq<i32>,
    pipe_names: Seq<Seq<char>>,
    pipes_read: Seq<Seq<char>>,
    pipes_written: Seq<Seq<char>>,
    socket_names: Seq<Seq<char>>,
    sockets_read: Seq<Seq<char>>,
)
    requires
        start.failed is None,
        distinct(pipe_names),
        distinct(socket_names),
        holds(start.pipes, pipe_names, pipes_read, pipes_written),
        holds(start.sockets, socket_names, sockets_read, Seq::empty()),
        forall|n: Seq<char>|
            #![trigger count(pipes_read, n)]
            count(pipes_read, n) + count(arg_reads(Channel::Pipe, args), n) <= 1 && (count(
                arg_reads(Channel::Pipe, args),
                n,
            ) > 0 ==> pipe_names.contains(n)),
        forall|n: Seq<char>|
            #![trigger count(pipes_written, n)]
            count(pipes_written, n) + count(arg_writes(Channel::Pipe, args), n) <= 1 && (count(
                arg_writes(Channel::Pipe, args),
                n,
            ) > 0 ==> pipe_names.contains(n)),
        forall|n: Seq<char>|
            #![trigger count(sockets_read, n)]
            count(sockets_read, n) + count(arg_reads(Channel::FileSocket, args), n) <= 1 && (count(
                arg_reads(Channel::FileSocket, args),
                n,
            ) > 0 ==> socket_names.contains(n)),
    ensures
        ({
            let end = start.run(args, granted, true);
            &&& end.failed is None
            &&& holds(
                end.pipes,
                pipe_names,
                pipes_read + arg_reads(Channel::Pipe, args),
                pipes_written + arg_writes(Channel::Pipe, args),
            )
            &&& holds(
                end.sockets,
                socket_names,
                sockets_read + arg_reads(Channel::FileSocket, args),
                Seq::empty(),
            )
        }),
    decreases args.len(),
{
    if args.len() == 0 {
        assert(pipes_read + arg_reads(Channel::Pipe, args) =~= pipes_read);
        assert(pipes_written + arg_writes(Channel::Pipe, args) =~= pipes_written);
        assert(sockets_read + arg_reads(Channel::FileSocket, args) =~= sockets_read);
    } else {
        let front = args.drop_last();
        let last = args.last();
        let pr = arg_reads(Channel::Pipe, front);
        let pw = arg_writes(Channel::Pipe, front);
        let sr = arg_reads(Channel::FileSocket, front);
        assert forall|n: Seq<char>|
            #![trigger count(pipes_read, n)]
            count(pipes_read, n) + count(pr, n) <= 1 && (count(pr, n) > 0
                ==> pipe_names.contains(n)) by {
            lemma_count_push(pr, last.reads(Channel::Pipe), n);
        }
        assert forall|n: Seq<char>|
            #![trigger count(pipes_written, n)]
            count(pipes_written, n) + count(pw, n) <= 1 && (count(pw, n) > 0
                ==> pipe_names.contains(n)) by {
            lemma_count_push(pw, last.writes(Channel::Pipe), n);
        }
        assert forall|n: Seq<char>|
            #![trigger count(sockets_read, n)]
            count(sockets_read, n) + count(sr, n) <= 1 && (count(sr, n) > 0
                ==> socket_names.contains(n)) by {
            lemma_count_push(sr, last.reads(Channel::FileSocket), n);
        }
        lemma_run_holds(
            start,
            front,
            granted,
            pipe_names,
            pipes_read,
            pipes_written,
            socket_names,
            sockets_read,
        );
        let before = start.run(front, granted, true);
        if let Some(n) = last.reads(Channel::Pipe) {
            lemma_count_push(pr, last.reads(Channel::Pipe), n);
            lemma_count_add(pipes_read, pr, n);
            assert(count(pipes_read, n) + count(arg_reads(Channel::Pipe, args), n) <= 1);
        }
        if let Some(n) = last.writes(Channel::Pipe) {
            lemma_count_push(pw, last.writes(Channel::Pipe), n);
            lemma_count_add(pipes_written, pw, n);
            assert(count(pipes_written, n) + count(arg_writes(Channel::Pipe, args), n) <= 1);
        }
        if let Some(n) = last.reads(Channel::FileSocket) {
            lemma_count_push(sr, last.reads(Channel::FileSocket), n);
            lemma_count_add(sockets_read, sr, n);
            assert(count(sockets_read, n) + count(arg_reads(Channel::FileSocket, args), n) <= 1);
        }
        lemma_step_holds(
            before,
            last,
            granted,
            pipe_names,
            pipes_read + pr,
            pipes_written + pw,
            socket_names,
            sockets_read + sr,
        );
        assert(push_some(pipes_read + pr, last.reads(Channel::Pipe)) =~= pipes_read + arg_reads(
            Channel::Pipe,
            args,
        ));
        assert(push_some(pipes_written + pw, last.writes(Channel::Pipe)) =~= pipes_written
            + arg_writes(Channel::Pipe, args));
        assert(push_some(sockets_read + sr, last.reads(Channel::FileSocket)) =~= sockets_read
            + arg_reads(Channel::FileSocket, args));
    }
}

/// The read end of a trigger channel that has not been asked for before is
/// there for the supervisor, and every other end stays where it is.
pub proof fn lemma_supervisor_holds(
    pairs: Seq<PairView>,
    names: Seq<Seq<char>>,
    read: Seq<Seq<char>>,
    written: Seq<Seq<char>>,
    n: Seq<char>,
)
    requires
        holds(pairs, names, read, written),
        distinct(names),
        names.contains(n),
        count(read, n) == 0,
    ensures
        read_end(pairs, n) is Some,
        holds(without_read_end(pairs, n), names, read.push(n), written),
{
    lemma_take_holds(pairs, names, read, written, n, true);
}

/// The launch of one entrypoint that asks for no end that was asked for
/// before goes through without failure, and every end that has not been
/// asked for is still there afterwards.
pub proof fn lemma_launch_one_holds(
    before: Wiring,
    entry: Entrypoint,
    binary: Seq<char>,
    granted: Seq<i32>,
    pipe_names: Seq<Seq<char>>,
    pipes_read: Seq<Seq<char>>,
    pipes_written: Seq<Seq<char>>,
    socket_names: Seq<Seq<char>>,
    sockets_read: Seq<Seq<char>>,
)
    requires
        before.failed is None,
        distinct(pipe_names),
        distinct(socket_names),
        holds(before.pipes, pipe_names, pipes_read, pipes_written),
        holds(before.sockets, socket_names, sockets_read, Seq::empty()),
        forall|n: Seq<char>|
            #![trigger count(pipes_read, n)]
            count(pipes_read, n) + count(entry_taken_reads(Channel::Pipe, entry), n) <= 1 && (
            count(entry_taken_reads(Channel::Pipe, entry), n) > 0 ==> pipe_names.contains(n)),
        forall|n: Seq<char>|
            #![trigger count(pipes_written, n)]
            count(pipes_written, n) + count(entry_taken_writes(Channel::Pipe, entry), n) <= 1 && (
            count(entry_taken_writes(Channel::Pipe, entry), n) > 0 ==> pipe_names.contains(n)),
        forall|n: Seq<char>|
            #![trigger count(sockets_read, n)]
            count(sockets_read, n) + count(entry_taken_reads(Channel::FileSocket, entry), n) <= 1
                && (count(entry_taken_reads(Channel::FileSocket, entry), n) > 0
                ==> socket_names.contains(n)),
    ensures
        ({
            let end = before.launch(entry, binary, granted);
            &&& end.failed is None
            &&& holds(
                end.pipes,
                pipe_names,
                pipes_read + entry_taken_reads(Channel::Pipe, entry),
                pipes_written + entry_taken_writes(Channel::Pipe, entry),
            )
            &&& holds(
                end.sockets,
                socket_names,
                sockets_read + entry_taken_reads(Channel::FileSocket, entry),
                Seq::empty(),
            )
        }),
{
    let epr = entry_taken_reads(Channel::Pipe, entry);
    let epw = entry_taken_writes(Channel::Pipe, entry);
    let esr = entry_taken_reads(Channel::FileSocket, entry);
    match entry.trigger {
        Trigger::Startup => {
            let ambient = Ambient {
                pipes: before.pipes,
                sockets: before.sockets,
                builder: env_prepared(entry_void(binary), entry.environment@),
                used: 0,
                prepared: Seq::empty(),
                failed: None,
            };
            lemma_run_holds(
                ambient,
                entry.args@,
                granted,
                pipe_names,
                pipes_read,
                pipes_written,
                socket_names,
                sockets_read,
            );
        },
        Trigger::Pipe(name) => {
            assert(epr =~= seq![name@]);
            lemma_count_push(Seq::empty(), Some(name@), name@);
            assert(count(pipes_read, name@) + count(epr, name@) <= 1);
            lemma_supervisor_holds(before.pipes, pipe_names, pipes_read, pipes_written, name@);
            assert(pipes_read + epr =~= pipes_read.push(name@));
            assert(pipes_written + epw =~= pipes_written);
            assert(sockets_read + esr =~= sockets_read);
        },
        Trigger::FileSocket(name) => {
            assert(esr =~= seq![name@]);
            lemma_count_push(Seq::empty(), Some(name@), name@);
            assert(count(sockets_read, name@) + count(esr, name@) <= 1);
            lemma_supervisor_holds(
                before.sockets,
                socket_names,
                sockets_read,
                Seq::empty(),
                name@,
            );
            assert(sockets_read + esr =~= sockets_read.push(name@));
            assert(pipes_read + epr =~= pipes_read);
            assert(pipes_written + epw =~= pipes_written);
        },
    }
}

/// Whether no name is counted twice in a list and every name in it is
/// among the given ones.
pub open spec fn once_among(list: Seq<Seq<char>>, names: Seq<Seq<char>>) -> bool {
    forall|n: Seq<char>|
        #![trigger count(list, n)]
        count(list, n) <= 1 && (count(list, n) > 0 ==> names.contains(n))
}

/// A part of a list in which no name is counted twice has that property
/// too, and counts in the two parts add up to one at most.
pub proof fn lemma_once_among_parts(a: Seq<Seq<char>>, b: Seq<Seq<char>>, names: Seq<Seq<char>>)
    requires
        once_among(a + b, names),
    ensures
        once_among(a, names),
        forall|n: Seq<char>|
            #![trigger count(a, n)]
            count(a, n) + count(b, n) <= 1 && (count(b, n) > 0 ==> names.contains(n)),
{
    assert forall|n: Seq<char>| #![trigger count(a, n)] count(a, n) <= 1 && (count(a, n) > 0
        ==> names.contains(n)) && count(a, n) + count(b, n) <= 1 && (count(b, n) > 0
        ==> names.contains(n)) by {
        lemma_count_add(a, b, n);
        assert(count(a + b, n) <= 1);
    }
}

/// Where no end is asked for twice, and every end that is asked for is in
/// the fabric, the launch of a run of entrypoints goes through without
/// failure, and every end that has not been asked for is still there
/// afterwards.
pub proof fn lemma_launch_holds(
    start: Wiring,
    entries: Seq<(String, Entrypoint)>,
    binary: Seq<char>,
    granted: Seq<Seq<i32>>,
    pipe_names: Seq<Seq<char>>,
    socket_names: Seq<Seq<char>>,
)
    requires
        start.failed is None,
        distinct(pipe_names),
        distinct(socket_names),
        holds(start.pipes, pipe_names, Seq::empty(), Seq::empty()),
        holds(start.sockets, socket_names, Seq::empty(), Seq::empty()),
        once_among(taken_reads(Channel::Pipe, entries), pipe_names),
        once_among(taken_writes(Channel::Pipe, entries), pipe_names),
        once_among(taken_reads(Channel::FileSocket, entries), socket_names),
    ensures
        ({
            let end = start.launch_all(entries, binary, granted);
            &&& end.failed is None
            &&& holds(
                end.pipes,
                pipe_names,
                taken_reads(Channel::Pipe, entries),
                taken_writes(Channel::Pipe, entries),
            )
            &&& holds(
                end.sockets,
                socket_names,
                taken_reads(Channel::FileSocket, entries),
                Seq::empty(),
            )
        }),
    decreases entries.len(),
{
    if entries.len() > 0 {
        let front = entries.drop_last();
        let last = entries.last().1;
        lemma_once_among_parts(
            taken_reads(Channel::Pipe, front),
            entry_taken_reads(Channel::Pipe, last),
            pipe_names,
        );
        lemma_once_among_parts(
            taken_writes(Channel::Pipe, front),
            entry_taken_writes(Channel::Pipe, last),
            pipe_names,
        );
        lemma_once_among_parts(
            taken_reads(Channel::FileSocket, front),
            entry_taken_reads(Channel::FileSocket, last),
            socket_names,
        );
        lemma_launch_holds(start, front, binary, granted, pipe_names, socket_names);
        lemma_launch_one_holds(
            start.launch_all(front, binary, granted),
            last,
            binary,
            granted[entries.len() - 1],
            pipe_names,
            taken_reads(Channel::Pipe, front),
            taken_writes(Channel::Pipe, front),
            socket_names,
            taken_reads(Channel::FileSocket, front),
        );
    }
}

/// A list in which the search for a repeat finds none holds every name once.
pub proof fn lemma_no_repeat_distinct(names: Seq<Seq<char>>)
    requires
        crate::specification::first_repeat(names) is None,
    ensures
        distinct(names),
{
    lemma_first_repeat(names, 0);
    assert forall|i: int, j: int| 0 <= i < j < names.len() implies #[trigger] names[i]
        != #[trigger] names[j] by {
        if names[i] == names[j] {
            assert(occurs_before(names, j));
        }
    }
}

/// A fresh fabric holds every end.
pub proof fn lemma_fresh_holds(names: Seq<Seq<char>>, ends: Seq<(i32, i32)>)
    ensures
        holds(fresh_pairs(names, ends), names, Seq::empty(), Seq::empty()),
{
}

/// The launch of a valid application never fails: with a fresh fabric that
/// holds one pipe and one socket pair for each reader reference, every
/// entrypoint that starts at startup gets the ends that its arguments name,
/// and every supervisor gets the read end of its channel.
pub proof fn lemma_valid_launch_succeeds(
    spec: Specification,
    binary: Seq<char>,
    granted: Seq<Seq<i32>>,
    pipe_ends: Seq<(i32, i32)>,
    socket_ends: Seq<(i32, i32)>,
)
    requires
        spec.verdict() is None,
    ensures
        (Wiring {
            pipes: fresh_pairs(spec.reads(Channel::Pipe), pipe_ends),
            sockets: fresh_pairs(spec.reads(Channel::FileSocket), socket_ends),
            failed: None,
        }).launch_all(spec.entrypoints@, binary, granted).failed is None,
{
    let entries = spec.entrypoints@;
    let pipe_names = spec.reads(Channel::Pipe);
    let pipe_writes = spec.writes(Channel::Pipe);
    let socket_names = spec.reads(Channel::FileSocket);
    let socket_writes = spec.writes(Channel::FileSocket);
    assert(pipe_fault(pipe_names, pipe_writes) is None);
    assert(socket_fault(socket_names, socket_writes) is None);
    lemma_pipe_rule(pipe_names, pipe_writes);
    lemma_socket_rule(socket_names, socket_writes);
    lemma_no_repeat_distinct(pipe_names);
    lemma_no_repeat_distinct(socket_names);
    lemma_fresh_holds(pipe_names, pipe_ends);
    lemma_fresh_holds(socket_names, socket_ends);
    assert forall|n: Seq<char>|
        #![trigger count(taken_reads(Channel::Pipe, entries), n)]
        count(taken_reads(Channel::Pipe, entries), n) <= 1 && (count(
            taken_reads(Channel::Pipe, entries),
            n,
        ) > 0 ==> pipe_names.contains(n)) by {
        lemma_taken(Channel::Pipe, entries, n);
        lemma_count_contains(pipe_names, n);
        assert(pipe_names.contains(n) ==> count(pipe_names, n) == 1);
    }
    assert forall|n: Seq<char>|
        #![trigger count(taken_writes(Channel::Pipe, entries), n)]
        count(taken_writes(Channel::Pipe, entries), n) <= 1 && (count(
            taken_writes(Channel::Pipe, entries),
            n,
        ) > 0 ==> pipe_names.contains(n)) by {
        lemma_taken(Channel::Pipe, entries, n);
        lemma_count_contains(pipe_writes, n);
        lemma_count_contains(pipe_names, n);
        assert(pipe_writes.contains(n) ==> count(pipe_names, n) == 1 && count(pipe_writes, n) == 1);
    }
    assert forall|n: Seq<char>|
        #![trigger count(taken_reads(Channel::FileSocket, entries), n)]
        count(taken_reads(Channel::FileSocket, entries), n) <= 1 && (count(
            taken_reads(Channel::FileSocket, entries),
            n,
        ) > 0 ==> socket_names.contains(n)) by {
        lemma_taken(Channel::FileSocket, entries, n);
        lemma_count_contains(socket_names, n);
        assert(socket_names.contains(n) ==> count(socket_names, n) == 1);
    }
    assert(once_among(taken_reads(Channel::Pipe, entries), pipe_names));
    assert(once_among(taken_writes(Channel::Pipe, entries), pipe_names));
    assert(once_among(taken_reads(Channel::FileSocket, entries), socket_names));
    lemma_launch_holds(
        Wiring {
            pipes: fresh_pairs(pipe_names, pipe_ends),
            sockets: fresh_pairs(socket_names, socket_ends),
            failed: None,
        },
        entries,
        binary,
        granted,
        pipe_names,
        socket_names,
    );
}

} // verus!
