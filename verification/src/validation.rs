//! Validation of the channel topology and of trigger arguments, and the facts
//! that hold of every specification that passes it.

use vstd::prelude::*;
use crate::error::{Error, ErrorView};
use crate::fabric::{fresh_pairs, lemma_fresh_pairs_found, position};
use crate::specification::{
    absent_from, count, first_absent, first_absent_from, first_repeat, first_repeat_from, names,
    occurs_before, pipe_fault, socket_fault, Arg, Channel, Specification, Trigger,
};

verus! {

/// Whether `name` is among the first `limit` entries of `list`.
fn occurs_within(list: &Vec<String>, limit: usize, name: &String) -> (found: bool)
    requires
        limit <= list@.len(),
    ensures
        found == exists|j: int| 0 <= j < limit && #[trigger] names(list@)[j] == name@,
{
    let mut j: usize = 0;
    while j < limit
        invariant
            j <= limit <= list@.len(),
            forall|k: int| 0 <= k < j ==> #[trigger] names(list@)[k] != name@,
        decreases limit - j,
    {
        if list[j] == *name {
            assert(names(list@)[j as int] == name@);
            return true;
        }
        j += 1;
    }
    false
}

/// The position of the first name in `list` that occurred earlier in it.
fn find_repeat(list: &Vec<String>) -> (at: Option<usize>)
    ensures
        at is Some ==> at->0 < list@.len(),
        at is Some <==> first_repeat_from(names(list@), 0) is Some,
        at is Some ==> first_repeat_from(names(list@), 0) == Some(at->0 as int),
{
    let mut i: usize = 0;
    while i < list.len()
        invariant
            i <= list@.len(),
            first_repeat_from(names(list@), 0) == first_repeat_from(names(list@), i as int),
        decreases list@.len() - i,
    {
        if occurs_within(list, i, &list[i]) {
            return Some(i);
        }
        i += 1;
    }
    None
}

/// The position of the first name in `list` that `other` lacks.
fn find_absent(list: &Vec<String>, other: &Vec<String>) -> (at: Option<usize>)
    ensures
        at is Some ==> at->0 < list@.len(),
        at is Some <==> first_absent_from(names(list@), names(other@), 0) is Some,
        at is Some ==> first_absent_from(names(list@), names(other@), 0) == Some(at->0 as int),
{
    let mut i: usize = 0;
    while i < list.len()
        invariant
            i <= list@.len(),
            first_absent_from(names(list@), names(other@), 0) == first_absent_from(
                names(list@),
                names(other@),
                i as int,
            ),
        decreases list@.len() - i,
    {
        if !occurs_within(other, other.len(), &list[i]) {
            assert(absent_from(names(list@), i as int, names(other@)));
            return Some(i);
        }
        assert(!absent_from(names(list@), i as int, names(other@)));
        i += 1;
    }
    None
}

/// Whether an argument list asks for trigger data.
fn wants_trigger(args: &Vec<Arg>) -> (found: bool)
    ensures
        found == exists|j: int| 0 <= j < args@.len() && #[trigger] args@[j] is Trigger,
{
    let mut j: usize = 0;
    while j < args.len()
        invariant
            j <= args@.len(),
            forall|k: int| 0 <= k < j ==> !(#[trigger] args@[k] is Trigger),
        decreases args@.len() - j,
    {
        if let Arg::Trigger = &args[j] {
            return true;
        }
        j += 1;
    }
    false
}

impl Specification {
    /// Checks the channel topology and the trigger arguments: every pipe has
    /// exactly one reader and one writer, every socket one reader and at least
    /// one writer, and only triggered entrypoints ask for trigger data.
    pub fn validate(&self) -> (outcome: Result<(), Error>)
        ensures
            outcome is Ok <==> self.verdict() is None,
            outcome matches Err(e) ==> self.verdict() == Some(e@),
    {
        let (read, write) = self.pipes();
        if let Some(i) = find_repeat(&read) {
            return Err(Error::BadPipe(read[i].clone()));
        }
        if let Some(i) = find_repeat(&write) {
            return Err(Error::BadPipe(write[i].clone()));
        }
        if let Some(i) = find_absent(&read, &write) {
            return Err(Error::BadPipe(read[i].clone()));
        }
        if let Some(i) = find_absent(&write, &read) {
            return Err(Error::BadPipe(write[i].clone()));
        }
        let (read, write) = self.sockets();
        if let Some(i) = find_repeat(&read) {
            return Err(Error::BadFileSocket(read[i].clone()));
        }
        if let Some(i) = find_absent(&read, &write) {
            return Err(Error::BadFileSocket(read[i].clone()));
        }
        if let Some(i) = find_absent(&write, &read) {
            return Err(Error::BadFileSocket(write[i].clone()));
        }
        let mut i: usize = 0;
        while i < self.entrypoints.len()
            invariant
                i <= self.entrypoints@.len(),
                self.verdict() is None <==> !self.misplaced_trigger(),
                self.misplaced_trigger() ==> self.verdict() == Some(
                    ErrorView::BadTriggerArgument,
                ),
                forall|k: int| 0 <= k < i ==> !(#[trigger] self.entrypoints@[k]).1.misplaced_trigger(),
            decreases self.entrypoints@.len() - i,
        {
            let entry = &self.entrypoints[i].1;
            if wants_trigger(&entry.args) {
                match &entry.trigger {
                    Trigger::Pipe(_) => {},
                    Trigger::FileSocket(_) => {},
                    Trigger::Startup => {
                        assert(self.entrypoints@[i as int].1.misplaced_trigger());
                        return Err(Error::BadTriggerArgument);
                    },
                }
            }
            i += 1;
        }
        Ok(())
    }
}

/// From `i` on no name repeats exactly when the search from `i` finds none;
/// what it finds is a repeat.
pub proof fn lemma_first_repeat(s: Seq<Seq<char>>, i: int)
    requires
        0 <= i,
    ensures
        first_repeat_from(s, i) is None <==> forall|k: int|
            i <= k < s.len() ==> !#[trigger] occurs_before(s, k),
        first_repeat_from(s, i) matches Some(k) ==> i <= k < s.len() && occurs_before(s, k),
    decreases s.len() - i,
{
    if i < s.len() {
        lemma_first_repeat(s, i + 1);
        if !occurs_before(s, i) {
            assert forall|k: int| i <= k < s.len() && first_repeat_from(s, i + 1) is None implies !#[trigger] occurs_before(s, k) by {
                if k > i {
                    assert(i + 1 <= k);
                }
            }
        }
    }
}

/// From `i` on `t` lacks no name of `s` exactly when the search from `i`
/// finds none; what it finds is lacking.
pub proof fn lemma_first_absent(s: Seq<Seq<char>>, t: Seq<Seq<char>>, i: int)
    requires
        0 <= i,
    ensures
        first_absent_from(s, t, i) is None <==> forall|k: int|
            i <= k < s.len() ==> !#[trigger] absent_from(s, k, t),
        first_absent_from(s, t, i) matches Some(k) ==> i <= k < s.len() && absent_from(s, k, t),
    decreases s.len() - i,
{
    if i < s.len() {
        lemma_first_absent(s, t, i + 1);
        if !absent_from(s, i, t) {
            assert forall|k: int| i <= k < s.len() && first_absent_from(s, t, i + 1) is None implies !#[trigger] absent_from(s, k, t) by {
                if k > i {
                    assert(i + 1 <= k);
                }
            }
        }
    }
}

/// A name is counted at least once exactly when it occurs.
pub proof fn lemma_count_contains(s: Seq<Seq<char>>, n: Seq<char>)
    ensures
        count(s, n) > 0 <==> s.contains(n),
    decreases s.len(),
{
    if s.len() > 0 {
        let front = s.drop_last();
        lemma_count_contains(front, n);
        if front.contains(n) {
            let j = choose|j: int| 0 <= j < front.len() && front[j] == n;
            assert(s[j] == n);
        }
        if s.last() == n {
            assert(s[s.len() - 1] == n);
        }
        if s.contains(n) && s.last() != n {
            let j = choose|j: int| 0 <= j < s.len() && s[j] == n;
            assert(front[j] == n);
        }
    }
}

/// Where no name repeats, none is counted more than once.
pub proof fn lemma_count_distinct(s: Seq<Seq<char>>, n: Seq<char>)
    requires
        forall|k: int| 0 <= k < s.len() ==> !#[trigger] occurs_before(s, k),
    ensures
        count(s, n) <= 1,
    decreases s.len(),
{
    if s.len() > 0 {
        let front = s.drop_last();
        assert forall|k: int| 0 <= k < front.len() implies !#[trigger] occurs_before(front, k) by {
            if occurs_before(front, k) {
                let j = choose|j: int| 0 <= j < k && #[trigger] front[j] == front[k];
                assert(s[j] == s[k]);
                assert(occurs_before(s, k));
            }
        }
        lemma_count_distinct(front, n);
        if s.last() == n {
            lemma_count_contains(front, n);
            if front.contains(n) {
                let j = choose|j: int| 0 <= j < front.len() && front[j] == n;
                assert(s[j] == s[s.len() - 1]);
                assert(occurs_before(s, s.len() - 1));
            }
        }
    }
}

/// A name that repeats is counted at least twice.
pub proof fn lemma_count_repeat(s: Seq<Seq<char>>, k: int)
    requires
        0 <= k < s.len(),
        occurs_before(s, k),
    ensures
        count(s, s[k]) >= 2,
    decreases s.len(),
{
    let front = s.drop_last();
    if k == s.len() - 1 {
        let j = choose|j: int| 0 <= j < k && #[trigger] s[j] == s[k];
        assert(front[j] == s[k]);
        lemma_count_contains(front, s[k]);
    } else {
        let j = choose|j: int| 0 <= j < k && #[trigger] s[j] == s[k];
        assert(front[j] == front[k]);
        assert(occurs_before(front, k));
        lemma_count_repeat(front, k);
    }
}

/// A name that repeats nowhere and occurs is counted exactly once; the search
/// for a repeat fails exactly when every name that occurs is counted once.
pub proof fn lemma_no_repeat_counts(s: Seq<Seq<char>>)
    ensures
        first_repeat(s) is None <==> forall|n: Seq<char>|
            s.contains(n) ==> #[trigger] count(s, n) == 1,
        first_repeat(s) matches Some(n) ==> s.contains(n) && count(s, n) >= 2,
{
    lemma_first_repeat(s, 0);
    if first_repeat(s) is None {
        assert forall|n: Seq<char>| s.contains(n) implies #[trigger] count(s, n) == 1 by {
            lemma_count_contains(s, n);
            lemma_count_distinct(s, n);
        }
    } else {
        let k = first_repeat_from(s, 0)->0;
        lemma_count_repeat(s, k);
        assert(s.contains(s[k]));
    }
}

/// The search for a name that `t` lacks fails exactly when `t` holds every
/// name of `s`; what it finds occurs in `s` and is counted zero times in `t`.
pub proof fn lemma_no_absent_counts(s: Seq<Seq<char>>, t: Seq<Seq<char>>)
    ensures
        first_absent(s, t) is None <==> forall|n: Seq<char>|
            s.contains(n) ==> #[trigger] count(t, n) >= 1,
        first_absent(s, t) matches Some(n) ==> s.contains(n) && count(t, n) == 0,
{
    lemma_first_absent(s, t, 0);
    if first_absent(s, t) is None {
        assert forall|n: Seq<char>| s.contains(n) implies #[trigger] count(t, n) >= 1 by {
            let k = choose|k: int| 0 <= k < s.len() && s[k] == n;
            assert(!absent_from(s, k, t));
            let j = choose|j: int| 0 <= j < t.len() && t[j] == s[k];
            assert(t.contains(n));
            lemma_count_contains(t, n);
        }
    } else {
        let k = first_absent_from(s, t, 0)->0;
        assert(s.contains(s[k]));
        lemma_count_contains(t, s[k]);
        if t.contains(s[k]) {
            let j = choose|j: int| 0 <= j < t.len() && t[j] == s[k];
            assert(false);
        }
    }
}

/// The pipe rule in numbers: no pipe is at fault exactly when every pipe that
/// is referenced at all has exactly one reader reference and exactly one
/// writer reference; a pipe at fault is referenced and breaks that rule.
pub proof fn lemma_pipe_rule(reads: Seq<Seq<char>>, writes: Seq<Seq<char>>)
    ensures
        pipe_fault(reads, writes) is None <==> (forall|n: Seq<char>|
            #![trigger count(reads, n)]
            #![trigger count(writes, n)]
            reads.contains(n) || writes.contains(n) ==> (count(reads, n) == 1 && count(writes, n)
                == 1)),
        pipe_fault(reads, writes) matches Some(n) ==> (reads.contains(n) || writes.contains(n))
            && !(count(reads, n) == 1 && count(writes, n) == 1),
{
    lemma_no_repeat_counts(reads);
    lemma_no_repeat_counts(writes);
    lemma_no_absent_counts(reads, writes);
    lemma_no_absent_counts(writes, reads);
    if pipe_fault(reads, writes) is None {
        assert forall|n: Seq<char>|
            #![trigger count(reads, n)]
            #![trigger count(writes, n)]
            reads.contains(n) || writes.contains(n) implies (count(reads, n) == 1 && count(
            writes,
            n,
        ) == 1) by {
            lemma_count_contains(reads, n);
            lemma_count_contains(writes, n);
            assert(count(reads, n) >= 1);
            assert(count(writes, n) >= 1);
        }
    } else {
        let n = pipe_fault(reads, writes)->0;
        lemma_count_contains(reads, n);
        lemma_count_contains(writes, n);
        assert((reads.contains(n) || writes.contains(n)) && !(count(reads, n) == 1 && count(
            writes,
            n,
        ) == 1));
    }
}

/// The socket rule in numbers: no socket is at fault exactly when every
/// socket that is referenced at all has exactly one reader reference and at
/// least one writer reference; a socket at fault is referenced and breaks
/// that rule.
pub proof fn lemma_socket_rule(reads: Seq<Seq<char>>, writes: Seq<Seq<char>>)
    ensures
        socket_fault(reads, writes) is None <==> (forall|n: Seq<char>|
            #![trigger count(reads, n)]
            #![trigger count(writes, n)]
            reads.contains(n) || writes.contains(n) ==> (count(reads, n) == 1 && count(writes, n)
                >= 1)),
        socket_fault(reads, writes) matches Some(n) ==> (reads.contains(n) || writes.contains(n))
            && !(count(reads, n) == 1 && count(writes, n) >= 1),
{
    lemma_no_repeat_counts(reads);
    lemma_no_absent_counts(reads, writes);
    lemma_no_absent_counts(writes, reads);
    if socket_fault(reads, writes) is None {
        assert forall|n: Seq<char>|
            #![trigger count(reads, n)]
            #![trigger count(writes, n)]
            reads.contains(n) || writes.contains(n) implies (count(reads, n) == 1 && count(
            writes,
            n,
        ) >= 1) by {
            lemma_count_contains(reads, n);
            lemma_count_contains(writes, n);
            assert(count(reads, n) >= 1);
        }
    } else {
        let n = socket_fault(reads, writes)->0;
        lemma_count_contains(reads, n);
        lemma_count_contains(writes, n);
        assert((reads.contains(n) || writes.contains(n)) && !(count(reads, n) == 1 && count(
            writes,
            n,
        ) >= 1));
    }
}

/// Every pipe that a valid specification references has exactly one reader
/// reference and exactly one writer reference.
pub proof fn lemma_valid_pipes(spec: Specification, name: Seq<char>)
    requires
        spec.verdict() is None,
        spec.reads(Channel::Pipe).contains(name) || spec.writes(Channel::Pipe).contains(name),
    ensures
        count(spec.reads(Channel::Pipe), name) == 1,
        count(spec.writes(Channel::Pipe), name) == 1,
{
    lemma_pipe_rule(spec.reads(Channel::Pipe), spec.writes(Channel::Pipe));
}

/// Every socket that a valid specification references has exactly one reader
/// reference and at least one writer reference.
pub proof fn lemma_valid_sockets(spec: Specification, name: Seq<char>)
    requires
        spec.verdict() is None,
        spec.reads(Channel::FileSocket).contains(name) || spec.writes(
            Channel::FileSocket,
        ).contains(name),
    ensures
        count(spec.reads(Channel::FileSocket), name) == 1,
        count(spec.writes(Channel::FileSocket), name) >= 1,
{
    lemma_socket_rule(spec.reads(Channel::FileSocket), spec.writes(Channel::FileSocket));
}

/// In a valid specification only entrypoints triggered by a pipe or a socket
/// ask for trigger data.
pub proof fn lemma_valid_triggers(spec: Specification, i: int, j: int)
    requires
        spec.verdict() is None,
        0 <= i < spec.entrypoints@.len(),
        0 <= j < spec.entrypoints@[i].1.args@.len(),
        spec.entrypoints@[i].1.args@[j] is Trigger,
    ensures
        !(spec.entrypoints@[i].1.trigger is Startup),
{
    if spec.entrypoints@[i].1.trigger is Startup {
        assert(spec.entrypoints@[i].1.misplaced_trigger());
        assert(spec.misplaced_trigger());
    }
}

/// A specification whose verdict is about a pipe or a socket names a channel
/// that breaks its rule, and one that is judged for a trigger argument has
/// sound pipes and sockets.
pub proof fn lemma_verdict_names_offender(spec: Specification)
    ensures
        spec.verdict() matches Some(ErrorView::BadPipe(n)) ==> !(count(
            spec.reads(Channel::Pipe),
            n,
        ) == 1 && count(spec.writes(Channel::Pipe), n) == 1),
        spec.verdict() matches Some(ErrorView::BadFileSocket(n)) ==> !(count(
            spec.reads(Channel::FileSocket),
            n,
        ) == 1 && count(spec.writes(Channel::FileSocket), n) >= 1),
        spec.verdict() == Some(ErrorView::BadTriggerArgument) ==> spec.misplaced_trigger(),
{
    lemma_pipe_rule(spec.reads(Channel::Pipe), spec.writes(Channel::Pipe));
    lemma_socket_rule(spec.reads(Channel::FileSocket), spec.writes(Channel::FileSocket));
}

/// The fabric of a valid specification, which holds one pipe for each reader
/// reference, holds a pipe for every name that any entrypoint refers to, as
/// reader or as writer.
pub proof fn lemma_fabric_holds_every_pipe(
    spec: Specification,
    ends: Seq<(i32, i32)>,
    name: Seq<char>,
)
    requires
        spec.verdict() is None,
        spec.reads(Channel::Pipe).contains(name) || spec.writes(Channel::Pipe).contains(name),
    ensures
        position(fresh_pairs(spec.reads(Channel::Pipe), ends), name) is Some,
{
    lemma_valid_pipes(spec, name);
    lemma_count_contains(spec.reads(Channel::Pipe), name);
    lemma_fresh_pairs_found(spec.reads(Channel::Pipe), ends, name);
}

/// The fabric of a valid specification, which holds one socket pair for each
/// reader reference, holds a pair for every name that any entrypoint refers
/// to, as reader or as writer.
pub proof fn lemma_fabric_holds_every_socket(
    spec: Specification,
    ends: Seq<(i32, i32)>,
    name: Seq<char>,
)
    requires
        spec.verdict() is None,
        spec.reads(Channel::FileSocket).contains(name) || spec.writes(
            Channel::FileSocket,
        ).contains(name),
    ensures
        position(fresh_pairs(spec.reads(Channel::FileSocket), ends), name) is Some,
{
    lemma_valid_sockets(spec, name);
    lemma_count_contains(spec.reads(Channel::FileSocket), name);
    lemma_fresh_pairs_found(spec.reads(Channel::FileSocket), ends, name);
}

impl Specification {
    /// Whether every entrypoint has a name of its own.
    pub fn has_unique_names(&self) -> (unique: bool)
        ensures
            unique == self.wf(),
    {
        let mut j: usize = 0;
        while j < self.entrypoints.len()
            invariant
                j <= self.entrypoints@.len(),
                forall|a: int, b: int|
                    0 <= a < b < j ==> (#[trigger] self.entrypoints@[a]).0@ != (
                    #[trigger] self.entrypoints@[b]).0@,
            decreases self.entrypoints@.len() - j,
        {
            let mut i: usize = 0;
            while i < j
                invariant
                    i <= j < self.entrypoints@.len(),
                    forall|a: int|
                        0 <= a < i ==> (#[trigger] self.entrypoints@[a]).0@
                            != self.entrypoints@[j as int].0@,
                decreases j - i,
            {
                if self.entrypoints[i].0 == self.entrypoints[j].0 {
                    assert(self.entrypoints@[i as int].0@ == self.entrypoints@[j as int].0@);
                    return false;
                }
                i += 1;
            }
            j += 1;
        }
        true
    }
}

} // verus!
