//! The IPC fabric: named pipe pairs and socket pairs whose ends are handed
//! out by move. An end that was taken is gone; asking again is an error.

use vstd::prelude::*;
use vstd::string::*;
use crate::error::{Error, ErrorView};
use crate::specification::names;

verus! {

/// The mathematical value of a pair of ends: its name and the descriptor of
/// each end that has not been taken yet.
pub struct PairView {
    pub name: Seq<char>,
    pub read: Option<int>,
    pub write: Option<int>,
}

/// The descriptor at one end, as a number.
pub open spec fn end_view(end: Option<i32>) -> Option<int> {
    match end {
        Some(fd) => Some(fd as int),
        None => None,
    }
}

/// A named packet-mode pipe.
#[derive(Debug, PartialEq, Eq)]
pub struct PipePair {
    name: String,
    read: Option<i32>,
    write: Option<i32>,
}

/// A named pair of connected datagram sockets.
#[derive(Debug, PartialEq, Eq)]
pub struct SocketPair {
    name: String,
    read: Option<i32>,
    write: Option<i32>,
}

impl View for PipePair {
    type V = PairView;

    closed spec fn view(&self) -> PairView {
        PairView { name: self.name@, read: end_view(self.read), write: end_view(self.write) }
    }
}

impl View for SocketPair {
    type V = PairView;

    closed spec fn view(&self) -> PairView {
        PairView { name: self.name@, read: end_view(self.read), write: end_view(self.write) }
    }
}

impl PipePair {
    /// A pipe of the given name whose two ends are the given descriptors.
    pub fn new(name: &str, read: i32, write: i32) -> (pair: PipePair)
        ensures
            pair@ == (PairView { name: name@, read: Some(read as int), write: Some(write as int) }),
    {
        PipePair { name: String::from_str(name), read: Some(read), write: Some(write) }
    }

    /// Hands out the read end, once.
    pub fn take_read(&mut self) -> (end: Result<i32, Error>)
        ensures
            final(self)@ == (PairView { read: None, ..old(self)@ }),
            match old(self)@.read {
                Some(fd) => end == Ok::<i32, Error>(fd as i32) && fd == fd as i32,
                None => end matches Err(e) && e@ == ErrorView::BadPipe(old(self)@.name),
            },
    {
        match self.read.take() {
            Some(fd) => Ok(fd),
            None => Err(Error::BadPipe(self.name.clone())),
        }
    }

    /// Hands out the write end, once.
    pub fn take_write(&mut self) -> (end: Result<i32, Error>)
        ensures
            final(self)@ == (PairView { write: None, ..old(self)@ }),
            match old(self)@.write {
                Some(fd) => end == Ok::<i32, Error>(fd as i32) && fd == fd as i32,
                None => end matches Err(e) && e@ == ErrorView::BadPipe(old(self)@.name),
            },
    {
        match self.write.take() {
            Some(fd) => Ok(fd),
            None => Err(Error::BadPipe(self.name.clone())),
        }
    }

    /// Whether this is the pipe of the given name.
    pub fn is_named(&self, name: &String) -> (same: bool)
        ensures
            same == (self@.name == name@),
    {
        self.name == *name
    }
}

impl SocketPair {
    /// A socket pair of the given name whose two ends are the given
    /// descriptors.
    pub fn new(name: &str, read: i32, write: i32) -> (pair: SocketPair)
        ensures
            pair@ == (PairView { name: name@, read: Some(read as int), write: Some(write as int) }),
    {
        SocketPair { name: String::from_str(name), read: Some(read), write: Some(write) }
    }

    /// Hands out the read end, once.
    pub fn take_read(&mut self) -> (end: Result<i32, Error>)
        ensures
            final(self)@ == (PairView { read: None, ..old(self)@ }),
            match old(self)@.read {
                Some(fd) => end == Ok::<i32, Error>(fd as i32) && fd == fd as i32,
                None => end matches Err(e) && e@ == ErrorView::BadFileSocket(old(self)@.name),
            },
    {
        match self.read.take() {
            Some(fd) => Ok(fd),
            None => Err(Error::BadFileSocket(self.name.clone())),
        }
    }

    /// Hands out the write end, once.
    pub fn take_write(&mut self) -> (end: Result<i32, Error>)
        ensures
            final(self)@ == (PairView { write: None, ..old(self)@ }),
            match old(self)@.write {
                Some(fd) => end == Ok::<i32, Error>(fd as i32) && fd == fd as i32,
                None => end matches Err(e) && e@ == ErrorView::BadFileSocket(old(self)@.name),
            },
    {
        match self.write.take() {
            Some(fd) => Ok(fd),
            None => Err(Error::BadFileSocket(self.name.clone())),
        }
    }

    /// The write end, which stays where it is: writers get duplicates of it.
    pub fn write(&self) -> (end: Result<i32, Error>)
        ensures
            match self@.write {
                Some(fd) => end == Ok::<i32, Error>(fd as i32) && fd == fd as i32,
                None => end matches Err(e) && e@ == ErrorView::BadFileSocket(self@.name),
            },
    {
        match self.write {
            Some(fd) => Ok(fd),
            None => Err(Error::BadFileSocket(self.name.clone())),
        }
    }

    /// Whether this is the socket pair of the given name.
    pub fn is_named(&self, name: &String) -> (same: bool)
        ensures
            same == (self@.name == name@),
    {
        self.name == *name
    }
}

/// The values of a list of pipes.
pub open spec fn pipe_views(pairs: Seq<PipePair>) -> Seq<PairView> {
    pairs.map_values(|p: PipePair| p@)
}

/// The values of a list of socket pairs.
pub open spec fn socket_views(pairs: Seq<SocketPair>) -> Seq<PairView> {
    pairs.map_values(|p: SocketPair| p@)
}

/// A fresh pair for each name, in order, with the ends that were made for it.
pub open spec fn fresh_pairs(names: Seq<Seq<char>>, ends: Seq<(i32, i32)>) -> Seq<PairView> {
    Seq::new(
        names.len(),
        |i: int| PairView { name: names[i], read: Some(ends[i].0 as int), write: Some(ends[i].1 as int) },
    )
}

/// The position of the first pair from `i` on that has the given name.
pub open spec fn position_from(pairs: Seq<PairView>, name: Seq<char>, i: int) -> Option<int>
    decreases pairs.len() - i,
{
    if i < 0 || i >= pairs.len() {
        None
    } else if pairs[i].name == name {
        Some(i)
    } else {
        position_from(pairs, name, i + 1)
    }
}

/// The position of the first pair that has the given name.
pub open spec fn position(pairs: Seq<PairView>, name: Seq<char>) -> Option<int> {
    position_from(pairs, name, 0)
}

/// Builds the pipes of an application from their names and from the ends that
/// were created for them, one pair of descriptors for each name.
pub fn create_pipes(names: &Vec<String>, ends: &Vec<(i32, i32)>) -> (pipes: Vec<PipePair>)
    requires
        names@.len() == ends@.len(),
    ensures
        pipe_views(pipes@) == fresh_pairs(self::names(names@), ends@),
{
    let mut pipes: Vec<PipePair> = Vec::new();
    let mut i: usize = 0;
    while i < names.len()
        invariant
            i <= names@.len() == ends@.len(),
            pipes@.len() == i,
            forall|k: int|
                0 <= k < i ==> (#[trigger] pipes@[k])@ == fresh_pairs(
                    self::names(names@),
                    ends@,
                )[k],
        decreases names@.len() - i,
    {
        let (read, write) = ends[i];
        pipes.push(PipePair::new(names[i].as_str(), read, write));
        i += 1;
    }
    assert(pipe_views(pipes@) =~= fresh_pairs(self::names(names@), ends@));
    pipes
}

/// Builds the socket pairs of an application from their names and from the
/// ends that were created for them, one pair of descriptors for each name.
pub fn create_sockets(names: &Vec<String>, ends: &Vec<(i32, i32)>) -> (sockets: Vec<SocketPair>)
    requires
        names@.len() == ends@.len(),
    ensures
        socket_views(sockets@) == fresh_pairs(self::names(names@), ends@),
{
    let mut sockets: Vec<SocketPair> = Vec::new();
    let mut i: usize = 0;
    while i < names.len()
        invariant
            i <= names@.len() == ends@.len(),
            sockets@.len() == i,
            forall|k: int|
                0 <= k < i ==> (#[trigger] sockets@[k])@ == fresh_pairs(
                    self::names(names@),
                    ends@,
                )[k],
        decreases names@.len() - i,
    {
        let (read, write) = ends[i];
        sockets.push(SocketPair::new(names[i].as_str(), read, write));
        i += 1;
    }
    assert(socket_views(sockets@) =~= fresh_pairs(self::names(names@), ends@));
    sockets
}

/// Finds the pipe of the given name.
pub fn find_pipe(pipes: &Vec<PipePair>, name: &String) -> (at: Option<usize>)
    ensures
        at is Some ==> at->0 < pipes@.len(),
        at is Some <==> position(pipe_views(pipes@), name@) is Some,
        at is Some ==> position(pipe_views(pipes@), name@) == Some(at->0 as int),
{
    let mut i: usize = 0;
    while i < pipes.len()
        invariant
            i <= pipes@.len(),
            position(pipe_views(pipes@), name@) == position_from(
                pipe_views(pipes@),
                name@,
                i as int,
            ),
        decreases pipes@.len() - i,
    {
        if pipes[i].is_named(name) {
            return Some(i);
        }
        i += 1;
    }
    None
}

/// Finds the socket pair of the given name.
pub fn find_socket(sockets: &Vec<SocketPair>, name: &String) -> (at: Option<usize>)
    ensures
        at is Some ==> at->0 < sockets@.len(),
        at is Some <==> position(socket_views(sockets@), name@) is Some,
        at is Some ==> position(socket_views(sockets@), name@) == Some(at->0 as int),
{
    let mut i: usize = 0;
    while i < sockets.len()
        invariant
            i <= sockets@.len(),
            position(socket_views(sockets@), name@) == position_from(
                socket_views(sockets@),
                name@,
                i as int,
            ),
        decreases sockets@.len() - i,
    {
        if sockets[i].is_named(name) {
            return Some(i);
        }
        i += 1;
    }
    None
}

/// A search by name from `i` on finds a pair wherever one of that name lies
/// at `k`, not before `i`.
pub proof fn lemma_position_found(pairs: Seq<PairView>, name: Seq<char>, i: int, k: int)
    requires
        0 <= i <= k < pairs.len(),
        pairs[k].name == name,
    ensures
        position_from(pairs, name, i) is Some,
    decreases k - i,
{
    if pairs[i].name != name {
        lemma_position_found(pairs, name, i + 1, k);
    }
}

/// A fabric that holds one fresh pair for each of the given names holds a
/// pair for a name exactly when the name is among them.
pub proof fn lemma_fresh_pairs_found(names: Seq<Seq<char>>, ends: Seq<(i32, i32)>, name: Seq<char>)
    requires
        names.contains(name),
    ensures
        position(fresh_pairs(names, ends), name) is Some,
{
    let k = choose|k: int| 0 <= k < names.len() && names[k] == name;
    lemma_position_found(fresh_pairs(names, ends), name, 0, k);
}

} // verus!
