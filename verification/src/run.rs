//! The life of one run of the orchestrator: where the specification comes
//! from, what has to exist before anything is spawned, and how the exits of
//! the children add up to the exit code of the whole.

use vstd::prelude::*;
use vstd::string::*;
use crate::error::{Error, ErrorView};
use crate::spawner::{interrupted, interrupted_errno, ok_exit_code};
use crate::specification::{names, Channel, Environment, Specification};

verus! {

/// What the command line asks of a run.
#[derive(Debug)]
pub struct RunArgs {
    /// The path of an external JSON specification, if one was given.
    pub spec: Option<String>,
    /// Stop each spawned entrypoint before it executes, so that a debugger
    /// can attach.
    pub debug: bool,
    /// Leave as soon as everything is spawned.
    pub daemon: bool,
    /// Let every entrypoint inherit standard output.
    pub stdout: bool,
    /// Let every entrypoint inherit standard error.
    pub stderr: bool,
    /// The target binary.
    pub binary: String,
    /// The arguments that are passed through to the target binary.
    pub binary_args: Vec<String>,
}

/// Where the specification of a run is read from.
#[derive(Debug, Clone, PartialEq, Eq)]
pub enum SpecSource {
    /// The JSON file at this path.
    Json(String),
    /// The section that is embedded in the target binary.
    Embedded,
}

/// What `std::path::Path::extension` finds at the end of a path.
pub uninterp spec fn path_extension(path: Seq<char>) -> Option<Seq<char>>;

/// The value of an optional string.
pub open spec fn text_view(text: Option<String>) -> Option<Seq<char>> {
    match text {
        Some(t) => Some(t@),
        None => None,
    }
}

/// Calls `std::path::Path::extension`. The contract only names the result.
#[verifier::external_body]
fn extension_of(path: &str) -> (extension: Option<String>)
    ensures
        text_view(extension) == path_extension(path@),
{
    match std::path::Path::new(path).extension() {
        Some(e) => Some(e.to_string_lossy().into_owned()),
        None => None,
    }
}

/// Where a specification file with the given extension is read from: only
/// files whose extension is `json` are accepted.
pub open spec fn classified(path: Seq<char>, extension: Option<Seq<char>>) -> Result<
    Seq<char>,
    ErrorView,
> {
    if extension == Some("json"@) {
        Ok(path)
    } else {
        Err(ErrorView::BadSpecType)
    }
}

/// Accepts a specification file by its extension.
pub fn classify_source(path: &String, extension: &Option<String>) -> (source: Result<
    SpecSource,
    Error,
>)
    ensures
        match classified(path@, text_view(*extension)) {
            Ok(p) => source matches Ok(SpecSource::Json(found)) && found@ == p,
            Err(e) => source matches Err(found) && found@ == e,
        },
{
    match extension {
        Some(e) => {
            if *e == String::from_str("json") {
                Ok(SpecSource::Json(path.clone()))
            } else {
                Err(Error::BadSpecType)
            }
        },
        None => Err(Error::BadSpecType),
    }
}

/// Accepts a specification file by its path: it must be a JSON file.
pub fn file_source(path: &String) -> (source: Result<SpecSource, Error>)
    ensures
        match classified(path@, path_extension(path@)) {
            Ok(p) => source matches Ok(SpecSource::Json(found)) && found@ == p,
            Err(e) => source matches Err(found) && found@ == e,
        },
{
    let extension = extension_of(path.as_str());
    classify_source(path, &extension)
}

/// Where the specification of a run is read from: the file that was named,
/// which must be a JSON file, or else the target binary.
pub fn specification_source(args: &RunArgs) -> (source: Result<SpecSource, Error>)
    ensures
        match args.spec {
            Some(path) => match classified(path@, path_extension(path@)) {
                Ok(p) => source matches Ok(SpecSource::Json(found)) && found@ == p,
                Err(e) => source matches Err(found) && found@ == e,
            },
            None => source matches Ok(SpecSource::Embedded),
        },
{
    match &args.spec {
        Some(path) => file_source(path),
        None => Ok(SpecSource::Embedded),
    }
}

/// The specification that was found in the target binary; it is an error
/// for none to be there.
pub fn embedded_specification(found: Option<Specification>) -> (spec: Result<Specification, Error>)
    ensures
        match found {
            Some(s) => spec == Ok::<Specification, Error>(s),
            None => spec matches Err(e) && e@ == ErrorView::NoSpecification,
        },
{
    match found {
        Some(s) => Ok(s),
        None => Err(Error::NoSpecification),
    }
}

/// A set of capabilities with one more granted, once.
pub open spec fn with_capability(
    environment: Seq<Environment>,
    capability: Environment,
    grant: bool,
) -> Seq<Environment> {
    if grant && !environment.contains(capability) {
        environment.push(capability)
    } else {
        environment
    }
}

/// The capabilities of an entrypoint once standard output and standard
/// error have been granted as asked.
pub open spec fn with_stdio(environment: Seq<Environment>, stdout: bool, stderr: bool) -> Seq<
    Environment,
> {
    with_capability(with_capability(environment, Environment::Stdout, stdout), Environment::Stderr, stderr)
}

/// Whether standard output (or else standard error) is among the given
/// capabilities.
fn has_capability(environment: &Vec<Environment>, stdout: bool) -> (found: bool)
    ensures
        found == environment@.contains(
            if stdout {
                Environment::Stdout
            } else {
                Environment::Stderr
            },
        ),
{
    let mut i: usize = 0;
    while i < environment.len()
        invariant
            i <= environment@.len(),
            forall|k: int|
                0 <= k < i ==> #[trigger] environment@[k] != (if stdout {
                    Environment::Stdout
                } else {
                    Environment::Stderr
                }),
        decreases environment@.len() - i,
    {
        match &environment[i] {
            Environment::Stdout => {
                if stdout {
                    return true;
                }
            },
            Environment::Stderr => {
                if !stdout {
                    return true;
                }
            },
            _ => {},
        }
        i += 1;
    }
    false
}

impl Specification {
    /// Grants standard output, standard error or both to every entrypoint.
    /// Nothing else about the specification changes.
    pub fn grant_stdio(&mut self, stdout: bool, stderr: bool)
        ensures
            final(self).entrypoints@.len() == old(self).entrypoints@.len(),
            forall|i: int|
                0 <= i < old(self).entrypoints@.len() ==> {
                    let before = #[trigger] old(self).entrypoints@[i];
                    let after = final(self).entrypoints@[i];
                    &&& after.0 == before.0
                    &&& after.1.trigger == before.1.trigger
                    &&& after.1.args == before.1.args
                    &&& after.1.environment@ == with_stdio(before.1.environment@, stdout, stderr)
                },
            old(self).wf() ==> final(self).wf(),
    {
        let mut i: usize = 0;
        while i < self.entrypoints.len()
            invariant
                i <= self.entrypoints@.len(),
                self.entrypoints@.len() == old(self).entrypoints@.len(),
                forall|k: int|
                    0 <= k < i ==> {
                        let before = #[trigger] old(self).entrypoints@[k];
                        let after = self.entrypoints@[k];
                        &&& after.0 == before.0
                        &&& after.1.trigger == before.1.trigger
                        &&& after.1.args == before.1.args
                        &&& after.1.environment@ == with_stdio(
                            before.1.environment@,
                            stdout,
                            stderr,
                        )
                    },
                forall|k: int|
                    i <= k < self.entrypoints@.len() ==> self.entrypoints@[k] == old(
                        self,
                    ).entrypoints@[k],
            decreases self.entrypoints@.len() - i,
        {
            let mut entry = self.entrypoints.remove(i);
            if stdout && !has_capability(&entry.1.environment, true) {
                entry.1.environment.push(Environment::Stdout);
            }
            if stderr && !has_capability(&entry.1.environment, false) {
                entry.1.environment.push(Environment::Stderr);
            }
            self.entrypoints.insert(i, entry);
            i += 1;
        }
        proof {
            if old(self).wf() {
                assert forall|a: int, b: int| 0 <= a < b < self.entrypoints@.len() implies (
                #[trigger] self.entrypoints@[a]).0@ != (#[trigger] self.entrypoints@[b]).0@ by {
                    assert(self.entrypoints@[a].0 == old(self).entrypoints@[a].0);
                    assert(self.entrypoints@[b].0 == old(self).entrypoints@[b].0);
                }
            }
        }
    }
}

/// What has to exist before anything is spawned: one pipe and one socket
/// pair for each of these names.
#[derive(Debug, Clone, PartialEq, Eq)]
pub struct RunPlan {
    pub pipes: Vec<String>,
    pub sockets: Vec<String>,
}

/// Prepares a run from its specification, in which every entrypoint has a
/// name of its own: grants the standard descriptors that the command line
/// asks for, validates the result, and lists the channels to create, which
/// are those that are read from. Nothing is to be spawned where this fails.
pub fn run(args: &RunArgs, spec: &mut Specification) -> (plan: Result<RunPlan, Error>)
    requires
        old(spec).wf(),
    ensures
        final(spec).wf(),
        final(spec).entrypoints@.len() == old(spec).entrypoints@.len(),
        forall|i: int|
            0 <= i < old(spec).entrypoints@.len() ==> {
                let before = #[trigger] old(spec).entrypoints@[i];
                let after = final(spec).entrypoints@[i];
                &&& after.0 == before.0
                &&& after.1.trigger == before.1.trigger
                &&& after.1.args == before.1.args
                &&& after.1.environment@ == with_stdio(
                    before.1.environment@,
                    args.stdout,
                    args.stderr,
                )
            },
        match plan {
            Ok(p) => final(spec).verdict() is None && names(p.pipes@) == final(spec).reads(
                Channel::Pipe,
            ) && names(p.sockets@) == final(spec).reads(Channel::FileSocket),
            Err(e) => final(spec).verdict() == Some(e@),
        },
{
    spec.grant_stdio(args.stdout, args.stderr);
    match spec.validate() {
        Ok(_) => {
            let (pipes, _) = spec.pipes();
            let (sockets, _) = spec.sockets();
            Ok(RunPlan { pipes, sockets })
        },
        Err(e) => Err(e),
    }
}

/// The exit code of a run that does not wait for its children.
pub fn detached_exit_code(args: &RunArgs) -> (code: Option<i32>)
    ensures
        code == (if args.daemon {
            Some(0i32)
        } else {
            None
        }),
{
    if args.daemon {
        Some(ok_exit_code())
    } else {
        None
    }
}

/// The error number that says that no child is left to wait for.
pub open spec fn no_child() -> int {
    10
}

/// The number of `nix::errno::Errno::ECHILD`. The contract gives the value
/// that it has on Linux.
#[verifier::external_body]
fn no_child_errno() -> (errno: i32)
    ensures
        errno == no_child(),
{
    nix::errno::Errno::ECHILD as i32
}

/// What came of waiting for any child to exit.
#[derive(Debug, Clone, Copy, PartialEq, Eq)]
pub enum Waited {
    /// A child exited with this code.
    Exited { pid: i32, code: i32 },
    /// A child was terminated by this signal.
    Signaled { pid: i32, signal: i32 },
    /// The wait failed.
    Failed { errno: i32 },
}

/// What the reap loop does next.
#[derive(Debug, Clone, PartialEq, Eq)]
pub enum Reaped {
    /// Wait again; this is the exit code so far.
    Waiting { exit_code: i32 },
    /// Every child has exited; this is the exit code of the run.
    Done { exit_code: i32 },
    /// Waiting failed.
    Failed(Error),
}

/// The exit code so far once one more child has exited: the first one that
/// is not the code of success stays.
pub open spec fn next_exit_code(exit_code: i32, code: i32) -> i32 {
    if exit_code == 0 && code != 0 {
        code
    } else {
        exit_code
    }
}

/// One turn of the reap loop. The exit of a child is taken into the exit
/// code; a child that was killed by a signal leaves it as it is; an
/// interrupted wait is tried again; that no child is left ends the loop; any
/// other failure is an error.
pub fn reap(exit_code: i32, waited: Waited) -> (next: Reaped)
    ensures
        match waited {
            Waited::Exited { pid, code } => next matches Reaped::Waiting { exit_code: e } && e
                == next_exit_code(exit_code, code),
            Waited::Signaled { pid, signal } => next matches Reaped::Waiting { exit_code: e } && e
                == exit_code,
            Waited::Failed { errno } => if errno == no_child() {
                next matches Reaped::Done { exit_code: e } && e == exit_code
            } else if errno == interrupted() {
                next matches Reaped::Waiting { exit_code: e } && e == exit_code
            } else {
                next matches Reaped::Failed(e) && e@ == (ErrorView::Syscall {
                    op: "waitpid"@,
                    errno: errno as int,
                })
            },
        },
{
    match waited {
        Waited::Exited { pid: _, code } => {
            if exit_code == ok_exit_code() && code != ok_exit_code() {
                Reaped::Waiting { exit_code: code }
            } else {
                Reaped::Waiting { exit_code }
            }
        },
        Waited::Signaled { pid: _, signal: _ } => Reaped::Waiting { exit_code },
        Waited::Failed { errno } => {
            if errno == no_child_errno() {
                Reaped::Done { exit_code }
            } else if errno == interrupted_errno() {
                Reaped::Waiting { exit_code }
            } else {
                Reaped::Failed(Error::Syscall { op: String::from_str("waitpid"), errno })
            }
        },
    }
}

/// The exit code after a run of children have exited with the given codes,
/// in order.
pub open spec fn after_exits(exit_code: i32, codes: Seq<i32>) -> i32
    decreases codes.len(),
{
    if codes.len() == 0 {
        exit_code
    } else {
        after_exits(next_exit_code(exit_code, codes.first()), codes.drop_first())
    }
}

/// The first code that is not the code of success, or else that code.
pub open spec fn first_failure(codes: Seq<i32>) -> i32
    decreases codes.len(),
{
    if codes.len() == 0 {
        0
    } else if codes.first() != 0 {
        codes.first()
    } else {
        first_failure(codes.drop_first())
    }
}

/// Once a child has failed, the exit code stays what it is.
pub proof fn lemma_failure_stays(exit_code: i32, codes: Seq<i32>)
    requires
        exit_code != 0,
    ensures
        after_exits(exit_code, codes) == exit_code,
    decreases codes.len(),
{
    if codes.len() > 0 {
        lemma_failure_stays(exit_code, codes.drop_first());
    }
}

/// The exit code of a run is the first exit code of a child that is not the
/// code of success, and the code of success where every child succeeded.
pub proof fn lemma_first_failure_wins(codes: Seq<i32>)
    ensures
        after_exits(0, codes) == first_failure(codes),
    decreases codes.len(),
{
    if codes.len() > 0 {
        if codes.first() != 0 {
            lemma_failure_stays(codes.first(), codes.drop_first());
        } else {
            lemma_first_failure_wins(codes.drop_first());
        }
    }
}

} // verus!
