//! The `clone3` request: its typed form, the packed form that the kernel
//! reads, and the reading of what the kernel hands back.

use vstd::prelude::*;

verus! {

/// A typed `clone3` request. Slots that the kernel fills are requested by a
/// flag here; their addresses are supplied when the request is packed.
#[derive(Debug, Clone, Copy)]
pub struct CloneArgs {
    /// The clone flags, as a bit mask.
    pub flags: u64,
    /// Whether the kernel is to hand back a pidfd.
    pub pidfd: bool,
    /// Whether the child's tid is to be written in the child's memory.
    pub child_tid: bool,
    /// Whether the child's tid is to be written in the parent's memory.
    pub parent_tid: bool,
    /// The signal sent to the parent when the child exits.
    pub exit_signal: Option<i32>,
    /// Address and length of an alternate stack.
    pub stack: Option<(u64, u64)>,
    /// Address and length of the list of tids to assign, one for each level
    /// of nested pid namespaces.
    pub set_tid: Option<(u64, u64)>,
    /// The descriptor of the cgroup in which to place the child.
    pub cgroup: Option<i32>,
}

/// The request as the kernel reads it: eleven 64-bit fields in this order.
/// Addresses are 64 bits wide whatever the width of a pointer.
#[derive(Debug, Clone, Copy, PartialEq, Eq)]
pub struct CloneArgsFfi {
    pub flags: u64,
    pub pidfd: u64,
    pub child_tid: u64,
    pub parent_tid: u64,
    pub exit_signal: u64,
    pub stack: u64,
    pub stack_size: u64,
    pub tls: u64,
    pub set_tid: u64,
    pub set_tid_size: u64,
    pub cgroup: u64,
}

/// What the kernel wrote into the slots that were requested.
#[derive(Debug, Clone, Copy, PartialEq, Eq)]
pub struct CloneOutputs {
    pub pidfd: Option<i32>,
    pub child_tid: Option<i32>,
    pub parent_tid: Option<i32>,
}

/// How a `clone3` call ended for the process that looks at it.
#[derive(Debug, Clone, Copy, PartialEq, Eq)]
pub enum Cloned {
    /// This is the new child; its copies of the requested slots hold what
    /// the kernel wrote there.
    Child { outputs: CloneOutputs },
    /// This is the parent; the child has the given pid.
    Parent { pid: i32, outputs: CloneOutputs },
    /// No child was made.
    Failed { errno: i32 },
}

/// `address` where the slot is wanted, else the null address.
pub open spec fn slot(wanted: bool, address: u64) -> u64 {
    if wanted {
        address
    } else {
        0
    }
}

/// `value` where the slot was wanted.
pub open spec fn filled(wanted: bool, value: i32) -> Option<i32> {
    if wanted {
        Some(value)
    } else {
        None
    }
}

impl CloneArgs {
    /// The packed form of this request, given the addresses of the three
    /// slots that the kernel may fill.
    pub open spec fn packed(self, pidfd: u64, child_tid: u64, parent_tid: u64) -> CloneArgsFfi {
        CloneArgsFfi {
            flags: self.flags,
            pidfd: slot(self.pidfd, pidfd),
            child_tid: slot(self.child_tid, child_tid),
            parent_tid: slot(self.parent_tid, parent_tid),
            exit_signal: match self.exit_signal {
                Some(s) => s as u64,
                None => 0,
            },
            stack: match self.stack {
                Some(s) => s.0,
                None => 0,
            },
            stack_size: match self.stack {
                Some(s) => s.1,
                None => 0,
            },
            tls: 0,
            set_tid: match self.set_tid {
                Some(s) => s.0,
                None => 0,
            },
            set_tid_size: match self.set_tid {
                Some(s) => s.1,
                None => 0,
            },
            cgroup: match self.cgroup {
                Some(c) => c as u64,
                None => 0,
            },
        }
    }

    /// What the slots hold after a successful call.
    pub open spec fn outputs(self, pidfd: i32, child_tid: i32, parent_tid: i32) -> CloneOutputs {
        CloneOutputs {
            pidfd: filled(self.pidfd, pidfd),
            child_tid: filled(self.child_tid, child_tid),
            parent_tid: filled(self.parent_tid, parent_tid),
        }
    }

    /// The request with the given flags and nothing else.
    pub open spec fn new_spec(flags: u64) -> CloneArgs {
        CloneArgs {
            flags,
            pidfd: false,
            child_tid: false,
            parent_tid: false,
            exit_signal: None,
            stack: None,
            set_tid: None,
            cgroup: None,
        }
    }

    /// A request with the given flags and nothing else.
    pub fn new(flags: u64) -> (args: CloneArgs)
        ensures
            args == Self::new_spec(flags),
    {
        CloneArgs {
            flags,
            pidfd: false,
            child_tid: false,
            parent_tid: false,
            exit_signal: None,
            stack: None,
            set_tid: None,
            cgroup: None,
        }
    }

    /// Packs the request for the kernel. The three addresses are those of the
    /// slots for the pidfd and the two tids; a slot that was not requested is
    /// passed as null.
    pub fn process(&self, pidfd: u64, child_tid: u64, parent_tid: u64) -> (ffi: CloneArgsFfi)
        ensures
            ffi == self.packed(pidfd, child_tid, parent_tid),
    {
        CloneArgsFfi {
            flags: self.flags,
            pidfd: if self.pidfd {
                pidfd
            } else {
                0
            },
            child_tid: if self.child_tid {
                child_tid
            } else {
                0
            },
            parent_tid: if self.parent_tid {
                parent_tid
            } else {
                0
            },
            exit_signal: match self.exit_signal {
                Some(s) => s as u64,
                None => 0,
            },
            stack: match self.stack {
                Some(s) => s.0,
                None => 0,
            },
            stack_size: match self.stack {
                Some(s) => s.1,
                None => 0,
            },
            tls: 0,
            set_tid: match self.set_tid {
                Some(s) => s.0,
                None => 0,
            },
            set_tid_size: match self.set_tid {
                Some(s) => s.1,
                None => 0,
            },
            cgroup: match self.cgroup {
                Some(c) => c as u64,
                None => 0,
            },
        }
    }

    /// Reads the slots after a successful call: each requested slot holds
    /// what the kernel wrote there.
    pub fn finalise(&self, pidfd: i32, child_tid: i32, parent_tid: i32) -> (out: CloneOutputs)
        ensures
            out == self.outputs(pidfd, child_tid, parent_tid),
    {
        CloneOutputs {
            pidfd: if self.pidfd {
                Some(pidfd)
            } else {
                None
            },
            child_tid: if self.child_tid {
                Some(child_tid)
            } else {
                None
            },
            parent_tid: if self.parent_tid {
                Some(parent_tid)
            } else {
                None
            },
        }
    }
}

/// What a `clone3` call that returned `returned` means. A negative value is
/// a failure with the given `errno`, and no slot is read. Any other value is
/// a success: 0 in the child, the child's pid in the parent, and on either
/// side each requested slot holds what the kernel wrote there.
pub open spec fn cloned(
    args: CloneArgs,
    returned: i64,
    errno: i32,
    pidfd: i32,
    child_tid: i32,
    parent_tid: i32,
) -> Cloned {
    if returned < 0 {
        Cloned::Failed { errno }
    } else if returned == 0 {
        Cloned::Child { outputs: args.outputs(pidfd, child_tid, parent_tid) }
    } else {
        Cloned::Parent { pid: returned as i32, outputs: args.outputs(pidfd, child_tid, parent_tid) }
    }
}

/// Completes a `clone3` call: reads what the system call returned, and after
/// a success the slots that the kernel filled.
pub fn clone3(
    args: &CloneArgs,
    returned: i64,
    errno: i32,
    pidfd: i32,
    child_tid: i32,
    parent_tid: i32,
) -> (outcome: Cloned)
    ensures
        outcome == cloned(*args, returned, errno, pidfd, child_tid, parent_tid),
{
    if returned < 0 {
        Cloned::Failed { errno }
    } else if returned == 0 {
        Cloned::Child { outputs: args.finalise(pidfd, child_tid, parent_tid) }
    } else {
        Cloned::Parent {
            pid: returned as i32,
            outputs: args.finalise(pidfd, child_tid, parent_tid),
        }
    }
}

} // verus!
