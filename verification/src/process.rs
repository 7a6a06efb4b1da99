//! The process control block: pid, owned tasks, file-descriptor table,
//! program break, and pending signal state.
//!
//! The capabilities a descriptor stands for (sockets, files) and the
//! address space behind the program break are collaborators outside this
//! core; the process record keeps only the bookkeeping the kernel owns.

use vstd::prelude::*;

verus! {

/// Pending signals of a process, one flag per signal the trap dispatcher
/// can deliver or a task can raise.
#[derive(Copy, Clone, PartialEq, Eq, Structural, Debug)]
pub struct SignalFlags {
    /// Interrupt.
    pub sigint: bool,
    /// Illegal instruction.
    pub sigill: bool,
    /// Abort.
    pub sigabrt: bool,
    /// Arithmetic fault.
    pub sigfpe: bool,
    /// Bad memory access.
    pub sigsegv: bool,
}

impl SignalFlags {
    /// No signal pending.
    pub fn empty() -> (r: SignalFlags)
        ensures
            r == (SignalFlags {
                sigint: false,
                sigill: false,
                sigabrt: false,
                sigfpe: false,
                sigsegv: false,
            }),
    {
        SignalFlags { sigint: false, sigill: false, sigabrt: false, sigfpe: false, sigsegv: false }
    }

    /// Whether any terminating signal is pending.
    pub open spec fn any(self) -> bool {
        self.sigint || self.sigill || self.sigabrt || self.sigfpe || self.sigsegv
    }

    /// The union of two signal sets.
    pub open spec fn spec_or(self, other: SignalFlags) -> SignalFlags {
        SignalFlags {
            sigint: self.sigint || other.sigint,
            sigill: self.sigill || other.sigill,
            sigabrt: self.sigabrt || other.sigabrt,
            sigfpe: self.sigfpe || other.sigfpe,
            sigsegv: self.sigsegv || other.sigsegv,
        }
    }

    /// Raise the signals of `other` in addition to those already pending.
    pub fn insert(&mut self, other: SignalFlags)
        ensures
            *final(self) == old(self).spec_or(other),
    {
        self.sigint = self.sigint || other.sigint;
        self.sigill = self.sigill || other.sigill;
        self.sigabrt = self.sigabrt || other.sigabrt;
        self.sigfpe = self.sigfpe || other.sigfpe;
        self.sigsegv = self.sigsegv || other.sigsegv;
    }

    /// The exit code the first pending terminating signal dictates, in the
    /// fixed checking order; `None` when nothing is pending.
    pub open spec fn first_error_code(self) -> Option<i32> {
        if self.sigint {
            Some(-2int as i32)
        } else if self.sigill {
            Some(-4int as i32)
        } else if self.sigabrt {
            Some(-6int as i32)
        } else if self.sigfpe {
            Some(-8int as i32)
        } else if self.sigsegv {
            Some(-11int as i32)
        } else {
            None
        }
    }

    /// The exit code a pending terminating signal dictates, with a
    /// diagnostic, checked in fixed order; `None` when nothing is pending.
    pub fn check_error(&self) -> (r: Option<(i32, &'static str)>)
        ensures
            (r is Some) == self.any(),
            (r matches Some(p) ==> Some(p.0) == self.first_error_code()),
            self.sigint ==> (r matches Some(p) && p.0 == -2),
            !self.sigint && self.sigill ==> (r matches Some(p) && p.0 == -4),
            !self.sigint && !self.sigill && self.sigabrt ==> (r matches Some(p) && p.0 == -6),
            !self.sigint && !self.sigill && !self.sigabrt && self.sigfpe ==> (r matches Some(p)
                && p.0 == -8),
            !self.sigint && !self.sigill && !self.sigabrt && !self.sigfpe && self.sigsegv ==> (
            r matches Some(p) && p.0 == -11),
    {
        if self.sigint {
            Some((-2, "Killed, SIGINT=2"))
        } else if self.sigill {
            Some((-4, "Illegal Instruction, SIGILL=4"))
        } else if self.sigabrt {
            Some((-6, "Aborted, SIGABRT=6"))
        } else if self.sigfpe {
            Some((-8, "Erroneous Arithmetic Operation, SIGFPE=8"))
        } else if self.sigsegv {
            Some((-11, "Segmentation Fault, SIGSEGV=11"))
        } else {
            None
        }
    }
}

/// The transport endpoint a network descriptor is bound to.
#[derive(Copy, Clone, PartialEq, Eq, Structural, Debug)]
pub struct UdpEndpoint {
    /// Remote address.
    pub raddr: u32,
    /// Local port.
    pub lport: u16,
    /// Remote port.
    pub rport: u16,
}

/// A file-descriptor table slot. The capability behind it is an external
/// collaborator; the slot records what the kernel must remember of it.
#[derive(Copy, Clone, PartialEq, Eq, Structural, Debug)]
pub enum FileDescriptor {
    /// A descriptor bound to a transport endpoint.
    Udp(UdpEndpoint),
}

/// Position of the first empty slot of a descriptor table, if any.
pub open spec fn first_free_slot(s: Seq<Option<FileDescriptor>>) -> Option<int>
    decreases s.len(),
{
    if s.len() == 0 {
        None
    } else if s[0] is None {
        Some(0)
    } else {
        match first_free_slot(s.drop_first()) {
            Some(i) => Some(i + 1),
            None => None,
        }
    }
}

/// A scan that found the first empty slot at `i` agrees with
/// `first_free_slot`.
pub proof fn lemma_first_free_slot_found(s: Seq<Option<FileDescriptor>>, i: int)
    requires
        0 <= i < s.len(),
        s[i] is None,
        forall|j: int| 0 <= j < i ==> s[j] is Some,
    ensures
        first_free_slot(s) == Some(i),
    decreases i,
{
    if i > 0 {
        lemma_first_free_slot_found(s.drop_first(), i - 1);
    }
}

/// A scan that found no empty slot agrees with `first_free_slot`.
pub proof fn lemma_first_free_slot_missing(s: Seq<Option<FileDescriptor>>)
    requires
        forall|j: int| 0 <= j < s.len() ==> s[j] is Some,
    ensures
        first_free_slot(s) is None,
    decreases s.len(),
{
    if s.len() > 0 {
        lemma_first_free_slot_missing(s.drop_first());
    }
}

/// The process control block.
#[derive(Clone, Debug)]
pub struct ProcessControlBlock {
    /// Process id; registered in the pid registry at creation.
    pub pid: usize,
    /// Task ids of the tasks this process owns (the owning edge of the
    /// task-process relation).
    pub tasks: Vec<usize>,
    /// File-descriptor table; holds the descriptors this core allocates.
    pub fd_table: Vec<Option<FileDescriptor>>,
    /// Bottom of the heap; the break never moves below it.
    pub heap_bottom: usize,
    /// Current program break.
    pub brk: usize,
    /// Pending signals.
    pub signals: SignalFlags,
}

impl ProcessControlBlock {
    /// The program break never sits below the heap bottom.
    pub open spec fn wf(self) -> bool {
        self.heap_bottom <= self.brk
    }

    /// A fresh process: no tasks, an empty descriptor table, the break at
    /// the bottom of the heap, nothing pending.
    pub fn new(pid: usize, heap_bottom: usize) -> (r: ProcessControlBlock)
        ensures
            r.pid == pid,
            r.tasks@ == Seq::<usize>::empty(),
            r.fd_table@ == Seq::<Option<FileDescriptor>>::empty(),
            r.heap_bottom == heap_bottom,
            r.brk == heap_bottom,
            !r.signals.any(),
            r.wf(),
    {
        ProcessControlBlock {
            pid,
            tasks: Vec::new(),
            fd_table: Vec::new(),
            heap_bottom,
            brk: heap_bottom,
            signals: SignalFlags::empty(),
        }
    }

    /// Lowest free slot of the descriptor table, growing the table by one
    /// empty slot when it is full. The slot stays empty; the caller fills it.
    pub fn alloc_fd(&mut self) -> (fd: usize)
        ensures
            match first_free_slot(old(self).fd_table@) {
                Some(i) => fd == i && *final(self) == *old(self),
                None => fd == old(self).fd_table@.len() && final(self).fd_table@
                    == old(self).fd_table@.push(None) && final(self).pid == old(self).pid
                    && final(self).tasks@ == old(self).tasks@ && final(self).heap_bottom
                    == old(self).heap_bottom && final(self).brk == old(self).brk
                    && final(self).signals == old(self).signals,
            },
            fd <= old(self).fd_table@.len(),
            fd < final(self).fd_table@.len(),
            final(self).fd_table@[fd as int] is None,
    {
        let mut idx: usize = 0;
        while idx < self.fd_table.len()
            invariant
                *self == *old(self),
                0 <= idx <= self.fd_table@.len(),
                forall|j: int| 0 <= j < idx ==> self.fd_table@[j] is Some,
            decreases self.fd_table@.len() - idx,
        {
            if self.fd_table[idx].is_none() {
                proof {
                    lemma_first_free_slot_found(self.fd_table@, idx as int);
                }
                return idx;
            }
            idx = idx + 1;
        }
        proof {
            lemma_first_free_slot_missing(self.fd_table@);
        }
        let fd = self.fd_table.len();
        self.fd_table.push(None);
        fd
    }

    /// Move the program break by `size` bytes (negative shrinks). Returns
    /// the previous break, or `None` — with nothing changed — when the move
    /// would fall below the heap bottom or past the address range.
    pub fn change_program_brk(&mut self, size: i32) -> (r: Option<usize>)
        requires
            old(self).wf(),
        ensures
            final(self).wf(),
            ({
                let nb = old(self).brk + size;
                if old(self).heap_bottom <= nb <= usize::MAX {
                    &&& r == Some(old(self).brk)
                    &&& *final(self) == (ProcessControlBlock { brk: nb as usize, ..*old(self) })
                } else {
                    r is None && *final(self) == *old(self)
                }
            }),
    {
        let old_brk = self.brk;
        if size >= 0 {
            let grow = size as usize;
            if self.brk > usize::MAX - grow {
                return None;
            }
            self.brk = self.brk + grow;
        } else {
            let shrink = (-(size as i64)) as usize;
            if self.brk < shrink {
                return None;
            }
            if self.brk - shrink < self.heap_bottom {
                return None;
            }
            self.brk = self.brk - shrink;
        }
        Some(old_brk)
    }
}

} // verus!
