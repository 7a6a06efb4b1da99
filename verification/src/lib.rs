//! Scheduling and synchronization core of a small teaching operating-system
//! kernel for a single-hart machine.
//!
//! The crate models the kernel's shared state (task table, ready queue, pid
//! registry, timer queue) as one explicitly owned [`kernel::Kernel`] value.
//! On the real machine every one of these structures is guarded by an
//! interrupt-free critical section; since that cell only makes a sequence of
//! operations atomic with respect to trap re-entry on a single hart, the
//! exclusive `&mut` access of safe Rust models it faithfully: no scheduling
//! event can re-enter while a structure is mid-mutation.
//!
//! The blocking primitives ([`mutex`], [`semaphore`], [`condvar`]) suspend a
//! task by handing it to the scheduler; the [`timer`] wakes tasks the same
//! way; the [`trap`] dispatcher routes hardware trap causes into those
//! scheduling decisions. Hardware itself (reading the cycle counter, arming
//! the timer compare register, the register save/restore of a context
//! switch) is outside the library: callers read the clock and pass the time
//! in, and the dispatcher returns the hardware actions it decided on.

pub mod condvar;
pub mod kernel;
pub mod manager;
pub mod mutex;
pub mod process;
pub mod semaphore;
pub mod syscall;
pub mod task;
pub mod timer;
pub mod trap;
