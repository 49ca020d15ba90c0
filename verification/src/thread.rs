//! Thread calls of the application, turned into calls of the kernel's thread
//! primitives.
//!
//! The application names code by addresses relative to its own image. The
//! kernel needs addresses it can jump to, so the start routine of a new thread
//! is moved by the offset at which the image was loaded. Everything else is
//! handed on as it came.

use vstd::prelude::*;

verus! {

/// A call of one of the kernel's thread primitives, with the arguments to make
/// it with. Pointers are carried as addresses.
#[derive(Clone, Copy, Debug, PartialEq, Eq)]
pub enum ThreadCall {
    /// Create a thread that runs the code at `start_routine`, an absolute
    /// address, and store its handle at `handle_out`.
    Create { handle_out: usize, attr: usize, start_routine: usize, arg: usize },
    /// Wait for `thread` to exit and store what it returned at `retval_out`.
    Join { thread: usize, retval_out: usize },
    /// End the calling thread with `retval`.
    Exit { retval: usize },
    /// Ask for the handle of the calling thread.
    Current,
}

/// The absolute address of what the application finds at `addr` in its image,
/// for an image loaded at `load_base`; nothing where that lies beyond the
/// address space.
pub open spec fn relocated(addr: usize, load_base: usize) -> Option<usize> {
    if addr + load_base <= usize::MAX {
        Some((addr + load_base) as usize)
    } else {
        None
    }
}

/// Moves an address of the application's image to where the image was loaded.
pub fn relocate(addr: usize, load_base: usize) -> (r: Option<usize>)
    ensures
        r == relocated(addr, load_base),
        r is Some ==> r.unwrap() == addr + load_base,
        r is Some && load_base != 0 ==> r.unwrap() != addr,
{
    if addr <= usize::MAX - load_base {
        Some(addr + load_base)
    } else {
        None
    }
}

/// `pthread_create`: the call that creates the thread. The start routine is
/// relocated; the place for the handle, the attributes and the argument are
/// handed on unchanged. Where the relocated address lies beyond the address
/// space there is no call to make.
pub fn pthread_create(
    handle_out: usize,
    attr: usize,
    start_routine: usize,
    arg: usize,
    load_base: usize,
) -> (call: Option<ThreadCall>)
    ensures
        call == match relocated(start_routine, load_base) {
            Some(entry) => Some(ThreadCall::Create { handle_out, attr, start_routine: entry, arg }),
            None => None,
        },
        call matches Some(ThreadCall::Create { start_routine: entry, .. }) ==> entry
            == start_routine + load_base && (load_base != 0 ==> entry != start_routine),
{
    match relocate(start_routine, load_base) {
        Some(entry) => Some(ThreadCall::Create { handle_out, attr, start_routine: entry, arg }),
        None => None,
    }
}

/// `pthread_join`: the call that waits for `thread`, arguments unchanged.
pub fn pthread_join(thread: usize, retval_out: usize) -> (call: ThreadCall)
    ensures
        call == (ThreadCall::Join { thread, retval_out }),
{
    ThreadCall::Join { thread, retval_out }
}

/// `pthread_exit`: the call that ends the calling thread, argument unchanged.
pub fn pthread_exit(retval: usize) -> (call: ThreadCall)
    ensures
        call == (ThreadCall::Exit { retval }),
{
    ThreadCall::Exit { retval }
}

/// `pthread_self`: the call that asks for the calling thread's handle.
pub fn pthread_self() -> (call: ThreadCall)
    ensures
        call == ThreadCall::Current,
{
    ThreadCall::Current
}

} // verus!
