//! The memory of one task's stack, as an address range.
//!
//! A stack is either taken from the general allocator, and then has to go back
//! to it with the layout it was asked for, or it is the boot stack, which was
//! never the allocator's and must not be handed to it. The allocator itself is
//! not called here: its caller asks it for [`TaskStack::layout`] and brings
//! the address it got.

use vstd::prelude::*;

verus! {

/// The alignment of every stack, in bytes.
pub const STACK_ALIGN: usize = 16;

/// What the allocator is asked for, and given back with.
#[derive(Clone, Copy, Debug, PartialEq, Eq)]
pub struct StackLayout {
    pub size: usize,
    pub align: usize,
}

/// Why an address range cannot serve as a stack.
#[derive(Clone, Copy, Debug, PartialEq, Eq)]
pub enum StackError {
    /// No memory of that size can be asked for: the size is zero, or rounded
    /// up to the alignment it exceeds `isize::MAX`.
    BadLayout,
    /// The address is null: there was no memory to be had.
    OutOfMemory,
    /// The address is not a multiple of the alignment.
    Misaligned,
    /// The range would end beyond the address space.
    OutOfRange,
}

/// True when memory of `size` bytes can be asked for.
pub open spec fn layout_ok(size: usize) -> bool {
    0 < size && size + (STACK_ALIGN - 1) <= isize::MAX
}

/// Why `size` bytes at `base` cannot serve as a stack, or nothing if they can.
/// The size is looked at first, then the address, then where the range ends.
pub open spec fn range_fault(base: usize, size: usize) -> Option<StackError> {
    if !layout_ok(size) {
        Some(StackError::BadLayout)
    } else if base == 0 {
        Some(StackError::OutOfMemory)
    } else if base % STACK_ALIGN != 0 {
        Some(StackError::Misaligned)
    } else if base + size > usize::MAX {
        Some(StackError::OutOfRange)
    } else {
        None
    }
}

/// The stack of one task.
#[derive(Debug)]
pub struct TaskStack {
    base: usize,
    size: usize,
    owned: bool,
}

impl TaskStack {
    #[verifier::type_invariant]
    spec fn inv(self) -> bool {
        range_fault(self.base, self.size) is None
    }

    /// The lowest address of the stack.
    pub closed spec fn spec_down(self) -> usize {
        self.base
    }

    /// The size of the stack in bytes.
    pub closed spec fn spec_size(self) -> usize {
        self.size
    }

    /// The address just above the stack, where an empty stack's pointer starts.
    pub open spec fn spec_top(self) -> int {
        self.spec_down() + self.spec_size()
    }

    /// True when the memory came from the allocator and goes back to it.
    pub closed spec fn spec_owned(self) -> bool {
        self.owned
    }

    /// The layout with which memory for a stack of `size` bytes is asked for,
    /// or nothing where no such memory can be asked for.
    pub open spec fn layout_of(size: usize) -> Option<StackLayout> {
        if layout_ok(size) {
            Some(StackLayout { size, align: STACK_ALIGN })
        } else {
            None
        }
    }

    /// The layout with which memory for a stack of `size` bytes is asked for,
    /// or nothing where no such memory can be asked for.
    pub fn layout(size: usize) -> (l: Option<StackLayout>)
        ensures
            l == TaskStack::layout_of(size),
    {
        if size == 0 || size > isize::MAX as usize - (STACK_ALIGN - 1) {
            None
        } else {
            Some(StackLayout { size, align: STACK_ALIGN })
        }
    }

    fn checked(base: usize, size: usize, owned: bool) -> (r: Result<TaskStack, StackError>)
        ensures
            match r {
                Ok(stack) => range_fault(base, size) is None && stack.spec_down() == base
                    && stack.spec_size() == size && stack.spec_owned() == owned,
                Err(e) => range_fault(base, size) == Some(e),
            },
    {
        if TaskStack::layout(size).is_none() {
            Err(StackError::BadLayout)
        } else if base == 0 {
            Err(StackError::OutOfMemory)
        } else if base % STACK_ALIGN != 0 {
            Err(StackError::Misaligned)
        } else if base > usize::MAX - size {
            Err(StackError::OutOfRange)
        } else {
            Ok(TaskStack { base, size, owned })
        }
    }

    /// The stack made of the `size` bytes that the allocator handed out at
    /// `base`. The stack owns them.
    ///
    /// On success the stack spans exactly `size` bytes and starts at a multiple
    /// of the alignment.
    pub fn allocated(size: usize, base: usize) -> (r: Result<TaskStack, StackError>)
        ensures
            match r {
                Ok(stack) => range_fault(base, size) is None && stack.spec_down() == base
                    && stack.spec_size() == size && stack.spec_owned(),
                Err(e) => range_fault(base, size) == Some(e),
            },
            r is Ok ==> r.unwrap().spec_top() - r.unwrap().spec_down() == size
                && r.unwrap().spec_down() % STACK_ALIGN == 0,
    {
        TaskStack::checked(base, size, true)
    }

    /// The boot stack: `size` bytes at `base` that were there before the
    /// allocator was. The stack borrows them and never gives them back.
    pub fn new_init(base: usize, size: usize) -> (r: Result<TaskStack, StackError>)
        ensures
            match r {
                Ok(stack) => range_fault(base, size) is None && stack.spec_down() == base
                    && stack.spec_size() == size && !stack.spec_owned(),
                Err(e) => range_fault(base, size) == Some(e),
            },
    {
        TaskStack::checked(base, size, false)
    }

    /// The address just above the stack.
    pub fn top(&self) -> (addr: usize)
        ensures
            addr == self.spec_top(),
            addr - self.spec_down() == self.spec_size(),
    {
        proof {
            use_type_invariant(self);
        }
        self.base + self.size
    }

    /// The lowest address of the stack.
    pub fn down(&self) -> (addr: usize)
        ensures
            addr == self.spec_down(),
            addr % STACK_ALIGN == 0,
            addr != 0,
    {
        proof {
            use_type_invariant(self);
        }
        self.base
    }

    /// The size of the stack in bytes.
    pub fn size(&self) -> (n: usize)
        ensures
            n == self.spec_size(),
    {
        self.size
    }

    /// Tells whether the memory came from the allocator.
    pub fn is_owned(&self) -> (b: bool)
        ensures
            b == self.spec_owned(),
    {
        self.owned
    }

    /// Ends the use of the stack. For a stack from the allocator this is the
    /// address to give back and the layout to give it back with, the very one
    /// it was asked for with. For the boot stack there is nothing to give back.
    pub fn release(self) -> (r: Option<(usize, StackLayout)>)
        ensures
            r == if self.spec_owned() {
                Some(
                    (self.spec_down(), StackLayout { size: self.spec_size(), align: STACK_ALIGN }),
                )
            } else {
                None
            },
            r is Some ==> TaskStack::layout_of(r.unwrap().1.size) == Some(r.unwrap().1),
    {
        proof {
            use_type_invariant(&self);
        }
        if self.owned {
            Some((self.base, StackLayout { size: self.size, align: STACK_ALIGN }))
        } else {
            None
        }
    }
}

} // verus!
