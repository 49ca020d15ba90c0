use app_runtime::stack::{StackError, StackLayout, TaskStack, STACK_ALIGN};

#[test]
fn allocated_stack_spans_the_requested_size() {
    for size in [1usize, 16, 4096, 0x40000, 12345] {
        let stack = TaskStack::allocated(size, 0x8000_0000).unwrap();
        assert_eq!(stack.top() - stack.down(), size);
        assert_eq!(stack.down() % 16, 0);
        assert_eq!(stack.down(), 0x8000_0000);
        assert_eq!(stack.top(), 0x8000_0000 + size);
        assert_eq!(stack.size(), size);
        assert!(stack.is_owned());
    }
}

#[test]
fn layout_is_sixteen_byte_aligned() {
    assert_eq!(STACK_ALIGN, 16);
    assert_eq!(TaskStack::layout(4096), Some(StackLayout { size: 4096, align: 16 }));
    assert_eq!(TaskStack::layout(1), Some(StackLayout { size: 1, align: 16 }));
}

#[test]
fn layout_refuses_sizes_that_cannot_be_asked_for() {
    assert_eq!(TaskStack::layout(0), None);
    assert_eq!(TaskStack::layout(usize::MAX), None);
    let largest = isize::MAX as usize - 15;
    assert_eq!(TaskStack::layout(largest), Some(StackLayout { size: largest, align: 16 }));
    assert_eq!(TaskStack::layout(largest + 1), None);
}

#[test]
fn allocated_reports_each_fault() {
    assert_eq!(TaskStack::allocated(0, 0x1000).unwrap_err(), StackError::BadLayout);
    assert_eq!(TaskStack::allocated(usize::MAX, 0x1000).unwrap_err(), StackError::BadLayout);
    assert_eq!(TaskStack::allocated(4096, 0).unwrap_err(), StackError::OutOfMemory);
    assert_eq!(TaskStack::allocated(4096, 0x1008).unwrap_err(), StackError::Misaligned);
    assert_eq!(
        TaskStack::allocated(4096, usize::MAX - 15).unwrap_err(),
        StackError::OutOfRange
    );
}

#[test]
fn faults_are_looked_for_in_order() {
    assert_eq!(TaskStack::allocated(0, 0).unwrap_err(), StackError::BadLayout);
    assert_eq!(TaskStack::allocated(16, 0).unwrap_err(), StackError::OutOfMemory);
    assert_eq!(TaskStack::allocated(32, usize::MAX).unwrap_err(), StackError::Misaligned);
}

#[test]
fn stack_may_end_at_the_end_of_the_address_space() {
    let base = usize::MAX - 15;
    let stack = TaskStack::allocated(15, base).unwrap();
    assert_eq!(stack.top(), usize::MAX);
}

#[test]
fn release_gives_back_what_was_asked_for() {
    let layout = TaskStack::layout(0x4000).unwrap();
    let stack = TaskStack::allocated(layout.size, 0x9000_0000).unwrap();
    assert_eq!(stack.release(), Some((0x9000_0000, layout)));
}

#[test]
fn boot_stack_is_never_given_back() {
    let stack = TaskStack::new_init(0x8010_0000, 0x40000).unwrap();
    assert!(!stack.is_owned());
    assert_eq!(stack.down(), 0x8010_0000);
    assert_eq!(stack.top(), 0x8014_0000);
    assert_eq!(stack.release(), None);
}

#[test]
fn boot_stack_is_checked_like_any_other() {
    assert_eq!(TaskStack::new_init(0, 0x40000).unwrap_err(), StackError::OutOfMemory);
    assert_eq!(TaskStack::new_init(0x8010_0004, 0x40000).unwrap_err(), StackError::Misaligned);
    assert_eq!(TaskStack::new_init(0x8010_0000, 0).unwrap_err(), StackError::BadLayout);
}
