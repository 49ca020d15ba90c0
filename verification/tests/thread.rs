use app_runtime::thread::{
    pthread_create, pthread_exit, pthread_join, pthread_self, relocate, ThreadCall,
};

#[test]
fn pthread_create_relocates_the_start_routine() {
    let call = pthread_create(0x10, 0x20, 0x1234, 0x30, 0x8020_0000);
    assert_eq!(
        call,
        Some(ThreadCall::Create {
            handle_out: 0x10,
            attr: 0x20,
            start_routine: 0x8020_1234,
            arg: 0x30
        })
    );
}

#[test]
fn pthread_create_never_passes_the_raw_address() {
    for base in [1usize, 0x1000, 0x8020_0000] {
        match pthread_create(0, 0, 0x400, 0, base) {
            Some(ThreadCall::Create { start_routine, .. }) => {
                assert_eq!(start_routine, 0x400 + base);
                assert_ne!(start_routine, 0x400);
            }
            _ => panic!("no call"),
        }
    }
}

#[test]
fn pthread_create_with_image_at_zero_keeps_the_address() {
    assert_eq!(
        pthread_create(1, 2, 0x400, 3, 0),
        Some(ThreadCall::Create { handle_out: 1, attr: 2, start_routine: 0x400, arg: 3 })
    );
}

#[test]
fn pthread_create_beyond_the_address_space_makes_no_call() {
    assert_eq!(pthread_create(0, 0, usize::MAX, 0, 1), None);
    assert_eq!(pthread_create(0, 0, 2, 0, usize::MAX - 1), None);
    assert!(pthread_create(0, 0, 1, 0, usize::MAX - 1).is_some());
}

#[test]
fn relocate_adds_the_load_base() {
    assert_eq!(relocate(0x1000, 0x2000), Some(0x3000));
    assert_eq!(relocate(0, 0), Some(0));
    assert_eq!(relocate(usize::MAX, 0), Some(usize::MAX));
    assert_eq!(relocate(usize::MAX, 1), None);
}

#[test]
fn other_thread_calls_hand_their_arguments_on() {
    assert_eq!(pthread_join(7, 0x100), ThreadCall::Join { thread: 7, retval_out: 0x100 });
    assert_eq!(pthread_exit(0x55), ThreadCall::Exit { retval: 0x55 });
    assert_eq!(pthread_self(), ThreadCall::Current);
}
