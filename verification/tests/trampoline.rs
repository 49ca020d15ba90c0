use app_runtime::registry::{Registry, Teardown};
use app_runtime::trampoline::{
    sleep, ContextSlots, Exit, Launch, Pause, Phase, Trampoline, NO_ENVIRONMENT,
};

fn registry_with(pid: u64, tasks: &[u64]) -> Registry {
    let mut r = Registry::new();
    assert!(r.insert_process(pid, 0, 0xa5));
    for t in tasks {
        assert!(r.insert_task(pid, *t));
    }
    r
}

#[test]
fn new_trampoline_is_not_started() {
    let t = Trampoline::new(3, 30);
    assert_eq!(t.phase(), Phase::NotStarted);
    assert_eq!(t.pid(), 3);
    assert_eq!(t.task_id(), 30);
}

#[test]
fn start_main_swaps_contexts_and_launches_with_empty_environment() {
    let mut t = Trampoline::new(1, 10);
    let mut slots = ContextSlots { kernel: 0, app: 0xa000 };
    let launch = t.start_main(&mut slots, 0xf000, 0x8020_0100, 2, 0x7000);
    assert_eq!(
        launch,
        Some(Launch { context: 0xa000, entry: 0x8020_0100, argc: 2, argv: 0x7000, envp: 0 })
    );
    assert_eq!(NO_ENVIRONMENT, 0);
    assert_eq!(slots, ContextSlots { kernel: 0xf000, app: 0xa000 });
    assert_eq!(t.phase(), Phase::AppRunning);
}

#[test]
fn start_main_works_once() {
    let mut t = Trampoline::new(1, 10);
    let mut slots = ContextSlots { kernel: 0, app: 0xa000 };
    assert!(t.start_main(&mut slots, 0xf000, 0x100, 0, 0).is_some());
    assert_eq!(t.start_main(&mut slots, 0xeeee, 0x200, 1, 1), None);
    assert_eq!(slots, ContextSlots { kernel: 0xf000, app: 0xa000 });
    assert_eq!(t.phase(), Phase::AppRunning);
}

#[test]
fn hooks_change_nothing() {
    let mut t = Trampoline::new(1, 10);
    assert!(!t.init());
    assert!(!t.hello());
    let mut slots = ContextSlots { kernel: 0, app: 1 };
    t.start_main(&mut slots, 2, 3, 0, 0);
    assert!(t.init());
    assert!(t.hello());
    assert_eq!(t.phase(), Phase::AppRunning);
}

#[test]
fn main_returned_goes_to_finalizing_whatever_was_returned() {
    for returned in [0, 1, -7] {
        let mut t = Trampoline::new(1, 10);
        let mut slots = ContextSlots { kernel: 0, app: 0xa000 };
        t.start_main(&mut slots, 0xf000, 0x100, 0, 0);
        assert_eq!(t.main_returned(&mut slots, 0xa111, returned), Some(0xf000));
        assert_eq!(slots, ContextSlots { kernel: 0xf000, app: 0xa111 });
        assert_eq!(t.phase(), Phase::Finalizing);
    }
}

#[test]
fn main_returned_needs_a_running_application() {
    let mut t = Trampoline::new(1, 10);
    let mut slots = ContextSlots { kernel: 5, app: 6 };
    assert_eq!(t.main_returned(&mut slots, 7, 0), None);
    assert_eq!(slots, ContextSlots { kernel: 5, app: 6 });
    assert_eq!(t.phase(), Phase::NotStarted);
}

#[test]
fn fini_tears_the_task_down() {
    let mut r = registry_with(1, &[10, 11]);
    let mut t = Trampoline::new(1, 11);
    let mut slots = ContextSlots { kernel: 0, app: 0 };
    t.start_main(&mut slots, 0, 0, 0, 0);
    t.main_returned(&mut slots, 0, 0);
    assert_eq!(t.fini(&mut r), Teardown::TaskExited);
    assert_eq!(t.phase(), Phase::Terminated);
    assert!(r.lookup_task(11).is_none());
    assert_eq!(r.lookup_process(1).unwrap().tasks, vec![10]);
}

#[test]
fn fini_twice_is_a_no_op_the_second_time() {
    let mut r = registry_with(1, &[10]);
    let mut t = Trampoline::new(1, 10);
    let mut slots = ContextSlots { kernel: 0, app: 0 };
    t.start_main(&mut slots, 0, 0, 0, 0);
    assert_eq!(t.fini(&mut r), Teardown::ProcessExited { memory_set: 0xa5, remaining: 0 });
    assert!(r.insert_process(1, 0, 0x77));
    assert!(r.insert_task(1, 10));
    assert_eq!(t.fini(&mut r), Teardown::Missing);
    assert_eq!(t.phase(), Phase::Terminated);
    assert_eq!(r.process_count(), 1);
    assert_eq!(r.lookup_process(1).unwrap().tasks, vec![10]);
}

#[test]
fn exit_tears_down_and_hands_the_status_on() {
    let mut r = registry_with(1, &[10]);
    let mut t = Trampoline::new(1, 10);
    let mut slots = ContextSlots { kernel: 0, app: 0 };
    t.start_main(&mut slots, 0, 0, 0, 0);
    assert_eq!(
        t.exit(&mut r, 42),
        Exit { teardown: Teardown::ProcessExited { memory_set: 0xa5, remaining: 0 }, status: 42 }
    );
    assert_eq!(t.phase(), Phase::Terminated);
    assert_eq!(t.exit(&mut r, -1), Exit { teardown: Teardown::Missing, status: -1 });
}

#[test]
fn exit_after_main_returned_and_fini_finds_nothing_left() {
    let mut r = registry_with(1, &[10, 11]);
    let mut t = Trampoline::new(1, 10);
    let mut slots = ContextSlots { kernel: 0, app: 0 };
    t.start_main(&mut slots, 0, 0, 0, 0);
    t.main_returned(&mut slots, 0, 3);
    assert_eq!(t.fini(&mut r), Teardown::TaskExited);
    assert_eq!(t.exit(&mut r, 0).teardown, Teardown::Missing);
    assert_eq!(r.lookup_process(1).unwrap().tasks, vec![11]);
}

#[test]
fn context_slots_round_trip() {
    let mut slots = ContextSlots { kernel: 0, app: 0xa };
    assert_eq!(slots.enter_app(0xf), 0xa);
    assert_eq!(slots.leave_app(0xb), 0xf);
    assert_eq!(slots, ContextSlots { kernel: 0xf, app: 0xb });
}

#[test]
fn sleep_is_whole_seconds() {
    assert_eq!(sleep(3), Pause { secs: 3, nanos: 0 });
    assert_eq!(sleep(0), Pause { secs: 0, nanos: 0 });
    assert_eq!(sleep(u32::MAX), Pause { secs: 4294967295, nanos: 0 });
}
