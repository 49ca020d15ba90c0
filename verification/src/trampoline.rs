//! The life of one task from the moment it is handed the application's entry
//! point to the moment it is gone, and the two execution contexts it moves
//! between.
//!
//! Nothing here jumps anywhere or touches a register. Each step says what the
//! caller has to do next: which context to install, what to call, which status
//! to end the task with.

use crate::registry::{Registry, Teardown};
use vstd::prelude::*;

verus! {

/// Where a task stands.
#[derive(Clone, Copy, Debug, PartialEq, Eq, Structural)]
pub enum Phase {
    /// The application's entry point has not been called.
    NotStarted,
    /// The application is running.
    AppRunning,
    /// The application's entry point has returned; the task is not torn down
    /// yet.
    Finalizing,
    /// The task has been torn down.
    Terminated,
}

/// The saved execution context of the kernel and that of the application.
/// The pair belongs to one task and is handed along with it, so that tasks do
/// not overwrite each other's contexts.
#[derive(Clone, Copy, Debug, PartialEq, Eq)]
pub struct ContextSlots {
    pub kernel: usize,
    pub app: usize,
}

impl ContextSlots {
    /// Crosses from the kernel into the application: keeps `current`, the
    /// context the kernel runs with, and gives the application's to install.
    pub fn enter_app(&mut self, current: usize) -> (install: usize)
        ensures
            install == old(self).app,
            *final(self) == (ContextSlots { kernel: current, app: old(self).app }),
    {
        self.kernel = current;
        self.app
    }

    /// Crosses from the application into the kernel: keeps `current`, the
    /// context the application runs with, and gives the kernel's to install.
    pub fn leave_app(&mut self, current: usize) -> (install: usize)
        ensures
            install == old(self).kernel,
            *final(self) == (ContextSlots { kernel: old(self).kernel, app: current }),
    {
        self.app = current;
        self.kernel
    }
}

/// What to do to start the application: install `context`, then call the code
/// at `entry` with `argc`, `argv` and `envp`.
#[derive(Clone, Copy, Debug, PartialEq, Eq)]
pub struct Launch {
    pub context: usize,
    pub entry: usize,
    pub argc: i32,
    pub argv: usize,
    pub envp: usize,
}

/// The environment handed to the application: none.
pub const NO_ENVIRONMENT: usize = 0;

/// What an explicit exit leaves to do: the teardown has happened and reported
/// `teardown`; the task is to be ended with `status` and does not return.
#[derive(Clone, Copy, Debug, PartialEq, Eq)]
pub struct Exit {
    pub teardown: Teardown,
    pub status: i32,
}

/// How long the calling task is to be suspended.
#[derive(Clone, Copy, Debug, PartialEq, Eq)]
pub struct Pause {
    pub secs: u64,
    pub nanos: u32,
}

/// One task of one process on its way through the application.
#[derive(Debug)]
pub struct Trampoline {
    phase: Phase,
    pid: u64,
    task_id: u64,
}

/// A trampoline as contracts see it.
pub struct TrampolineView {
    pub phase: Phase,
    pub pid: u64,
    pub task_id: u64,
}

impl View for Trampoline {
    type V = TrampolineView;

    closed spec fn view(&self) -> TrampolineView {
        TrampolineView { phase: self.phase, pid: self.pid, task_id: self.task_id }
    }
}

impl Trampoline {
    /// The trampoline of task `task_id` of process `pid`, not started.
    pub fn new(pid: u64, task_id: u64) -> (t: Trampoline)
        ensures
            t@ == (TrampolineView { phase: Phase::NotStarted, pid, task_id }),
    {
        Trampoline { phase: Phase::NotStarted, pid, task_id }
    }

    /// Where the task stands.
    pub fn phase(&self) -> (p: Phase)
        ensures
            p == self@.phase,
    {
        self.phase
    }

    /// The process of the task.
    pub fn pid(&self) -> (pid: u64)
        ensures
            pid == self@.pid,
    {
        self.pid
    }

    /// The id of the task.
    pub fn task_id(&self) -> (task_id: u64)
        ensures
            task_id == self@.task_id,
    {
        self.task_id
    }

    /// Starts the application. `current` is the context the kernel runs with;
    /// it is kept in `slots`, and the launch installs the application's.
    ///
    /// A task starts once: in any phase but the first nothing changes and
    /// there is nothing to launch.
    pub fn start_main(
        &mut self,
        slots: &mut ContextSlots,
        current: usize,
        entry: usize,
        argc: i32,
        argv: usize,
    ) -> (launch: Option<Launch>)
        ensures
            old(self)@.phase == Phase::NotStarted ==> {
                &&& launch == Some(
                    Launch {
                        context: old(slots).app,
                        entry,
                        argc,
                        argv,
                        envp: NO_ENVIRONMENT,
                    },
                )
                &&& final(self)@ == (TrampolineView {
                    phase: Phase::AppRunning,
                    pid: old(self)@.pid,
                    task_id: old(self)@.task_id,
                })
                &&& *final(slots) == (ContextSlots { kernel: current, app: old(slots).app })
            },
            old(self)@.phase != Phase::NotStarted ==> {
                &&& launch is None
                &&& final(self)@ == old(self)@
                &&& *final(slots) == *old(slots)
            },
    {
        match self.phase {
            Phase::NotStarted => {
                let context = slots.enter_app(current);
                self.phase = Phase::AppRunning;
                Some(Launch { context, entry, argc, argv, envp: NO_ENVIRONMENT })
            },
            _ => None,
        }
    }

    /// The hook that the application calls when it sets itself up. It changes
    /// nothing; it tells whether the application is running, as it should be
    /// when the hook is called.
    pub fn init(&self) -> (running: bool)
        ensures
            running == (self@.phase == Phase::AppRunning),
    {
        self.is_running()
    }

    /// The hook with which the application says hello. It changes nothing; it
    /// tells whether the application is running.
    pub fn hello(&self) -> (running: bool)
        ensures
            running == (self@.phase == Phase::AppRunning),
    {
        self.is_running()
    }

    fn is_running(&self) -> (running: bool)
        ensures
            running == (self@.phase == Phase::AppRunning),
    {
        match self.phase {
            Phase::AppRunning => true,
            _ => false,
        }
    }

    /// The application's entry point has returned. `current` is the context
    /// the application came back with; it is kept in `slots`, and the kernel's
    /// context comes back to be installed. What the entry point returned plays
    /// no part: the task goes on to be torn down whatever it was.
    pub fn main_returned(
        &mut self,
        slots: &mut ContextSlots,
        current: usize,
        _returned: i32,
    ) -> (install: Option<usize>)
        ensures
            old(self)@.phase == Phase::AppRunning ==> {
                &&& install == Some(old(slots).kernel)
                &&& final(self)@ == (TrampolineView {
                    phase: Phase::Finalizing,
                    pid: old(self)@.pid,
                    task_id: old(self)@.task_id,
                })
                &&& *final(slots) == (ContextSlots { kernel: old(slots).kernel, app: current })
            },
            old(self)@.phase != Phase::AppRunning ==> {
                &&& install is None
                &&& final(self)@ == old(self)@
                &&& *final(slots) == *old(slots)
            },
    {
        match self.phase {
            Phase::AppRunning => {
                let install = slots.leave_app(current);
                self.phase = Phase::Finalizing;
                Some(install)
            },
            _ => None,
        }
    }

    /// Tears the task down: takes it out of `registry` and marks it
    /// terminated. On a task that is terminated already this does nothing and
    /// reports that nothing was there to remove.
    pub fn fini(&mut self, registry: &mut Registry) -> (out: Teardown)
        requires
            old(registry)@.wf(),
        ensures
            final(registry)@.wf(),
            final(self)@ == (TrampolineView {
                phase: Phase::Terminated,
                pid: old(self)@.pid,
                task_id: old(self)@.task_id,
            }),
            old(self)@.phase == Phase::Terminated ==> {
                &&& out == Teardown::Missing
                &&& final(registry)@ == old(registry)@
            },
            old(self)@.phase != Phase::Terminated ==> {
                &&& out == old(registry)@.exit_outcome(old(self)@.pid, old(self)@.task_id)
                &&& final(registry)@ == old(registry)@.after_exit(
                    old(self)@.pid,
                    old(self)@.task_id,
                )
            },
            old(registry)@.tasks_registered() && old(registry)@.owned_or_unknown(
                old(self)@.pid,
                old(self)@.task_id,
            ) ==> final(registry)@.tasks_registered(),
    {
        match self.phase {
            Phase::Terminated => Teardown::Missing,
            _ => {
                self.phase = Phase::Finalizing;
                let out = registry.teardown(self.pid, self.task_id);
                self.phase = Phase::Terminated;
                out
            },
        }
    }

    /// The application asks to exit with `code`: the task is torn down as by
    /// [`Self::fini`] and is then to be ended with `code`.
    pub fn exit(&mut self, registry: &mut Registry, code: i32) -> (out: Exit)
        requires
            old(registry)@.wf(),
        ensures
            final(registry)@.wf(),
            out.status == code,
            final(self)@ == (TrampolineView {
                phase: Phase::Terminated,
                pid: old(self)@.pid,
                task_id: old(self)@.task_id,
            }),
            old(self)@.phase == Phase::Terminated ==> {
                &&& out.teardown == Teardown::Missing
                &&& final(registry)@ == old(registry)@
            },
            old(self)@.phase != Phase::Terminated ==> {
                &&& out.teardown == old(registry)@.exit_outcome(
                    old(self)@.pid,
                    old(self)@.task_id,
                )
                &&& final(registry)@ == old(registry)@.after_exit(
                    old(self)@.pid,
                    old(self)@.task_id,
                )
            },
    {
        let teardown = self.fini(registry);
        Exit { teardown, status: code }
    }
}

/// `sleep`: the pause that suspends the calling task, and only it, for
/// `seconds` whole seconds.
pub fn sleep(seconds: u32) -> (pause: Pause)
    ensures
        pause == (Pause { secs: seconds as u64, nanos: 0 }),
{
    Pause { secs: seconds as u64, nanos: 0 }
}

} // verus!
