//! Waiting until a process that was launched suspended can be written to.
use crate::util::error::QuickResumeError;
use crate::util::text::{eq_ignore_ascii_case, same_name};
use vstd::prelude::*;

verus! {

/// How often the loader is looked at before the wait is given up.
pub const LOADER_ATTEMPTS: u32 = 60;

/// How long the main thread runs before each look, in milliseconds.
pub const LOADER_PAUSE_MS: u64 = 100;

/// A module of this name is loaded, whatever the case of its letters.
pub open spec fn is_loaded(modules: Seq<String>, name: Seq<char>) -> bool {
    exists|i: int| 0 <= i < modules.len() && same_name((#[trigger] modules[i])@, name)
}

/// The modules that every process needs before its memory can be written are
/// loaded: those of a 64-bit process, or those of the layer under a 32-bit one.
pub open spec fn is_loader_ready(modules: Seq<String>) -> bool {
    is_loaded(modules, "ntdll.dll"@) && (is_loaded(modules, "kernel32.dll"@) || is_loaded(
        modules,
        "wow64cpu.dll"@,
    ))
}

/// Whether a module of this name is loaded.
fn has_module(modules: &[String], name: &str) -> (r: bool)
    ensures
        r == is_loaded(modules@, name@),
{
    for i in 0..modules.len()
        invariant
            forall|j: int| 0 <= j < i ==> !same_name((#[trigger] modules@[j])@, name@),
    {
        if eq_ignore_ascii_case(modules[i].as_str(), name) {
            return true;
        }
    }
    false
}

/// Whether the loader has come far enough, going by the names of the loaded
/// modules.
pub fn loader_ready(modules: &[String]) -> (r: bool)
    ensures
        r == is_loader_ready(modules@),
{
    has_module(modules, "ntdll.dll") && (has_module(modules, "kernel32.dll") || has_module(
        modules,
        "wow64cpu.dll",
    ))
}

/// A step of the wait for the loader.
#[derive(Debug, PartialEq, Eq, Clone, Copy, Structural)]
pub enum LoaderAction {
    ResumeThread,
    Sleep { millis: u64 },
    SuspendThread,
    /// List the loaded modules.
    ListModules,
}

/// A wait for the loader: the main thread is let run for a moment and suspended
/// again, and then the loaded modules are looked at. `failed` looks have found
/// the loader not ready.
#[derive(Debug, PartialEq, Eq, Clone, Copy, Structural)]
pub enum LoaderWait {
    Resume { failed: u32 },
    Sleep { failed: u32 },
    Suspend { failed: u32 },
    Look { failed: u32 },
    /// The loader was found ready at this look, counting from 1.
    Ready { attempt: u32 },
    GivenUp,
}

impl LoaderWait {
    /// The wait has not gone past its last look.
    pub open spec fn wf(self) -> bool {
        match self {
            LoaderWait::Resume { failed }
            | LoaderWait::Sleep { failed }
            | LoaderWait::Suspend { failed }
            | LoaderWait::Look { failed } => failed < LOADER_ATTEMPTS,
            LoaderWait::Ready { attempt } => 1 <= attempt <= LOADER_ATTEMPTS,
            LoaderWait::GivenUp => true,
        }
    }

    /// The step that is due, or none once the wait is over.
    pub open spec fn due(self) -> Option<LoaderAction> {
        match self {
            LoaderWait::Resume { .. } => Some(LoaderAction::ResumeThread),
            LoaderWait::Sleep { .. } => Some(LoaderAction::Sleep { millis: LOADER_PAUSE_MS }),
            LoaderWait::Suspend { .. } => Some(LoaderAction::SuspendThread),
            LoaderWait::Look { .. } => Some(LoaderAction::ListModules),
            _ => None,
        }
    }

    /// The wait after the step that is due; `modules` are those that a look
    /// finds loaded.
    pub open spec fn after(self, modules: Seq<String>) -> LoaderWait {
        match self {
            LoaderWait::Resume { failed } => LoaderWait::Sleep { failed },
            LoaderWait::Sleep { failed } => LoaderWait::Suspend { failed },
            LoaderWait::Suspend { failed } => LoaderWait::Look { failed },
            LoaderWait::Look { failed } => if is_loader_ready(modules) {
                LoaderWait::Ready { attempt: (failed + 1) as u32 }
            } else if failed + 1 == LOADER_ATTEMPTS {
                LoaderWait::GivenUp
            } else {
                LoaderWait::Resume { failed: (failed + 1) as u32 }
            },
            _ => self,
        }
    }

    /// The main thread has been resumed and not suspended again.
    pub open spec fn runs(self) -> bool {
        self is Sleep || self is Suspend
    }

    /// A wait before its first step.
    pub fn start() -> (w: LoaderWait)
        ensures
            w.wf(),
            w == (LoaderWait::Resume { failed: 0 }),
    {
        LoaderWait::Resume { failed: 0 }
    }

    /// The step that is due, or `None` once the wait is over.
    pub fn action(&self) -> (a: Option<LoaderAction>)
        ensures
            a == self.due(),
    {
        match *self {
            LoaderWait::Resume { .. } => Some(LoaderAction::ResumeThread),
            LoaderWait::Sleep { .. } => Some(LoaderAction::Sleep { millis: LOADER_PAUSE_MS }),
            LoaderWait::Suspend { .. } => Some(LoaderAction::SuspendThread),
            LoaderWait::Look { .. } => Some(LoaderAction::ListModules),
            _ => None,
        }
    }

    /// Goes on after the step that was due. After a look, `modules` are the
    /// names of the modules found; after another step they do not matter.
    pub fn step(self, modules: &[String]) -> (next: LoaderWait)
        requires
            self.wf(),
        ensures
            next.wf(),
            next == self.after(modules@),
    {
        match self {
            LoaderWait::Resume { failed } => LoaderWait::Sleep { failed },
            LoaderWait::Sleep { failed } => LoaderWait::Suspend { failed },
            LoaderWait::Suspend { failed } => LoaderWait::Look { failed },
            LoaderWait::Look { failed } => if loader_ready(modules) {
                LoaderWait::Ready { attempt: failed + 1 }
            } else if failed + 1 == LOADER_ATTEMPTS {
                LoaderWait::GivenUp
            } else {
                LoaderWait::Resume { failed: failed + 1 }
            },
            _ => self,
        }
    }

    /// The result of the wait once it is over: the number of looks it took.
    pub fn result(&self) -> (r: Option<Result<u32, QuickResumeError>>)
        ensures
            match *self {
                LoaderWait::Ready { attempt } => r == Some(Ok::<u32, QuickResumeError>(attempt)),
                LoaderWait::GivenUp => r matches Some(Err(e)) && e.is_other(
                    "Loader did not map system DLLs within 6 seconds"@,
                ),
                _ => r is None,
            },
    {
        match *self {
            LoaderWait::Ready { attempt } => Some(Ok(attempt)),
            LoaderWait::GivenUp => Some(
                Err(
                    QuickResumeError::Other(
                        "Loader did not map system DLLs within 6 seconds".to_string(),
                    ),
                ),
            ),
            _ => None,
        }
    }
}

/// The main thread is suspended at the start, whenever the modules are looked
/// at and when the wait is over: it runs only from a resume to the suspend that
/// follows it.
pub proof fn thread_runs_only_until_suspended(wait: LoaderWait, modules: Seq<String>)
    ensures
        !(LoaderWait::Resume { failed: 0 }).runs(),
        wait.due() matches Some(LoaderAction::ResumeThread) ==> !wait.runs() && wait.after(
            modules,
        ).runs(),
        wait.due() matches Some(LoaderAction::Sleep { .. }) ==> wait.runs() && wait.after(
            modules,
        ).due() == Some(LoaderAction::SuspendThread),
        wait.due() matches Some(LoaderAction::SuspendThread) ==> !wait.after(modules).runs(),
        wait.due() matches Some(LoaderAction::ListModules) ==> !wait.runs(),
        wait.due() is None ==> !wait.runs(),
{
}

/// The wait after these looks, each with the steps that lead to it.
pub open spec fn wait_of(looks: Seq<Seq<String>>) -> LoaderWait
    decreases looks.len(),
{
    if looks.len() == 0 {
        LoaderWait::Resume { failed: 0 }
    } else {
        let modules = looks.last();
        wait_of(looks.drop_last()).after(modules).after(modules).after(modules).after(modules)
    }
}

/// The wait ends with the first look that finds the loader ready, and is given
/// up after the last look if none does.
pub proof fn wait_ends_with_the_first_ready_look(looks: Seq<Seq<String>>, ready: int)
    requires
        looks.len() <= LOADER_ATTEMPTS,
        0 <= ready <= looks.len(),
        forall|i: int| 0 <= i < ready ==> !is_loader_ready(#[trigger] looks[i]),
        ready < looks.len() ==> is_loader_ready(looks[ready]),
    ensures
        wait_of(looks) == if ready < looks.len() {
            LoaderWait::Ready { attempt: (ready + 1) as u32 }
        } else if looks.len() == LOADER_ATTEMPTS {
            LoaderWait::GivenUp
        } else {
            LoaderWait::Resume { failed: looks.len() as u32 }
        },
    decreases looks.len(),
{
    if looks.len() > 0 {
        let before = looks.drop_last();
        if ready < looks.len() - 1 {
            assert(before[ready] == looks[ready]);
            assert forall|i: int| 0 <= i < ready implies !is_loader_ready(#[trigger] before[i]) by {
                assert(before[i] == looks[i]);
            }
            wait_ends_with_the_first_ready_look(before, ready);
        } else {
            assert forall|i: int| 0 <= i < before.len() implies !is_loader_ready(
                #[trigger] before[i],
            ) by {
                assert(before[i] == looks[i]);
            }
            wait_ends_with_the_first_ready_look(before, before.len() as int);
        }
    }
}

/// Judges the answer to the call that resumes the main thread: the thread's
/// previous suspend count, or all bits set where the call failed.
pub fn resume_main_thread(previous_count: u32) -> (r: Result<(), QuickResumeError>)
    ensures
        previous_count != u32::MAX ==> r is Ok,
        previous_count == u32::MAX ==> (r matches Err(e) && e.is_other("ResumeThread failed"@)),
{
    if previous_count == u32::MAX {
        return Err(QuickResumeError::Other("ResumeThread failed".to_string()));
    }
    Ok(())
}

} // verus!
