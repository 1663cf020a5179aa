//! The terminal lifecycle guard: what is asked of the terminal device when
//! the editor starts, when the program ends abnormally, and when the editor
//! is disposed of.

use vstd::prelude::*;
use crate::editor::Editor;

verus! {

/// One request of the lifecycle guard.
#[derive(Clone, Copy, Debug, PartialEq, Eq, Structural)]
pub enum LifecycleStep {
    /// Put the guard's interceptor in front of the one installed so far.
    InstallInterceptor,
    /// Put the terminal device into raw mode.
    EnterRawMode,
    /// Bring the terminal device back to cooked mode, as far as that works.
    /// A failure to do so is dropped.
    RestoreTerminal,
    /// Hand the report of the abnormal termination to the interceptor that
    /// was installed before the guard's.
    CallPreviousInterceptor,
    /// Write the farewell message.
    PrintFarewell,
}

/// At startup the interceptor is installed before the terminal leaves cooked
/// mode, so that no failure finds the terminal raw and unguarded.
pub open spec fn startup_plan() -> Seq<LifecycleStep> {
    seq![LifecycleStep::InstallInterceptor, LifecycleStep::EnterRawMode]
}

/// On abnormal termination the terminal is restored before the report goes
/// on to the interceptor installed earlier.
pub open spec fn interception_plan() -> Seq<LifecycleStep> {
    seq![LifecycleStep::RestoreTerminal, LifecycleStep::CallPreviousInterceptor]
}

/// At disposal the terminal is restored in every case, and the farewell
/// follows only where a request to quit was noted.
pub open spec fn disposal_plan(should_quit: bool) -> Seq<LifecycleStep> {
    if should_quit {
        seq![LifecycleStep::RestoreTerminal, LifecycleStep::PrintFarewell]
    } else {
        seq![LifecycleStep::RestoreTerminal]
    }
}

/// The path of the document to open, among the program's arguments: the
/// first one after the program's name.
pub open spec fn document_path(args: Seq<String>) -> Option<String> {
    if args.len() > 1 {
        Some(args[1])
    } else {
        None
    }
}

/// What the guard asks for when the editor starts.
pub fn startup() -> (plan: Vec<LifecycleStep>)
    ensures
        plan@ == startup_plan(),
{
    let mut plan: Vec<LifecycleStep> = Vec::new();
    plan.push(LifecycleStep::InstallInterceptor);
    plan.push(LifecycleStep::EnterRawMode);
    assert(plan@ =~= startup_plan());
    plan
}

/// What the guard's interceptor asks for when the program ends abnormally.
pub fn intercept() -> (plan: Vec<LifecycleStep>)
    ensures
        plan@ == interception_plan(),
{
    let mut plan: Vec<LifecycleStep> = Vec::new();
    plan.push(LifecycleStep::RestoreTerminal);
    plan.push(LifecycleStep::CallPreviousInterceptor);
    assert(plan@ =~= interception_plan());
    plan
}

/// The farewell message.
pub fn farewell() -> (text: &'static str)
    ensures
        text@ == "Goodbye.\r\n"@,
{
    "Goodbye.\r\n"
}

/// Picks the document to open from the program's arguments.
pub fn document_argument(args: &Vec<String>) -> (path: Option<&String>)
    ensures
        path is Some <==> document_path(args@) is Some,
        path matches Some(found) ==> Some(*found) == document_path(args@),
{
    if args.len() > 1 {
        Some(&args[1])
    } else {
        None
    }
}

impl Editor {
    /// What the guard asks for when the editor is disposed of, on whatever
    /// path that happens.
    pub fn dispose(&self) -> (plan: Vec<LifecycleStep>)
        ensures
            plan@ == disposal_plan(self@.should_quit),
    {
        let mut plan: Vec<LifecycleStep> = Vec::new();
        plan.push(LifecycleStep::RestoreTerminal);
        if self.should_quit() {
            plan.push(LifecycleStep::PrintFarewell);
        }
        assert(plan@ =~= disposal_plan(self@.should_quit));
        plan
    }
}

} // verus!
