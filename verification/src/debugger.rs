//! The debug session: cross-run state and command handling.
//!
//! The session owns the ordered list of breakpoint requests (persistent
//! across runs and append-only), the symbol resolver handle, and an
//! exclusive, option-typed slot for the one live controller.  A fresh `run`
//! always terminates and drops the previous controller before a new one is
//! attached, so no two controllers are ever live at once; a `continue` or
//! `backtrace` with no live controller reports so and touches nothing.

use vstd::prelude::*;

use crate::command::{address_literal, line_number_literal, parse_address, parse_line_number};
use crate::error::DebugError;
use crate::inferior::{
    lemma_same_patches_same_addrs, lemma_table_extension_keeps_breakpoints, Inferior, Status,
    MAX_FRAMES,
};
use crate::patch::TRAP_WIDTH;
use crate::resolver::{
    function_addr_of, function_name_at, line_addr_of, line_entry_at, FunctionEntry, LineEntry,
    Resolver,
};
use crate::stack::{frame_resolved, Frame};

verus! {

/// Where a location specifier resolves.  Resolution order, first match
/// wins: an address literal never consults the tables; otherwise the first
/// function of that name; otherwise the line table, looked up at the
/// decimal line number the argument denotes (an argument that is no line
/// number looks up line 0).
pub open spec fn resolve_location_spec(
    functions: Seq<FunctionEntry>,
    lines: Seq<LineEntry>,
    arg: Seq<char>,
) -> Option<u64> {
    if address_literal(arg) is Some {
        address_literal(arg)
    } else if function_addr_of(functions, arg) is Some {
        function_addr_of(functions, arg)
    } else {
        let number = match line_number_literal(arg) {
            Some(n) => n,
            None => 0,
        };
        line_addr_of(lines, number)
    }
}

/// Resolution order of location specifiers.  An address literal resolves
/// to its own address whatever the symbol tables hold, without consulting
/// them; only an argument that is no literal is looked up as a function
/// name; only one that names no function is looked up in the line table.
pub proof fn lemma_resolution_order(
    functions: Seq<FunctionEntry>,
    lines: Seq<LineEntry>,
    arg: Seq<char>,
)
    ensures
        address_literal(arg) matches Some(a) ==> resolve_location_spec(functions, lines, arg)
            == Some(a),
        address_literal(arg) is None ==> (function_addr_of(functions, arg) matches Some(a)
            ==> resolve_location_spec(functions, lines, arg) == Some(a)),
        (address_literal(arg) is None && function_addr_of(functions, arg) is None)
            ==> resolve_location_spec(functions, lines, arg) == line_addr_of(
            lines,
            match line_number_literal(arg) {
                Some(n) => n,
                None => 0,
            },
        ),
{
}

/// What the `breakpoint` command did.
pub enum BreakpointOutcome {
    /// The specifier resolved: the request was appended at position `index`
    /// of the persistent list and, with a live target, is installed.
    SetAt { index: usize, addr: u64 },
    /// The specifier resolved nowhere: reported, no state change.
    InvalidArgument,
    /// The specifier resolved but patching the live target failed; the
    /// request is kept for future runs.
    InstallFailed(DebugError),
}

/// What `continue` (or the resume at the end of `run`) observed.
pub enum ContinueOutcome {
    /// There is no live target.
    NoInferior,
    /// The target stopped; the halting source location and enclosing
    /// function, rendered through the resolver.
    Stopped { signal: i32, pc: u64, function: String, file: String, line: u64 },
    /// The target stopped at an address the resolver knows nothing about.
    StoppedUnresolved { signal: i32, pc: u64 },
    /// The target exited normally; the controller was dropped.
    Exited(i32),
    /// The target was killed by a signal; the controller was dropped.
    Signaled(i32),
    /// The resume failed; the controller is kept as it was.
    Failed(DebugError),
}

/// What `backtrace` observed.
pub enum BacktraceOutcome {
    /// There is no live target.
    NoInferior,
    /// The rendered call stack, innermost frame first.
    Frames(Vec<Frame>),
    /// The walk failed.
    Failed(DebugError),
}

/// What the second half of `run` did.
pub enum RunOutcome {
    /// No controller was created: the first stop of the spawned process was
    /// not the trap signal.
    UnableToStart,
    /// A persistent breakpoint could not be installed into the new target.
    InstallFailed(DebugError),
    /// The new target was resumed; holds what the resume observed.
    Resumed(ContinueOutcome),
}

/// Process-wide debugger state, for the life of the debugger run.
pub struct Debugger {
    breakpoints: Vec<u64>,
    debug_data: Resolver,
    target: String,
    inferior: Option<Inferior>,
}

impl Debugger {
    /// The persistent breakpoint request list: the resolved addresses to
    /// (re)install on every new run, in the order they were requested.
    pub closed spec fn requests(&self) -> Seq<u64> {
        self.breakpoints@
    }

    /// The function table of the symbol resolver.
    pub closed spec fn functions(&self) -> Seq<FunctionEntry> {
        self.debug_data.functions()
    }

    /// The line table of the symbol resolver.
    pub closed spec fn lines(&self) -> Seq<LineEntry> {
        self.debug_data.lines()
    }

    /// The path of the target executable.
    pub closed spec fn target_name(&self) -> Seq<char> {
        self.target@
    }

    /// The exclusive controller slot: `Some` only while a target runs.
    pub closed spec fn controller(&self) -> Option<Inferior> {
        self.inferior
    }

    /// The session invariant: a live controller's table never holds one
    /// address twice.
    pub open spec fn wf(&self) -> bool {
        self.controller() matches Some(inf) ==> inf.wf()
    }

    /// Every breakpoint of a live controller is armed, as at any quiescent
    /// stop.
    pub open spec fn armed(&self) -> bool {
        self.controller() matches Some(inf) ==> inf.all_armed()
    }

    /// A fresh session: no requests, no live target.
    pub fn new(target: &str, debug_data: Resolver) -> (r: Debugger)
        ensures
            r.requests() =~= Seq::<u64>::empty(),
            r.controller() is None,
            r.functions() == debug_data.functions(),
            r.lines() == debug_data.lines(),
            r.target_name() == target@,
            r.wf(),
            r.armed(),
    {
        Debugger {
            breakpoints: Vec::new(),
            debug_data,
            target: target.to_owned(),
            inferior: None,
        }
    }

    /// The path of the target executable.
    pub fn target(&self) -> (r: &str)
        ensures
            r@ == self.target_name(),
    {
        self.target.as_str()
    }

    /// Whether a target is currently running.
    pub fn has_target(&self) -> (r: bool)
        ensures
            r == (self.controller() is Some),
    {
        self.inferior.is_some()
    }

    /// The process id of the live target, if one runs.
    pub fn target_pid(&self) -> (r: Option<i32>)
        ensures
            match self.controller() {
                Some(inf) => r == Some(inf.pid_spec()),
                None => r is None,
            },
    {
        match &self.inferior {
            Some(inf) => Some(inf.pid()),
            None => None,
        }
    }

    /// Resolves a location specifier in the fixed order: address literal,
    /// then function name, then source line.
    pub fn resolve_location(&self, arg: &str) -> (r: Option<u64>)
        ensures
            r == resolve_location_spec(self.functions(), self.lines(), arg@),
    {
        let mut addr = parse_address(arg);
        if addr.is_none() {
            addr = self.debug_data.get_addr_for_function(arg);
        }
        if addr.is_none() {
            let number = match parse_line_number(arg) {
                Some(n) => n,
                None => 0,
            };
            addr = self.debug_data.get_addr_for_line(number);
        }
        addr
    }

    /// The `breakpoint` command: resolve the specifier; on success append
    /// the address to the persistent request list and, if a target runs and
    /// does not hold that address yet, install it immediately.  An
    /// unresolvable specifier changes nothing.
    pub fn breakpoint(&mut self, arg: &str) -> (r: BreakpointOutcome)
        requires
            old(self).wf(),
        ensures
            final(self).wf(),
            old(self).armed() ==> final(self).armed(),
            final(self).functions() == old(self).functions(),
            final(self).lines() == old(self).lines(),
            final(self).target_name() == old(self).target_name(),
            final(self).controller() is Some <==> old(self).controller() is Some,
            match resolve_location_spec(old(self).functions(), old(self).lines(), arg@) {
                None => r is InvalidArgument && final(self).requests() == old(self).requests()
                    && final(self).controller() == old(self).controller(),
                Some(addr) => {
                    &&& r !is InvalidArgument
                    &&& final(self).requests() == old(self).requests().push(addr)
                    &&& (r matches BreakpointOutcome::SetAt { index, addr: a } ==> index == old(self).requests().len() && a == addr)
                    &&& (old(self).controller() is None ==> r matches BreakpointOutcome::SetAt {
                        ..
                    })
                    &&& (r matches BreakpointOutcome::SetAt { .. } ==> (final(self).controller() matches Some(inf) ==> inf.has_breakpoint(addr)))
                    &&& (r matches BreakpointOutcome::InstallFailed(_) ==> (final(self).controller() matches Some(inf) && old(self).controller() matches Some(pre)
                        && inf.table() == pre.table()))
                },
            },
    {
        let resolved = self.resolve_location(arg);
        match resolved {
            None => BreakpointOutcome::InvalidArgument,
            Some(addr) => {
                let index = self.breakpoints.len();
                self.breakpoints.push(addr);
                match self.inferior.take() {
                    None => BreakpointOutcome::SetAt { index, addr },
                    Some(mut inf) => {
                        if inf.contains_breakpoint(addr) {
                            self.inferior = Some(inf);
                            BreakpointOutcome::SetAt { index, addr }
                        } else {
                            match inf.set_breakpoint(addr) {
                                Ok(()) => {
                                    self.inferior = Some(inf);
                                    BreakpointOutcome::SetAt { index, addr }
                                },
                                Err(e) => {
                                    self.inferior = Some(inf);
                                    BreakpointOutcome::InstallFailed(e)
                                },
                            }
                        }
                    },
                }
            },
        }
    }

    /// The `continue` command: with no live target, report and change
    /// nothing.  Otherwise resume the target; a terminal stop event drops
    /// the controller, a plain stop renders the halting location through
    /// the resolver, and a failed resume keeps the controller with all its
    /// patches (addresses and saved original bytes).  Full state equality on
    /// failure would be false: a failure inside the restore-step-reinstall
    /// window leaves that one entry disarmed.
    pub fn inferior_continue_exec(&mut self) -> (r: ContinueOutcome)
        requires
            old(self).wf(),
        ensures
            final(self).wf(),
            final(self).requests() == old(self).requests(),
            final(self).functions() == old(self).functions(),
            final(self).lines() == old(self).lines(),
            final(self).target_name() == old(self).target_name(),
            r is NoInferior <==> old(self).controller() is None,
            old(self).controller() is None ==> final(self).controller() == old(self).controller(),
            (r is Exited || r is Signaled) ==> final(self).controller() is None,
            (r matches ContinueOutcome::Stopped { .. } || r matches
                ContinueOutcome::StoppedUnresolved { .. } || r is Failed) ==> final(self).controller() is Some,
            old(self).armed() && (r matches ContinueOutcome::Stopped { .. } || r matches
                ContinueOutcome::StoppedUnresolved { .. }) ==> final(self).armed(),
            (r matches ContinueOutcome::Stopped { .. } || r matches
                ContinueOutcome::StoppedUnresolved { .. } || r is Failed) ==> (final(self).controller() matches Some(inf) && old(self).controller() matches Some(pre)
                && inf.addrs() == pre.addrs() && inf.pid_spec() == pre.pid_spec()
                && inf.same_patches(&pre)),
            r matches ContinueOutcome::Stopped { pc, .. } ==> (final(self).controller()
                matches Some(inf) ==> ((pc >= TRAP_WIDTH && inf.has_breakpoint(
                (pc - TRAP_WIDTH) as u64,
            )) ==> inf.has_breakpoint(pc))),
            r matches ContinueOutcome::StoppedUnresolved { pc, .. } ==> (final(self).controller()
                matches Some(inf) ==> ((pc >= TRAP_WIDTH && inf.has_breakpoint(
                (pc - TRAP_WIDTH) as u64,
            )) ==> inf.has_breakpoint(pc))),
            r matches ContinueOutcome::Stopped { signal, pc, function, file, line } ==> {
                &&& function_name_at(old(self).functions(), pc) == Some(function@)
                &&& line_entry_at(old(self).lines(), pc) matches Some(e) && e.file@ == file@
                    && e.number == line
            },
            r matches ContinueOutcome::StoppedUnresolved { signal, pc } ==> (function_name_at(
                old(self).functions(),
                pc,
            ) is None || line_entry_at(old(self).lines(), pc) is None),
    {
        match self.inferior.take() {
            None => ContinueOutcome::NoInferior,
            Some(mut inf) => {
                let ghost pre = inf;
                match inf.continue_exec() {
                    Err(e) => {
                        proof {
                            lemma_same_patches_same_addrs(pre, inf);
                        }
                        self.inferior = Some(inf);
                        ContinueOutcome::Failed(e)
                    },
                    Ok(Status::Exited(code)) => ContinueOutcome::Exited(code),
                    Ok(Status::Signaled(signal)) => ContinueOutcome::Signaled(signal),
                    Ok(Status::Stopped(signal, pc)) => {
                        proof {
                            lemma_same_patches_same_addrs(pre, inf);
                        }
                        self.inferior = Some(inf);
                        let location = self.debug_data.get_line_from_addr(pc);
                        let function = self.debug_data.get_function_from_addr(pc);
                        match (location, function) {
                            (Some(l), Some(f)) => ContinueOutcome::Stopped {
                                signal,
                                pc,
                                function: f,
                                file: l.file,
                                line: l.number,
                            },
                            _ => ContinueOutcome::StoppedUnresolved { signal, pc },
                        }
                    },
                }
            },
        }
    }

    /// The `backtrace` command: with no live target, report and attempt no
    /// memory access; otherwise render the stack walk.
    pub fn backtrace(&self) -> (r: BacktraceOutcome)
        ensures
            r is NoInferior <==> self.controller() is None,
            r matches BacktraceOutcome::Frames(frames) ==> {
                &&& frames@.len() <= MAX_FRAMES
                &&& forall|k: int|
                    0 <= k < frames@.len() ==> frame_resolved(
                        #[trigger] frames@[k],
                        self.functions(),
                        self.lines(),
                    )
                &&& frames@.len() < MAX_FRAMES ==> frames@.len() >= 1
                    && frames@.last().function@ == "main"@
                &&& forall|k: int|
                    0 <= k < frames@.len() - 1 ==> frames@[k].function@ != "main"@
            },
    {
        match &self.inferior {
            None => BacktraceOutcome::NoInferior,
            Some(inf) => match inf.stack_trace(&self.debug_data) {
                Ok(frames) => BacktraceOutcome::Frames(frames),
                Err(e) => BacktraceOutcome::Failed(e),
            },
        }
    }

    /// The first half of `run`: a fresh run always replaces the previous
    /// one, so any live controller is terminated and dropped here, before
    /// the new process is spawned.  Together with [`Debugger::attach_run`]
    /// demanding an empty slot, the first controller is always gone before
    /// the second exists, and no two are ever live at once.
    pub fn prepare_run(&mut self) -> (r: Result<(), DebugError>)
        requires
            old(self).wf(),
        ensures
            final(self).wf(),
            old(self).armed() ==> final(self).armed(),
            final(self).requests() == old(self).requests(),
            final(self).functions() == old(self).functions(),
            final(self).lines() == old(self).lines(),
            final(self).target_name() == old(self).target_name(),
            r is Ok ==> final(self).controller() is None,
            r is Err ==> final(self).controller() == old(self).controller(),
            old(self).controller() is None ==> r is Ok,
    {
        match self.inferior.take() {
            None => Ok(()),
            Some(inf) => match inf.kill() {
                Ok(()) => Ok(()),
                Err(e) => {
                    self.inferior = Some(inf);
                    Err(e)
                },
            },
        }
    }

    /// The second half of `run`: adopt the freshly spawned traced process,
    /// install every persistent breakpoint request into it (an address
    /// requested twice is patched once), and resume it.
    pub fn attach_run(&mut self, pid: i32) -> (r: RunOutcome)
        requires
            old(self).wf(),
            old(self).controller() is None,
        ensures
            final(self).wf(),
            final(self).requests() == old(self).requests(),
            final(self).functions() == old(self).functions(),
            final(self).lines() == old(self).lines(),
            final(self).target_name() == old(self).target_name(),
            (r is UnableToStart || r matches RunOutcome::InstallFailed(_)) ==> final(self).controller() is None,
            r matches RunOutcome::Resumed(c) ==> {
                &&& c !is NoInferior
                &&& ((c is Exited || c is Signaled) ==> final(self).controller() is None)
                &&& ((c matches ContinueOutcome::Stopped { .. } || c matches
                    ContinueOutcome::StoppedUnresolved { .. } || c is Failed) ==> (final(self).controller() matches Some(inf) && forall|k: int|
                    0 <= k < old(self).requests().len() ==> inf.has_breakpoint(
                        #[trigger] old(self).requests()[k],
                    )))
                &&& ((c matches ContinueOutcome::Stopped { .. } || c matches
                    ContinueOutcome::StoppedUnresolved { .. }) ==> final(self).armed())
            },
    {
        let mut inf = match Inferior::new(pid) {
            None => {
                return RunOutcome::UnableToStart;
            },
            Some(inf) => inf,
        };
        let mut k: usize = 0;
        while k < self.breakpoints.len()
            invariant
                *self == *old(self),
                self.controller() is None,
                k <= self.breakpoints@.len(),
                inf.wf(),
                inf.all_armed(),
                forall|j: int| 0 <= j < k ==> inf.has_breakpoint(#[trigger] self.breakpoints@[j]),
            decreases self.breakpoints@.len() - k,
        {
            let addr = self.breakpoints[k];
            if !inf.contains_breakpoint(addr) {
                let ghost pre = inf;
                match inf.set_breakpoint(addr) {
                    Ok(()) => {
                        proof {
                            lemma_table_extension_keeps_breakpoints(pre, inf);
                        }
                    },
                    Err(e) => {
                        return RunOutcome::InstallFailed(e);
                    },
                }
            }
            k += 1;
        }
        self.inferior = Some(inf);
        let outcome = self.inferior_continue_exec();
        RunOutcome::Resumed(outcome)
    }

    /// The `quit` command: terminate any live target; the session then
    /// ends.
    pub fn quit(&mut self) -> (r: Result<(), DebugError>)
        requires
            old(self).wf(),
        ensures
            final(self).wf(),
            final(self).requests() == old(self).requests(),
            r is Ok ==> final(self).controller() is None,
            r is Err ==> final(self).controller() == old(self).controller(),
            old(self).controller() is None ==> r is Ok,
    {
        self.prepare_run()
    }
}

} // verus!
