//! The process controller: owner of one live traced OS process.
//!
//! A controller is created around a freshly spawned process that requested
//! tracing of itself, and is usable only while that process lives.  It keeps
//! the breakpoint table for this run; each entry is a small state machine
//! that is `Armed` at every externally observable stop and
//! `TemporarilyDisarmed` only inside the restore-step-reinstall sequence of
//! a single resume operation.

use vstd::prelude::*;

use crate::error::DebugError;
use crate::patch::{align_addr_to_word, replace_byte, TRAP_OPCODE, TRAP_WIDTH};
use crate::resolver::Resolver;
use crate::stack::{frame_matches, frame_resolved, Frame};
use crate::strutil::str_eq;
use crate::sys::{
    pt_cont, pt_read_registers, pt_read_word, pt_step, pt_write_pc, pt_write_word, send_kill,
    wait_for_process, WaitOutcome,
};

verus! {

/// Cap on the number of frames a stack walk renders, a defensive bound for
/// targets whose frame-pointer chain never reaches the entry function.
pub const MAX_FRAMES: usize = 256;

/// Raw number of the trap signal (SIGTRAP), the signal delivered when the
/// target executes a planted trap instruction and on the first stop after a
/// traced exec.
pub const TRAP_SIGNAL: i32 = 5;

/// Result of waiting on the traced process's state transitions.  The
/// terminal variants mean the process is gone and the controller that
/// produced them must be dropped.
pub enum Status {
    /// The process stopped on a signal; holds the raw signal number and the
    /// program counter it stopped at.
    Stopped(i32, u64),
    /// The process exited normally; holds the exit status code.
    Exited(i32),
    /// The process was killed by a signal; holds the raw signal number.
    Signaled(i32),
}

/// Per-breakpoint micro state machine: `Armed` whenever the target is
/// observable from outside, `TemporarilyDisarmed` only between the restore
/// and the reinstall of one resume operation.
pub enum BreakpointState {
    Armed,
    TemporarilyDisarmed,
}

/// One installed breakpoint: the patched virtual address and the one byte of
/// original code that the trap opcode overwrote.
pub struct Breakpoint {
    pub addr: u64,
    pub orig_byte: u8,
    pub state: BreakpointState,
}

/// Classifies one wait outcome as a [`Status`]: exits and terminations pass
/// through, a mere stop is reported with the given program counter, and any
/// transition the model does not recognize is the one unrecoverable error.
pub fn status_of(outcome: WaitOutcome, pc: u64) -> (r: Result<Status, DebugError>)
    ensures
        match outcome {
            WaitOutcome::Exited(code) => r == Ok::<Status, DebugError>(Status::Exited(code)),
            WaitOutcome::Signaled(signal) => r == Ok::<Status, DebugError>(
                Status::Signaled(signal),
            ),
            WaitOutcome::Stopped(signal) => r == Ok::<Status, DebugError>(
                Status::Stopped(signal, pc),
            ),
            WaitOutcome::Other => r == Err::<Status, DebugError>(
                DebugError::UnexpectedWaitStatus,
            ),
        },
{
    match outcome {
        WaitOutcome::Exited(code) => Ok(Status::Exited(code)),
        WaitOutcome::Signaled(signal) => Ok(Status::Signaled(signal)),
        WaitOutcome::Stopped(signal) => Ok(Status::Stopped(signal, pc)),
        WaitOutcome::Other => Err(DebugError::UnexpectedWaitStatus),
    }
}

/// The dispatch on the stop observed after single-stepping over a restored
/// instruction: a terminal event is handed up at once — the process is gone
/// and nothing may be reinstalled into the dead image — while a mere stop
/// means the step landed and the trap is to be re-armed.
pub fn terminal_step_event(status: Status) -> (r: Option<Status>)
    ensures
        match status {
            Status::Stopped(_, _) => r is None,
            Status::Exited(code) => r == Some(Status::Exited(code)),
            Status::Signaled(signal) => r == Some(Status::Signaled(signal)),
        },
{
    match status {
        Status::Stopped(_, _) => None,
        terminal => Some(terminal),
    }
}

/// One live traced OS process together with the breakpoint table for this
/// run.  A controller never outlives its process: terminal stop events make
/// the session drop it.
pub struct Inferior {
    pid: i32,
    breakpoints: Vec<Breakpoint>,
}

impl Inferior {
    /// The OS process id of the traced process.
    pub closed spec fn pid_spec(&self) -> i32 {
        self.pid
    }

    /// The breakpoint table of this run.
    pub closed spec fn table(&self) -> Seq<Breakpoint> {
        self.breakpoints@
    }

    /// The installed breakpoint addresses, in installation order.
    pub open spec fn addrs(&self) -> Seq<u64> {
        self.table().map_values(|b: Breakpoint| b.addr)
    }

    pub open spec fn has_breakpoint(&self, addr: u64) -> bool {
        self.addrs().contains(addr)
    }

    /// The table invariant: no virtual address is ever installed twice into
    /// one running target.
    pub open spec fn wf(&self) -> bool {
        forall|i: int, j: int|
            0 <= i < j < self.table().len() ==> self.table()[i].addr != self.table()[j].addr
    }

    /// Every entry's address currently holds the trap byte.  This holds at
    /// every quiescent stop; it is broken only inside the non-re-entrant
    /// restore-step-reinstall sequence.
    pub open spec fn all_armed(&self) -> bool {
        forall|i: int| 0 <= i < self.table().len() ==> self.table()[i].state is Armed
    }

    /// The two controllers manage the same patches: same addresses and the
    /// same saved original bytes, entry for entry; only the armed state may
    /// differ.
    pub open spec fn same_patches(&self, other: &Inferior) -> bool {
        &&& self.table().len() == other.table().len()
        &&& forall|i: int|
            0 <= i < self.table().len() ==> self.table()[i].addr == other.table()[i].addr
                && self.table()[i].orig_byte == other.table()[i].orig_byte
    }

    /// Attaches a controller to the freshly spawned traced process `pid` by
    /// waiting for the process's first stop.  Succeeds only if that stop is
    /// the trap signal delivered immediately after exec; any other outcome
    /// yields no controller.  The first stop is the synchronization point
    /// guaranteeing that later memory and register operations target a
    /// stopped, valid process image.
    pub fn new(pid: i32) -> (r: Option<Inferior>)
        ensures
            r matches Some(inf) ==> {
                &&& inf.pid_spec() == pid
                &&& inf.table() =~= Seq::<Breakpoint>::empty()
                &&& inf.wf()
                &&& inf.all_armed()
            },
    {
        let inferior = Inferior { pid, breakpoints: Vec::new() };
        let first = inferior.wait();
        inferior.accept_first_stop(first)
    }

    /// The acceptance decision on a controller's first wait outcome: the
    /// controller is kept exactly when the first stop is a stop on the trap
    /// signal; any other outcome — an error, an early exit or termination, a
    /// stop on some other signal — yields no controller.
    pub fn accept_first_stop(self, first: Result<Status, DebugError>) -> (r: Option<Inferior>)
        ensures
            r is Some <==> (first matches Ok(s) && s matches Status::Stopped(signal, _)
                && signal == TRAP_SIGNAL),
            r matches Some(inf) ==> inf == self,
    {
        match first {
            Ok(Status::Stopped(signal, _)) => {
                if signal == TRAP_SIGNAL {
                    Some(self)
                } else {
                    None
                }
            },
            _ => None,
        }
    }

    /// The OS process id of the traced process.
    pub fn pid(&self) -> (r: i32)
        ensures
            r == self.pid_spec(),
    {
        self.pid
    }

    /// Waits for the traced process's next state transition and reduces it
    /// to a [`Status`] through [`status_of`], reading the program counter
    /// when the process merely stopped.  Which outcome comes back is decided
    /// by the target process alone; every failure is a memory or register
    /// access failure or the unrecoverable unrecognized status.
    pub fn wait(&self) -> (r: Result<Status, DebugError>)
        ensures
            r matches Err(e) ==> (e is AccessFailed || e is UnexpectedWaitStatus),
    {
        let outcome = match wait_for_process(self.pid) {
            Ok(o) => o,
            Err(e) => {
                return Err(DebugError::AccessFailed(e));
            },
        };
        let pc = match outcome {
            WaitOutcome::Stopped(_) => match pt_read_registers(self.pid) {
                Ok(regs) => regs.0,
                Err(e) => {
                    return Err(DebugError::AccessFailed(e));
                },
            },
            _ => 0,
        };
        status_of(outcome, pc)
    }

    /// Overwrites the single byte at `addr` of the target's memory with
    /// `val` and returns the byte previously there.  Works on the containing
    /// aligned word so that neighboring bytes are untouched: the word is
    /// rewritten through [`replace_byte`], whose contract fixes both the
    /// written word and the returned byte exactly in terms of the word read.
    /// Fails only with a memory access failure, when the address is unmapped
    /// or the target is not stopped.
    fn write_byte(&self, addr: u64, val: u8) -> (r: Result<u8, DebugError>)
        ensures
            r matches Err(e) ==> e is AccessFailed,
    {
        let aligned = align_addr_to_word(addr);
        let offset = addr - aligned;
        match pt_read_word(self.pid, aligned) {
            Err(e) => Err(DebugError::AccessFailed(e)),
            Ok(word) => {
                let (updated, orig) = replace_byte(word, offset, val);
                match pt_write_word(self.pid, aligned, updated) {
                    Err(e) => Err(DebugError::AccessFailed(e)),
                    Ok(()) => Ok(orig),
                }
            },
        }
    }

    /// The position of `addr` in the breakpoint table, if installed.
    fn find_breakpoint(&self, addr: u64) -> (r: Option<usize>)
        ensures
            match r {
                Some(i) => i < self.table().len() && self.table()[i as int].addr == addr,
                None => !self.has_breakpoint(addr),
            },
    {
        let mut i: usize = 0;
        while i < self.breakpoints.len()
            invariant
                i <= self.table().len(),
                forall|j: int| 0 <= j < i ==> self.table()[j].addr != addr,
            decreases self.table().len() - i,
        {
            if self.breakpoints[i].addr == addr {
                return Some(i);
            }
            i += 1;
        }
        proof {
            assert(forall|j: int|
                0 <= j < self.addrs().len() ==> self.addrs()[j] != addr);
        }
        None
    }

    /// Whether a breakpoint is installed at `addr`.
    pub fn contains_breakpoint(&self, addr: u64) -> (r: bool)
        ensures
            r == self.has_breakpoint(addr),
    {
        match self.find_breakpoint(addr) {
            Some(i) => {
                proof {
                    assert(self.addrs()[i as int] == addr);
                }
                true
            },
            None => false,
        }
    }

    /// The program counter a stop is reported with.  Executing the one-byte
    /// trap advances the raw counter just past the installed breakpoint, so
    /// a stop one trap width past an installed address is reported at the
    /// breakpoint itself.
    pub open spec fn reported_stop_pc(&self, raw: u64) -> u64 {
        if raw >= TRAP_WIDTH && self.has_breakpoint((raw - TRAP_WIDTH) as u64) {
            (raw - TRAP_WIDTH) as u64
        } else {
            raw
        }
    }

    /// Computes [`Inferior::reported_stop_pc`].
    pub fn adjusted_stop_pc(&self, raw: u64) -> (r: u64)
        ensures
            r == self.reported_stop_pc(raw),
    {
        if raw >= TRAP_WIDTH && self.contains_breakpoint(raw - TRAP_WIDTH) {
            raw - TRAP_WIDTH
        } else {
            raw
        }
    }

    /// Installs a breakpoint: patches the trap opcode over the byte at
    /// `addr` and records the overwritten original byte as a new armed table
    /// entry.  Fails, leaving the table unchanged, if the address is
    /// unmapped or the target is not stopped.
    pub fn set_breakpoint(&mut self, addr: u64) -> (r: Result<(), DebugError>)
        requires
            old(self).wf(),
            !old(self).has_breakpoint(addr),
        ensures
            final(self).pid_spec() == old(self).pid_spec(),
            final(self).wf(),
            old(self).all_armed() ==> final(self).all_armed(),
            match r {
                Ok(()) => {
                    &&& final(self).table().len() == old(self).table().len() + 1
                    &&& final(self).table().take(old(self).table().len() as int) == old(
                        self,
                    ).table()
                    &&& final(self).table().last().addr == addr
                    &&& final(self).table().last().state is Armed
                    &&& final(self).has_breakpoint(addr)
                },
                Err(_) => final(self).table() == old(self).table(),
            },
    {
        match self.write_byte(addr, TRAP_OPCODE) {
            Err(e) => Err(e),
            Ok(orig_byte) => {
                self.breakpoints.push(
                    Breakpoint { addr, orig_byte, state: BreakpointState::Armed },
                );
                proof {
                    assert(self.table().take(self.table().len() - 1) =~= old(self).table());
                    assert(self.addrs().last() == addr);
                    assert forall|k: int|
                        0 <= k < old(self).table().len() implies old(self).table()[k].addr
                        != addr by {
                        assert(old(self).addrs()[k] == old(self).table()[k].addr);
                    }
                }
                Ok(())
            },
        }
    }

    /// The core trap-handling resume.  If the stop sits one trap width past
    /// an installed breakpoint, the original byte is restored, the program
    /// counter rewound onto it, the instruction single-stepped and the trap
    /// reinstalled — skipping that sequence would re-execute the trap
    /// forever.  The process is then resumed to run freely and the next stop
    /// returned; a stop one trap width past an installed breakpoint is
    /// reported at the breakpoint address itself.  If the single step itself
    /// ends the process, that terminal event is returned at once without
    /// reinstalling.  At every stop this function reports, every table entry
    /// is armed again.  On an error the patches (addresses and saved bytes)
    /// are kept, though an entry may be left disarmed when the failure hits
    /// inside the restore-step-reinstall window.
    pub fn continue_exec(&mut self) -> (r: Result<Status, DebugError>)
        requires
            old(self).wf(),
        ensures
            final(self).pid_spec() == old(self).pid_spec(),
            final(self).wf(),
            final(self).same_patches(old(self)),
            (old(self).all_armed() && (r matches Ok(s) && s is Stopped)) ==> final(self).all_armed(),
            r matches Ok(s) ==> (s matches Status::Stopped(signal, pc) ==> ((pc >= TRAP_WIDTH
                && final(self).has_breakpoint((pc - TRAP_WIDTH) as u64)) ==> final(self).has_breakpoint(pc))),
    {
        let pc = match pt_read_registers(self.pid) {
            Ok(regs) => regs.0,
            Err(e) => {
                return Err(DebugError::AccessFailed(e));
            },
        };
        if pc >= TRAP_WIDTH {
            // Executing the trap advanced the program counter past it, so
            // the breakpoint to look up sits one trap width before pc.
            if let Some(i) = self.find_breakpoint(pc - TRAP_WIDTH) {
                let bp_addr = self.breakpoints[i].addr;
                let orig_byte = self.breakpoints[i].orig_byte;
                match self.write_byte(bp_addr, orig_byte) {
                    Err(e) => {
                        return Err(e);
                    },
                    Ok(_) => {},
                }
                self.breakpoints[i].state = BreakpointState::TemporarilyDisarmed;
                match pt_write_pc(self.pid, bp_addr) {
                    Err(e) => {
                        return Err(DebugError::AccessFailed(e));
                    },
                    Ok(()) => {},
                }
                match pt_step(self.pid) {
                    Err(e) => {
                        return Err(DebugError::AccessFailed(e));
                    },
                    Ok(()) => {},
                }
                match self.wait() {
                    Err(e) => {
                        return Err(e);
                    },
                    Ok(step_status) => match terminal_step_event(step_status) {
                        Some(terminal) => {
                            return Ok(terminal);
                        },
                        None => {
                            match self.write_byte(bp_addr, TRAP_OPCODE) {
                                Err(e) => {
                                    return Err(e);
                                },
                                Ok(_) => {},
                            }
                            self.breakpoints[i].state = BreakpointState::Armed;
                        },
                    },
                }
            }
        }
        match pt_cont(self.pid) {
            Err(e) => {
                return Err(DebugError::AccessFailed(e));
            },
            Ok(()) => {},
        }
        match self.wait() {
            Ok(Status::Stopped(signal, raw_pc)) => Ok(
                Status::Stopped(signal, self.adjusted_stop_pc(raw_pc)),
            ),
            other => other,
        }
    }

    /// The frame-pointer walk over the live target's memory: reads the
    /// program counter and frame base from the registers, renders each frame
    /// from the resolver, stops after the entry function, and follows the
    /// saved return address and saved frame base otherwise.  Every rendered
    /// frame before the last names a function other than the entry
    /// function; the walk gives up after [`MAX_FRAMES`] frames.
    pub fn stack_trace(&self, debug_data: &Resolver) -> (r: Result<Vec<Frame>, DebugError>)
        ensures
            r matches Ok(frames) ==> {
                &&& frames@.len() <= MAX_FRAMES
                &&& forall|k: int|
                    0 <= k < frames@.len() ==> frame_resolved(
                        #[trigger] frames@[k],
                        debug_data.functions(),
                        debug_data.lines(),
                    )
                &&& frames@.len() < MAX_FRAMES ==> frames@.len() >= 1
                    && frames@.last().function@ == "main"@
                &&& forall|k: int|
                    0 <= k < frames@.len() - 1 ==> frames@[k].function@ != "main"@
            },
    {
        let regs = match pt_read_registers(self.pid) {
            Ok(regs) => regs,
            Err(e) => {
                return Err(DebugError::AccessFailed(e));
            },
        };
        let mut pc = regs.0;
        let mut fp = regs.1;
        let mut frames: Vec<Frame> = Vec::new();
        let mut n: usize = 0;
        while n < MAX_FRAMES
            invariant
                frames@.len() == n,
                n <= MAX_FRAMES,
                forall|k: int|
                    0 <= k < n ==> frame_resolved(
                        #[trigger] frames@[k],
                        debug_data.functions(),
                        debug_data.lines(),
                    ),
                forall|k: int| 0 <= k < n ==> frames@[k].function@ != "main"@,
            decreases MAX_FRAMES - n,
        {
            let location = match debug_data.get_line_from_addr(pc) {
                Some(l) => l,
                None => {
                    return Err(DebugError::UnresolvedAddress(pc));
                },
            };
            let function = match debug_data.get_function_from_addr(pc) {
                Some(f) => f,
                None => {
                    return Err(DebugError::UnresolvedAddress(pc));
                },
            };
            let is_entry = str_eq(function.as_str(), "main");
            let frame = Frame { function, file: location.file, line: location.number };
            proof {
                assert(frame_matches(frame, debug_data.functions(), debug_data.lines(), pc));
                assert(frame_resolved(frame, debug_data.functions(), debug_data.lines()));
            }
            frames.push(frame);
            if is_entry {
                return Ok(frames);
            }
            if fp > u64::MAX - 8 {
                return Err(DebugError::AccessFailed(crate::error::BAD_ADDRESS_ERRNO));
            }
            pc = match pt_read_word(self.pid, fp + 8) {
                Ok(w) => w,
                Err(e) => {
                    return Err(DebugError::AccessFailed(e));
                },
            };
            fp = match pt_read_word(self.pid, fp) {
                Ok(w) => w,
                Err(e) => {
                    return Err(DebugError::AccessFailed(e));
                },
            };
            n += 1;
        }
        Ok(frames)
    }

    /// Force-kills the underlying process with SIGKILL.  Calling it on an
    /// already exited process reports the OS error: the only failure shape
    /// is an access failure, never a panic.
    pub fn kill(&self) -> (r: Result<(), DebugError>)
        ensures
            r matches Err(e) ==> e is AccessFailed,
    {
        match send_kill(self.pid) {
            Ok(()) => Ok(()),
            Err(e) => Err(DebugError::AccessFailed(e)),
        }
    }
}

/// Two controllers with the same patches have the same installed
/// addresses.
pub proof fn lemma_same_patches_same_addrs(pre: Inferior, post: Inferior)
    requires
        post.same_patches(&pre),
    ensures
        post.addrs() == pre.addrs(),
{
    assert(post.addrs() =~= pre.addrs());
}

/// Extending a breakpoint table keeps every installed address installed.
pub proof fn lemma_table_extension_keeps_breakpoints(pre: Inferior, post: Inferior)
    requires
        post.table().len() >= pre.table().len(),
        post.table().take(pre.table().len() as int) == pre.table(),
    ensures
        forall|a: u64| pre.has_breakpoint(a) ==> post.has_breakpoint(a),
{
    assert forall|a: u64| pre.has_breakpoint(a) implies post.has_breakpoint(a) by {
        let w = choose|w: int| 0 <= w < pre.addrs().len() && pre.addrs()[w] == a;
        assert(post.table().take(pre.table().len() as int)[w] == pre.table()[w]);
        assert(post.addrs()[w] == a);
    };
}

} // verus!
