//! Trusted wrappers around the process-control system calls of the `nix`
//! crate.
//!
//! Every value crossing this boundary is a plain integer: process ids and
//! signals as raw numbers, memory words and addresses as `u64`, OS errors as
//! the raw `errno` value.  What a call returns depends on the state of the
//! traced process, so no wrapper promises anything about the values handed
//! back; the verified callers state what holds whatever came back.

use vstd::prelude::*;

use nix::sys::wait::WaitStatus;
use nix::unistd::Pid;

verus! {

/// Outcome of one `waitpid` call on the traced process, reduced to plain
/// values.  `Other` collects every state transition the debugger's model
/// does not recognize.
pub enum WaitOutcome {
    /// The process exited normally with the given exit code.
    Exited(i32),
    /// The process was killed by the given signal (raw signal number).
    Signaled(i32),
    /// The process is alive but was stopped by the given signal.
    Stopped(i32),
    /// Any other wait status.
    Other,
}

/// Relies on `nix::sys::ptrace::read` (PTRACE_PEEKDATA): reads the machine
/// word of the traced process's memory at `addr`, or fails with the OS
/// error number if the address is unmapped or the process is not stopped.
#[verifier::external_body]
pub(crate) fn pt_read_word(pid: i32, addr: u64) -> (r: Result<u64, i32>) {
    match nix::sys::ptrace::read(
        nix::unistd::Pid::from_raw(pid),
        addr as nix::sys::ptrace::AddressType,
    ) {
        Ok(word) => Ok(word as u64),
        Err(e) => Err(e as i32),
    }
}

/// Relies on `nix::sys::ptrace::write` (PTRACE_POKEDATA): writes `word` over
/// the machine word of the traced process's memory at `addr`.
#[verifier::external_body]
pub(crate) fn pt_write_word(pid: i32, addr: u64, word: u64) -> (r: Result<(), i32>) {
    match nix::sys::ptrace::write(
        nix::unistd::Pid::from_raw(pid),
        addr as nix::sys::ptrace::AddressType,
        word as i64,
    ) {
        Ok(()) => Ok(()),
        Err(e) => Err(e as i32),
    }
}

/// Relies on `nix::sys::ptrace::getregs` (PTRACE_GETREGS): reads the stopped
/// process's registers and hands back the pair (program counter, frame base),
/// that is the `rip` and `rbp` fields.
#[verifier::external_body]
pub(crate) fn pt_read_registers(pid: i32) -> (r: Result<(u64, u64), i32>) {
    match nix::sys::ptrace::getregs(nix::unistd::Pid::from_raw(pid)) {
        Ok(regs) => Ok((regs.rip, regs.rbp)),
        Err(e) => Err(e as i32),
    }
}

/// Relies on `nix::sys::ptrace::getregs` and `nix::sys::ptrace::setregs`
/// (PTRACE_GETREGS / PTRACE_SETREGS): rewrites the stopped process's program
/// counter (the `rip` register) to `pc`, leaving every other register as the
/// read-modify-write pair found it.
#[verifier::external_body]
pub(crate) fn pt_write_pc(pid: i32, pc: u64) -> (r: Result<(), i32>) {
    let nix_pid = nix::unistd::Pid::from_raw(pid);
    match nix::sys::ptrace::getregs(nix_pid) {
        Ok(mut regs) => {
            regs.rip = pc;
            match nix::sys::ptrace::setregs(nix_pid, regs) {
                Ok(()) => Ok(()),
                Err(e) => Err(e as i32),
            }
        },
        Err(e) => Err(e as i32),
    }
}

/// Relies on `nix::sys::ptrace::step` (PTRACE_SINGLESTEP): lets the stopped
/// process execute one instruction, delivering no signal.
#[verifier::external_body]
pub(crate) fn pt_step(pid: i32) -> (r: Result<(), i32>) {
    match nix::sys::ptrace::step(nix::unistd::Pid::from_raw(pid), None) {
        Ok(()) => Ok(()),
        Err(e) => Err(e as i32),
    }
}

/// Relies on `nix::sys::ptrace::cont` (PTRACE_CONT): resumes the stopped
/// process to run freely, delivering no signal.
#[verifier::external_body]
pub(crate) fn pt_cont(pid: i32) -> (r: Result<(), i32>) {
    match nix::sys::ptrace::cont(nix::unistd::Pid::from_raw(pid), None) {
        Ok(()) => Ok(()),
        Err(e) => Err(e as i32),
    }
}

/// Relies on `nix::sys::signal::kill`: sends SIGKILL to the process.
#[verifier::external_body]
pub(crate) fn send_kill(pid: i32) -> (r: Result<(), i32>) {
    match nix::sys::signal::kill(nix::unistd::Pid::from_raw(pid), nix::sys::signal::Signal::SIGKILL)
    {
        Ok(()) => Ok(()),
        Err(e) => Err(e as i32),
    }
}

/// Relies on `nix::sys::wait::waitpid` with no option flags: blocks until
/// the traced process changes state and reduces the reported status to a
/// [`WaitOutcome`], with signals as their raw numbers.
#[verifier::external_body]
pub(crate) fn wait_for_process(pid: i32) -> (r: Result<WaitOutcome, i32>) {
    match nix::sys::wait::waitpid(Pid::from_raw(pid), None) {
        Ok(WaitStatus::Exited(_, code)) => Ok(WaitOutcome::Exited(code)),
        Ok(WaitStatus::Signaled(_, sig, _)) => Ok(WaitOutcome::Signaled(sig as i32)),
        Ok(WaitStatus::Stopped(_, sig)) => Ok(WaitOutcome::Stopped(sig as i32)),
        Ok(WaitStatus::PtraceEvent(_, _, _)) => Ok(WaitOutcome::Other),
        Ok(WaitStatus::PtraceSyscall(_)) => Ok(WaitOutcome::Other),
        Ok(WaitStatus::Continued(_)) => Ok(WaitOutcome::Other),
        Ok(WaitStatus::StillAlive) => Ok(WaitOutcome::Other),
        Err(e) => Err(e as i32),
    }
}

} // verus!
