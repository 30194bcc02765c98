use deet::command::{parse_address, parse_line_number, DebuggerCommand};
use deet::debugger::{BacktraceOutcome, BreakpointOutcome, ContinueOutcome, Debugger};
use deet::resolver::{FunctionEntry, LineEntry, Resolver};

fn sample_resolver() -> Resolver {
    let functions = vec![
        FunctionEntry { name: String::from("main"), addr: 0x1000, size: 0x100 },
        FunctionEntry { name: String::from("foo"), addr: 0x5000, size: 0x80 },
        // A function whose name looks like an address literal: the literal
        // must still win without this entry being consulted.
        FunctionEntry { name: String::from("*10"), addr: 0x9999, size: 0x10 },
        // A function whose name looks like a line number: the function
        // table is consulted before the line table.
        FunctionEntry { name: String::from("17"), addr: 0x7777, size: 0x10 },
    ];
    let lines = vec![
        LineEntry { file: String::from("main.c"), number: 17, addr: 0x6000 },
        LineEntry { file: String::from("main.c"), number: 42, addr: 0x6100 },
    ];
    Resolver::new(functions, lines)
}

#[test]
fn address_literal_parsing() {
    assert_eq!(parse_address("*ff"), Some(255));
    assert_eq!(parse_address("*0xff"), Some(255));
    assert_eq!(parse_address("*0Xff"), Some(255));
    assert_eq!(parse_address("*0x1000"), Some(0x1000));
    assert_eq!(parse_address("*DEADbeef"), Some(0xdead_beef));
    assert_eq!(parse_address("*ffffffffffffffff"), Some(u64::MAX));
    assert_eq!(parse_address("ff"), None);
    assert_eq!(parse_address(""), None);
    assert_eq!(parse_address("*"), None);
    assert_eq!(parse_address("*0x"), None);
    assert_eq!(parse_address("*zz"), None);
    // one hex digit too many for a 64-bit address
    assert_eq!(parse_address("*10000000000000000"), None);
}

#[test]
fn line_number_parsing() {
    assert_eq!(parse_line_number("0"), Some(0));
    assert_eq!(parse_line_number("42"), Some(42));
    assert_eq!(parse_line_number("18446744073709551615"), Some(u64::MAX));
    assert_eq!(parse_line_number("18446744073709551616"), None);
    assert_eq!(parse_line_number(""), None);
    assert_eq!(parse_line_number("4x"), None);
}

#[test]
fn command_tokens() {
    assert!(matches!(
        DebuggerCommand::from_tokens(&vec!["bt"]),
        Some(DebuggerCommand::Backtrace)
    ));
    assert!(matches!(
        DebuggerCommand::from_tokens(&vec!["back"]),
        Some(DebuggerCommand::Backtrace)
    ));
    assert!(matches!(
        DebuggerCommand::from_tokens(&vec!["c"]),
        Some(DebuggerCommand::Continue)
    ));
    assert!(matches!(
        DebuggerCommand::from_tokens(&vec!["quit"]),
        Some(DebuggerCommand::Quit)
    ));
    match DebuggerCommand::from_tokens(&vec!["b", "main"]) {
        Some(DebuggerCommand::Breakpoint(arg)) => assert_eq!(arg, "main"),
        _ => panic!("breakpoint with one argument must parse"),
    }
    // breakpoint takes exactly one argument
    assert!(DebuggerCommand::from_tokens(&vec!["break"]).is_none());
    assert!(DebuggerCommand::from_tokens(&vec!["break", "a", "b"]).is_none());
    match DebuggerCommand::from_tokens(&vec!["r", "1", "2"]) {
        Some(DebuggerCommand::Run(args)) => assert_eq!(args, vec!["1", "2"]),
        _ => panic!("run with arguments must parse"),
    }
    match DebuggerCommand::from_tokens(&vec!["run"]) {
        Some(DebuggerCommand::Run(args)) => assert!(args.is_empty()),
        _ => panic!("run with no arguments must parse"),
    }
    assert!(DebuggerCommand::from_tokens(&vec!["nonsense"]).is_none());
}

#[test]
fn resolution_order_literal_wins() {
    let session = Debugger::new("target", sample_resolver());
    // "*10" is an address literal, so it resolves to 0x10 even though a
    // function of that exact name sits at 0x9999.
    assert_eq!(session.resolve_location("*10"), Some(0x10));
    // a plain name consults the function table
    assert_eq!(session.resolve_location("foo"), Some(0x5000));
    // the function table is consulted before the line table
    assert_eq!(session.resolve_location("17"), Some(0x7777));
    // a pure line number with no function of that name uses the line table
    assert_eq!(session.resolve_location("42"), Some(0x6100));
    // unresolvable
    assert_eq!(session.resolve_location("nosuch"), None);
}

#[test]
fn breakpoint_on_function_resolves_to_prologue() {
    let mut session = Debugger::new("target", sample_resolver());
    // a breakpoint on "main" before any run resolves to the first
    // instruction of main's prologue (its entry address), not a call site
    match session.breakpoint("main") {
        BreakpointOutcome::SetAt { index, addr } => {
            assert_eq!(index, 0);
            assert_eq!(addr, 0x1000);
        },
        _ => panic!("breakpoint on a known function must resolve"),
    }
    // the request list is append-only and keeps order
    match session.breakpoint("*2000") {
        BreakpointOutcome::SetAt { index, addr } => {
            assert_eq!(index, 1);
            assert_eq!(addr, 0x2000);
        },
        _ => panic!("address literal must resolve"),
    }
}

#[test]
fn invalid_breakpoint_changes_nothing() {
    let mut session = Debugger::new("target", sample_resolver());
    assert!(matches!(session.breakpoint("zzz"), BreakpointOutcome::InvalidArgument));
    // the next valid request still lands at index 0
    match session.breakpoint("foo") {
        BreakpointOutcome::SetAt { index, addr } => {
            assert_eq!(index, 0);
            assert_eq!(addr, 0x5000);
        },
        _ => panic!("breakpoint on a known function must resolve"),
    }
}

#[test]
fn no_target_boundary() {
    // continue and backtrace with zero prior runs report "no target" and
    // attempt no process or memory access
    let mut session = Debugger::new("target", sample_resolver());
    assert!(matches!(session.inferior_continue_exec(), ContinueOutcome::NoInferior));
    assert!(matches!(session.backtrace(), BacktraceOutcome::NoInferior));
    assert!(!session.has_target());
    // quitting and preparing a run with no target both succeed trivially
    assert!(session.prepare_run().is_ok());
    assert!(session.quit().is_ok());
    // and the session is still usable afterwards
    assert!(matches!(session.inferior_continue_exec(), ContinueOutcome::NoInferior));
}

#[test]
fn repeated_request_appends_both() {
    // the request list is append-only: the same address may be requested
    // twice and keeps both entries, in order
    let mut session = Debugger::new("target", sample_resolver());
    assert!(matches!(
        session.breakpoint("foo"),
        BreakpointOutcome::SetAt { index: 0, addr: 0x5000 }
    ));
    assert!(matches!(
        session.breakpoint("*5000"),
        BreakpointOutcome::SetAt { index: 1, addr: 0x5000 }
    ));
}
