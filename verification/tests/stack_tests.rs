use deet::error::DebugError;
use deet::patch::{align_addr_to_word, replace_byte, TRAP_OPCODE};
use deet::resolver::{FunctionEntry, LineEntry, Resolver};
use deet::stack::{walk_stack, MemoryImage};

fn chain_resolver() -> Resolver {
    let functions = vec![
        FunctionEntry { name: String::from("main"), addr: 0x1000, size: 0x100 },
        FunctionEntry { name: String::from("f"), addr: 0x2000, size: 0x100 },
        FunctionEntry { name: String::from("g"), addr: 0x3000, size: 0x100 },
    ];
    let lines = vec![
        LineEntry { file: String::from("prog.c"), number: 5, addr: 0x1000 },
        LineEntry { file: String::from("prog.c"), number: 20, addr: 0x2000 },
        LineEntry { file: String::from("prog.c"), number: 30, addr: 0x3000 },
    ];
    Resolver::new(functions, lines)
}

/// A memory image holding the saved-frame chain of `main` calling `f`
/// calling `g`, stopped inside `g`, with garbage beyond `main`'s frame.
fn chain_memory() -> MemoryImage {
    let mut mem = MemoryImage::new();
    // g's frame: return address into f, saved frame base of f
    mem.store(0x7008, 0x2010);
    mem.store(0x7000, 0x7100);
    // f's frame: return address into main, saved frame base of main
    mem.store(0x7108, 0x1010);
    mem.store(0x7100, 0x7200);
    // garbage beyond main's frame; the walk must never read it
    mem.store(0x7208, 0xdead);
    mem.store(0x7200, 0xbeef);
    mem
}

#[test]
fn walk_three_frames_stops_at_main() {
    let resolver = chain_resolver();
    let mem = chain_memory();
    let frames = walk_stack(&resolver, &mem, 0x3010, 0x7000, 64).unwrap();
    assert_eq!(frames.len(), 3);
    assert_eq!(frames[0].function, "g");
    assert_eq!(frames[0].file, "prog.c");
    assert_eq!(frames[0].line, 30);
    assert_eq!(frames[1].function, "f");
    assert_eq!(frames[1].line, 20);
    assert_eq!(frames[2].function, "main");
    assert_eq!(frames[2].line, 5);
}

#[test]
fn walk_stopped_directly_in_main() {
    let resolver = chain_resolver();
    let mem = MemoryImage::new();
    // stopped inside main: one frame, no memory read at all
    let frames = walk_stack(&resolver, &mem, 0x1020, 0x7000, 64).unwrap();
    assert_eq!(frames.len(), 1);
    assert_eq!(frames[0].function, "main");
}

#[test]
fn walk_unresolvable_address_fails() {
    let resolver = chain_resolver();
    let mem = chain_memory();
    match walk_stack(&resolver, &mem, 0x9999_0000, 0x7000, 64) {
        Err(DebugError::UnresolvedAddress(pc)) => assert_eq!(pc, 0x9999_0000),
        _ => panic!("an address outside every function must not resolve"),
    }
}

#[test]
fn walk_broken_chain_fails() {
    let resolver = chain_resolver();
    let mem = MemoryImage::new();
    // stopped inside g, but no saved frame data anywhere
    match walk_stack(&resolver, &mem, 0x3010, 0x7000, 64) {
        Err(DebugError::AccessFailed(_)) => {},
        _ => panic!("a missing chain word must fail the walk"),
    }
}

#[test]
fn memory_image_later_store_shadows() {
    let mut mem = MemoryImage::new();
    mem.store(0x10, 1);
    mem.store(0x10, 2);
    assert_eq!(mem.read_word(0x10), Some(2));
    assert_eq!(mem.read_word(0x18), None);
}

#[test]
fn word_alignment() {
    assert_eq!(align_addr_to_word(0), 0);
    assert_eq!(align_addr_to_word(7), 0);
    assert_eq!(align_addr_to_word(8), 8);
    assert_eq!(align_addr_to_word(0x1003), 0x1000);
}

#[test]
fn patch_round_trip_restores_word() {
    let word: u64 = 0x1122_3344_5566_7788;
    // plant the trap over the byte at offset 0 and remember the original
    let (patched, orig) = replace_byte(word, 0, TRAP_OPCODE);
    assert_eq!(patched, 0x1122_3344_5566_77cc);
    assert_eq!(orig, 0x88);
    // neighboring bytes are untouched, and restoring brings the word back
    let (restored, planted) = replace_byte(patched, 0, orig);
    assert_eq!(restored, word);
    assert_eq!(planted, TRAP_OPCODE);
    // the same at an interior offset
    let (patched, orig) = replace_byte(word, 5, TRAP_OPCODE);
    assert_eq!(orig, 0x33);
    assert_eq!(patched, 0x1122_cc44_5566_7788);
    let (restored, _) = replace_byte(patched, 5, orig);
    assert_eq!(restored, word);
}
