//! Frame-pointer stack walking.
//!
//! Given a stopped target, the walk starts from the program counter and the
//! frame-base register.  Each frame is rendered from the symbol resolver;
//! the walk ends at the program's entry function.  The saved return address
//! of a frame sits one word above the frame base, and the caller's frame
//! base is stored at the frame base itself.  The walk assumes the target
//! was compiled with retained frame pointers; nothing here defends against
//! a target that was not.
//!
//! [`walk_stack`] runs the walk over a [`MemoryImage`], a plain-value map
//! of target words; the controller's live walk performs the same steps over
//! the traced process's memory.

use vstd::prelude::*;

use crate::error::{DebugError, BAD_ADDRESS_ERRNO};
use crate::resolver::{function_name_at, line_entry_at, FunctionEntry, LineEntry, Resolver};
use crate::strutil::str_eq;

verus! {

/// One rendered stack frame.
pub struct Frame {
    pub function: String,
    pub file: String,
    pub line: u64,
}

/// A plain-value image of target memory: later stores shadow earlier ones.
pub struct MemoryImage {
    words: Vec<(u64, u64)>,
}

/// The word stored at `addr`, from the first (most recently stored) pair.
pub open spec fn word_at(mem: Seq<(u64, u64)>, addr: u64) -> Option<u64>
    decreases mem.len(),
{
    if mem.len() == 0 {
        None
    } else if mem[0].0 == addr {
        Some(mem[0].1)
    } else {
        word_at(mem.drop_first(), addr)
    }
}

impl MemoryImage {
    pub closed spec fn words(&self) -> Seq<(u64, u64)> {
        self.words@
    }

    pub fn new() -> (r: MemoryImage)
        ensures
            r.words() =~= Seq::<(u64, u64)>::empty(),
    {
        MemoryImage { words: Vec::new() }
    }

    /// Stores `word` at `addr`, shadowing any earlier store there.
    pub fn store(&mut self, addr: u64, word: u64)
        ensures
            final(self).words() == seq![(addr, word)] + old(self).words(),
            word_at(final(self).words(), addr) == Some(word),
    {
        self.words.insert(0, (addr, word));
        proof {
            assert(self.words() =~= seq![(addr, word)] + old(self).words());
        }
    }

    /// The word at `addr`, if one was stored.
    pub fn read_word(&self, addr: u64) -> (r: Option<u64>)
        ensures
            r == word_at(self.words(), addr),
    {
        let mut i: usize = 0;
        proof {
            assert(self.words().skip(0) =~= self.words());
        }
        while i < self.words.len()
            invariant
                i <= self.words().len(),
                word_at(self.words(), addr) == word_at(self.words().skip(i as int), addr),
            decreases self.words().len() - i,
        {
            proof {
                assert(self.words().skip(i as int)[0] == self.words()[i as int]);
            }
            if self.words[i].0 == addr {
                return Some(self.words[i].1);
            }
            proof {
                assert(self.words().skip(i as int).drop_first() =~= self.words().skip(
                    i as int + 1,
                ));
            }
            i += 1;
        }
        proof {
            assert(self.words().skip(i as int) =~= Seq::<(u64, u64)>::empty());
        }
        None
    }
}

/// Both lookups the walk makes at a stop succeed: the resolver names the
/// enclosing function and a governing source line.
pub open spec fn resolvable(
    functions: Seq<FunctionEntry>,
    lines: Seq<LineEntry>,
    pc: u64,
) -> bool {
    function_name_at(functions, pc) is Some && line_entry_at(lines, pc) is Some
}

/// The program counters of the frames the walk visits, outermost last.
///
/// The walk stops successfully at the entry function; it fails (`None`) when
/// the resolver cannot resolve a program counter or when a chain address
/// cannot be read.  `fuel` bounds the number of frames; a walk that runs out
/// of fuel yields the empty tail.
pub open spec fn walk_pcs(
    functions: Seq<FunctionEntry>,
    lines: Seq<LineEntry>,
    mem: Seq<(u64, u64)>,
    pc: u64,
    fp: u64,
    fuel: nat,
) -> Option<Seq<u64>>
    decreases fuel,
{
    if fuel == 0 {
        Some(Seq::<u64>::empty())
    } else if !resolvable(functions, lines, pc) {
        None
    } else if function_name_at(functions, pc) == Some("main"@) {
        Some(seq![pc])
    } else if fp > u64::MAX - 8 {
        None
    } else {
        match (word_at(mem, (fp + 8) as u64), word_at(mem, fp)) {
            (Some(ret_addr), Some(prev_fp)) => match walk_pcs(
                functions,
                lines,
                mem,
                ret_addr,
                prev_fp,
                (fuel - 1) as nat,
            ) {
                Some(rest) => Some(seq![pc] + rest),
                None => None,
            },
            _ => None,
        }
    }
}

/// `frame` is what the resolver renders for a stop at `pc`.
pub open spec fn frame_matches(
    frame: Frame,
    functions: Seq<FunctionEntry>,
    lines: Seq<LineEntry>,
    pc: u64,
) -> bool {
    &&& function_name_at(functions, pc) == Some(frame.function@)
    &&& line_entry_at(lines, pc) matches Some(e) && e.file@ == frame.file@ && e.number
        == frame.line
}

/// `frame` is what the resolver renders for a stop at some program counter.
pub open spec fn frame_resolved(
    frame: Frame,
    functions: Seq<FunctionEntry>,
    lines: Seq<LineEntry>,
) -> bool {
    exists|pc: u64| frame_matches(frame, functions, lines, pc)
}

/// The frame-pointer walk over a memory image: resolves each program
/// counter to `function (file:line)` data, stops after the entry function,
/// and otherwise follows the saved return address one word above the frame
/// base and the saved previous frame base at the frame base itself.
pub fn walk_stack(debug_data: &Resolver, mem: &MemoryImage, pc: u64, fp: u64, fuel: usize) -> (r:
    Result<Vec<Frame>, DebugError>)
    ensures
        match r {
            Ok(frames) => walk_pcs(
                debug_data.functions(),
                debug_data.lines(),
                mem.words(),
                pc,
                fp,
                fuel as nat,
            ) matches Some(pcs) && frames@.len() == pcs.len() && (forall|k: int|
                0 <= k < pcs.len() ==> frame_matches(
                    frames@[k],
                    debug_data.functions(),
                    debug_data.lines(),
                    pcs[k],
                )),
            Err(_) => walk_pcs(
                debug_data.functions(),
                debug_data.lines(),
                mem.words(),
                pc,
                fp,
                fuel as nat,
            ) is None,
        },
    decreases fuel,
{
    if fuel == 0 {
        return Ok(Vec::new());
    }
    let location = match debug_data.get_line_from_addr(pc) {
        Some(l) => l,
        None => {
            return Err(DebugError::UnresolvedAddress(pc));
        },
    };
    let function = match debug_data.get_function_from_addr(pc) {
        Some(f) => f,
        None => {
            return Err(DebugError::UnresolvedAddress(pc));
        },
    };
    let is_entry = str_eq(function.as_str(), "main");
    let frame = Frame { function, file: location.file, line: location.number };
    if is_entry {
        let mut frames: Vec<Frame> = Vec::new();
        frames.push(frame);
        return Ok(frames);
    }
    if fp > u64::MAX - 8 {
        return Err(DebugError::AccessFailed(BAD_ADDRESS_ERRNO));
    }
    let ret_addr = match mem.read_word(fp + 8) {
        Some(w) => w,
        None => {
            return Err(DebugError::AccessFailed(BAD_ADDRESS_ERRNO));
        },
    };
    let prev_fp = match mem.read_word(fp) {
        Some(w) => w,
        None => {
            return Err(DebugError::AccessFailed(BAD_ADDRESS_ERRNO));
        },
    };
    match walk_stack(debug_data, mem, ret_addr, prev_fp, fuel - 1) {
        Err(e) => Err(e),
        Ok(rest) => {
            let ghost rest_pcs = walk_pcs(
                debug_data.functions(),
                debug_data.lines(),
                mem.words(),
                ret_addr,
                prev_fp,
                (fuel - 1) as nat,
            )->Some_0;
            let mut frames: Vec<Frame> = Vec::new();
            frames.push(frame);
            let mut rest_frames = rest;
            frames.append(&mut rest_frames);
            proof {
                let pcs = seq![pc] + rest_pcs;
                assert forall|k: int| 0 <= k < pcs.len() implies frame_matches(
                    frames@[k],
                    debug_data.functions(),
                    debug_data.lines(),
                    pcs[k],
                ) by {
                    if k > 0 {
                        assert(frames@[k] == rest@[k - 1]);
                        assert(pcs[k] == rest_pcs[k - 1]);
                    }
                }
            }
            Ok(frames)
        },
    }
}

/// Backtrace termination.  Over a memory whose saved-frame chain leads from
/// a stop inside one function through its caller to the entry function, the
/// walk yields exactly those three program counters in order — with any
/// fuel of at least three, and regardless of what the frame-pointer chain
/// holds beyond the entry frame (`fp_m` and everything reachable from it
/// are unconstrained).
pub proof fn lemma_walk_three_frames(
    functions: Seq<FunctionEntry>,
    lines: Seq<LineEntry>,
    mem: Seq<(u64, u64)>,
    pc_g: u64,
    fp_g: u64,
    pc_f: u64,
    fp_f: u64,
    pc_m: u64,
    fp_m: u64,
    fuel: nat,
)
    requires
        fuel >= 3,
        resolvable(functions, lines, pc_g),
        resolvable(functions, lines, pc_f),
        resolvable(functions, lines, pc_m),
        function_name_at(functions, pc_g) != Some("main"@),
        function_name_at(functions, pc_f) != Some("main"@),
        function_name_at(functions, pc_m) == Some("main"@),
        fp_g <= u64::MAX - 8,
        fp_f <= u64::MAX - 8,
        word_at(mem, (fp_g + 8) as u64) == Some(pc_f),
        word_at(mem, fp_g) == Some(fp_f),
        word_at(mem, (fp_f + 8) as u64) == Some(pc_m),
        word_at(mem, fp_f) == Some(fp_m),
    ensures
        walk_pcs(functions, lines, mem, pc_g, fp_g, fuel) == Some(seq![pc_g, pc_f, pc_m]),
{
    assert(walk_pcs(functions, lines, mem, pc_m, fp_m, (fuel - 2) as nat) == Some(seq![pc_m]));
    assert(walk_pcs(functions, lines, mem, pc_f, fp_f, (fuel - 1) as nat) == Some(
        seq![pc_f] + seq![pc_m],
    ));
    assert(walk_pcs(functions, lines, mem, pc_g, fp_g, fuel) == Some(
        seq![pc_g] + (seq![pc_f] + seq![pc_m]),
    ));
    assert(seq![pc_g] + (seq![pc_f] + seq![pc_m]) =~= seq![pc_g, pc_f, pc_m]);
}

} // verus!
