//! The debugger's view of the external symbol resolver.
//!
//! Symbol metadata parsing is a collaborator, not part of the core: the
//! core only consumes lookups between virtual addresses and source-level
//! names.  The tables are held here as plain values so every lookup the
//! core performs is verified against an exact first-match (for names and
//! line numbers) or nearest-preceding-entry (for addresses in the line
//! table) semantics.

use vstd::prelude::*;

use crate::strutil::str_eq;

verus! {

/// One function of the target: its name and the half-open virtual address
/// range `[addr, addr + size)` of its code.
pub struct FunctionEntry {
    pub name: String,
    pub addr: u64,
    pub size: u64,
}

/// One row of the line table: the address where the code compiled from the
/// given source line begins.
pub struct LineEntry {
    pub file: String,
    pub number: u64,
    pub addr: u64,
}

/// A source location: file and line number.
pub struct Location {
    pub file: String,
    pub number: u64,
}

/// Address of the first entry named `name`.
pub open spec fn function_addr_of(entries: Seq<FunctionEntry>, name: Seq<char>) -> Option<u64>
    decreases entries.len(),
{
    if entries.len() == 0 {
        None
    } else if entries[0].name@ == name {
        Some(entries[0].addr)
    } else {
        function_addr_of(entries.drop_first(), name)
    }
}

/// Address of the first entry for source line `number`.
pub open spec fn line_addr_of(entries: Seq<LineEntry>, number: u64) -> Option<u64>
    decreases entries.len(),
{
    if entries.len() == 0 {
        None
    } else if entries[0].number == number {
        Some(entries[0].addr)
    } else {
        line_addr_of(entries.drop_first(), number)
    }
}

/// Name of the first function whose address range contains `addr`.
pub open spec fn function_name_at(entries: Seq<FunctionEntry>, addr: u64) -> Option<Seq<char>>
    decreases entries.len(),
{
    if entries.len() == 0 {
        None
    } else if entries[0].addr <= addr && addr < entries[0].addr + entries[0].size {
        Some(entries[0].name@)
    } else {
        function_name_at(entries.drop_first(), addr)
    }
}

/// The line-table entry governing `addr`: among the entries at or below
/// `addr`, the one with the greatest address, and the earliest such entry
/// when several share it.
pub open spec fn line_entry_at(entries: Seq<LineEntry>, addr: u64) -> Option<LineEntry>
    decreases entries.len(),
{
    if entries.len() == 0 {
        None
    } else {
        let rest = line_entry_at(entries.drop_last(), addr);
        let last = entries.last();
        match rest {
            None => if last.addr <= addr {
                Some(last)
            } else {
                None
            },
            Some(e) => if last.addr <= addr && last.addr > e.addr {
                Some(last)
            } else {
                Some(e)
            },
        }
    }
}

/// The symbol tables of one target executable.
pub struct Resolver {
    functions: Vec<FunctionEntry>,
    lines: Vec<LineEntry>,
}

impl Resolver {
    pub closed spec fn functions(&self) -> Seq<FunctionEntry> {
        self.functions@
    }

    pub closed spec fn lines(&self) -> Seq<LineEntry> {
        self.lines@
    }

    pub fn new(functions: Vec<FunctionEntry>, lines: Vec<LineEntry>) -> (r: Resolver)
        ensures
            r.functions() == functions@,
            r.lines() == lines@,
    {
        Resolver { functions, lines }
    }

    /// Address of the named function, from the first matching entry.
    pub fn get_addr_for_function(&self, name: &str) -> (r: Option<u64>)
        ensures
            r == function_addr_of(self.functions(), name@),
    {
        let mut i: usize = 0;
        proof {
            assert(self.functions().skip(0) =~= self.functions());
        }
        while i < self.functions.len()
            invariant
                i <= self.functions().len(),
                function_addr_of(self.functions(), name@) == function_addr_of(
                    self.functions().skip(i as int),
                    name@,
                ),
            decreases self.functions().len() - i,
        {
            proof {
                assert(self.functions().skip(i as int)[0] == self.functions()[i as int]);
            }
            if str_eq(self.functions[i].name.as_str(), name) {
                return Some(self.functions[i].addr);
            }
            proof {
                assert(self.functions().skip(i as int).drop_first() =~= self.functions().skip(
                    i as int + 1,
                ));
            }
            i += 1;
        }
        proof {
            assert(self.functions().skip(i as int) =~= Seq::<FunctionEntry>::empty());
        }
        None
    }

    /// Address where the code for source line `number` begins, from the
    /// first matching line-table entry.
    pub fn get_addr_for_line(&self, number: u64) -> (r: Option<u64>)
        ensures
            r == line_addr_of(self.lines(), number),
    {
        let mut i: usize = 0;
        proof {
            assert(self.lines().skip(0) =~= self.lines());
        }
        while i < self.lines.len()
            invariant
                i <= self.lines().len(),
                line_addr_of(self.lines(), number) == line_addr_of(
                    self.lines().skip(i as int),
                    number,
                ),
            decreases self.lines().len() - i,
        {
            proof {
                assert(self.lines().skip(i as int)[0] == self.lines()[i as int]);
            }
            if self.lines[i].number == number {
                return Some(self.lines[i].addr);
            }
            proof {
                assert(self.lines().skip(i as int).drop_first() =~= self.lines().skip(
                    i as int + 1,
                ));
            }
            i += 1;
        }
        proof {
            assert(self.lines().skip(i as int) =~= Seq::<LineEntry>::empty());
        }
        None
    }

    /// Name of the function whose code contains `addr`.
    pub fn get_function_from_addr(&self, addr: u64) -> (r: Option<String>)
        ensures
            match r {
                Some(name) => function_name_at(self.functions(), addr) == Some(name@),
                None => function_name_at(self.functions(), addr) is None,
            },
    {
        let mut i: usize = 0;
        proof {
            assert(self.functions().skip(0) =~= self.functions());
        }
        while i < self.functions.len()
            invariant
                i <= self.functions().len(),
                function_name_at(self.functions(), addr) == function_name_at(
                    self.functions().skip(i as int),
                    addr,
                ),
            decreases self.functions().len() - i,
        {
            proof {
                assert(self.functions().skip(i as int)[0] == self.functions()[i as int]);
            }
            let e = &self.functions[i];
            if e.addr <= addr && addr - e.addr < e.size {
                return Some(e.name.clone());
            }
            proof {
                assert(self.functions().skip(i as int).drop_first() =~= self.functions().skip(
                    i as int + 1,
                ));
            }
            i += 1;
        }
        proof {
            assert(self.functions().skip(i as int) =~= Seq::<FunctionEntry>::empty());
        }
        None
    }

    /// Source location governing `addr`, from the nearest preceding
    /// line-table entry.
    pub fn get_line_from_addr(&self, addr: u64) -> (r: Option<Location>)
        ensures
            match line_entry_at(self.lines(), addr) {
                Some(e) => r matches Some(loc) && loc.file@ == e.file@ && loc.number == e.number,
                None => r is None,
            },
    {
        let mut best: Option<usize> = None;
        let mut i: usize = 0;
        while i < self.lines.len()
            invariant
                i <= self.lines().len(),
                match best {
                    None => line_entry_at(self.lines().take(i as int), addr) is None,
                    Some(b) => b < i && line_entry_at(self.lines().take(i as int), addr)
                        == Some(self.lines()[b as int]),
                },
            decreases self.lines().len() - i,
        {
            proof {
                assert(self.lines().take(i as int + 1).drop_last() =~= self.lines().take(
                    i as int,
                ));
                assert(self.lines().take(i as int + 1).last() == self.lines()[i as int]);
            }
            let better = if self.lines[i].addr <= addr {
                match best {
                    None => true,
                    Some(b) => self.lines[i].addr > self.lines[b].addr,
                }
            } else {
                false
            };
            if better {
                best = Some(i);
            }
            i += 1;
        }
        proof {
            assert(self.lines().take(i as int) =~= self.lines());
        }
        match best {
            None => None,
            Some(b) => Some(
                Location { file: self.lines[b].file.clone(), number: self.lines[b].number },
            ),
        }
    }
}

} // verus!
