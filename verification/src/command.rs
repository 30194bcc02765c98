//! Operator commands and the grammar of their arguments.
//!
//! A location specifier is `*<hex-address>` (with or without a `0x` prefix),
//! a function name, or a decimal source-line number.  The numeric literals
//! are parsed here against exact specifications; name and line lookups are
//! the resolver's.

use vstd::prelude::*;

use crate::strutil::str_eq;

verus! {

pub open spec fn is_hex_digit(c: char) -> bool {
    ('0' as u32 <= c as u32 && c as u32 <= '9' as u32) || ('a' as u32 <= c as u32 && c as u32
        <= 'f' as u32) || ('A' as u32 <= c as u32 && c as u32 <= 'F' as u32)
}

pub open spec fn hex_digit_value(c: char) -> nat {
    if '0' as u32 <= c as u32 && c as u32 <= '9' as u32 {
        (c as u32 - '0' as u32) as nat
    } else if 'a' as u32 <= c as u32 && c as u32 <= 'f' as u32 {
        (c as u32 - 'a' as u32 + 10) as nat
    } else if 'A' as u32 <= c as u32 && c as u32 <= 'F' as u32 {
        (c as u32 - 'A' as u32 + 10) as nat
    } else {
        0
    }
}

pub open spec fn all_hex_digits(s: Seq<char>) -> bool {
    forall|i: int| 0 <= i < s.len() ==> is_hex_digit(s[i])
}

/// The number denoted by a sequence of hex digits, most significant first.
pub open spec fn hex_value(s: Seq<char>) -> nat
    decreases s.len(),
{
    if s.len() == 0 {
        0
    } else {
        hex_value(s.drop_last()) * 16 + hex_digit_value(s.last())
    }
}

pub open spec fn is_dec_digit(c: char) -> bool {
    '0' as u32 <= c as u32 && c as u32 <= '9' as u32
}

pub open spec fn dec_digit_value(c: char) -> nat {
    if is_dec_digit(c) {
        (c as u32 - '0' as u32) as nat
    } else {
        0
    }
}

pub open spec fn all_dec_digits(s: Seq<char>) -> bool {
    forall|i: int| 0 <= i < s.len() ==> is_dec_digit(s[i])
}

/// The number denoted by a sequence of decimal digits, most significant
/// first.
pub open spec fn dec_value(s: Seq<char>) -> nat
    decreases s.len(),
{
    if s.len() == 0 {
        0
    } else {
        dec_value(s.drop_last()) * 10 + dec_digit_value(s.last())
    }
}

/// The address denoted by an address-literal location specifier: a `*`,
/// an optional `0x` or `0X`, and at least one hex digit, whose value fits a
/// machine address.
pub open spec fn address_literal(s: Seq<char>) -> Option<u64> {
    let digits = if s.len() >= 3 && s[1] == '0' && (s[2] == 'x' || s[2] == 'X') {
        s.skip(3)
    } else {
        s.skip(1)
    };
    if s.len() >= 1 && s[0] == '*' && digits.len() >= 1 && all_hex_digits(digits) && hex_value(
        digits,
    ) <= u64::MAX {
        Some(hex_value(digits) as u64)
    } else {
        None
    }
}

/// The number denoted by a line-number literal: at least one decimal digit,
/// fitting a `u64`.
pub open spec fn line_number_literal(s: Seq<char>) -> Option<u64> {
    if s.len() >= 1 && all_dec_digits(s) && dec_value(s) <= u64::MAX {
        Some(dec_value(s) as u64)
    } else {
        None
    }
}

/// A hex prefix of a digit string never denotes more than the whole string.
proof fn lemma_hex_value_prefix(s: Seq<char>, j: int)
    requires
        0 <= j <= s.len(),
    ensures
        hex_value(s.subrange(0, j)) <= hex_value(s),
    decreases s.len() - j,
{
    if j == s.len() {
        assert(s.subrange(0, j) =~= s);
    } else {
        assert(s.subrange(0, j + 1).drop_last() =~= s.subrange(0, j));
        assert(hex_value(s.subrange(0, j)) <= hex_value(s.subrange(0, j + 1)));
        lemma_hex_value_prefix(s, j + 1);
    }
}

/// A decimal prefix of a digit string never denotes more than the whole
/// string.
proof fn lemma_dec_value_prefix(s: Seq<char>, j: int)
    requires
        0 <= j <= s.len(),
    ensures
        dec_value(s.subrange(0, j)) <= dec_value(s),
    decreases s.len() - j,
{
    if j == s.len() {
        assert(s.subrange(0, j) =~= s);
    } else {
        assert(s.subrange(0, j + 1).drop_last() =~= s.subrange(0, j));
        assert(dec_value(s.subrange(0, j)) <= dec_value(s.subrange(0, j + 1)));
        lemma_dec_value_prefix(s, j + 1);
    }
}

/// Classifies `c` as a hex digit and gives its value.
fn hex_digit_of(c: char) -> (r: Option<u8>)
    ensures
        match r {
            Some(v) => is_hex_digit(c) && v as nat == hex_digit_value(c),
            None => !is_hex_digit(c),
        },
{
    let v = c as u32;
    if '0' as u32 <= v && v <= '9' as u32 {
        Some((v - '0' as u32) as u8)
    } else if 'a' as u32 <= v && v <= 'f' as u32 {
        Some((v - 'a' as u32 + 10) as u8)
    } else if 'A' as u32 <= v && v <= 'F' as u32 {
        Some((v - 'A' as u32 + 10) as u8)
    } else {
        None
    }
}

/// Classifies `c` as a decimal digit and gives its value.
fn dec_digit_of(c: char) -> (r: Option<u8>)
    ensures
        match r {
            Some(v) => is_dec_digit(c) && v as nat == dec_digit_value(c),
            None => !is_dec_digit(c),
        },
{
    let v = c as u32;
    if '0' as u32 <= v && v <= '9' as u32 {
        Some((v - '0' as u32) as u8)
    } else {
        None
    }
}

/// Parses an address-literal location specifier.
pub fn parse_address(addr: &str) -> (r: Option<u64>)
    ensures
        r == address_literal(addr@),
{
    let n = addr.unicode_len();
    if n == 0 {
        return None;
    }
    if addr.get_char(0) != '*' {
        return None;
    }
    let start: usize = if n >= 3 {
        let c1 = addr.get_char(1);
        let c2 = addr.get_char(2);
        if c1 == '0' && (c2 == 'x' || c2 == 'X') {
            3
        } else {
            1
        }
    } else {
        1
    };
    let ghost digits = addr@.skip(start as int);
    if start >= n {
        return None;
    }
    let mut value: u64 = 0;
    let mut i: usize = start;
    proof {
        assert(digits.subrange(0, 0) =~= Seq::<char>::empty());
    }
    while i < n
        invariant
            start <= i <= n,
            n == addr@.len(),
            1 <= start < n,
            addr@[0] == '*',
            (addr@.len() >= 3 && addr@[1] == '0' && (addr@[2] == 'x' || addr@[2] == 'X')) <==> (
            start == 3),
            start == 1 || start == 3,
            digits == addr@.skip(start as int),
            all_hex_digits(digits.subrange(0, i - start)),
            value == hex_value(digits.subrange(0, i - start)),
        decreases n - i,
    {
        let c = addr.get_char(i);
        proof {
            assert(digits[i - start] == addr@[i as int]);
        }
        let d = match hex_digit_of(c) {
            Some(d) => d,
            None => {
                proof {
                    assert(!is_hex_digit(digits[i - start]));
                    assert(!all_hex_digits(digits));
                }
                return None;
            },
        };
        let wide: u128 = value as u128 * 16 + d as u128;
        proof {
            assert(digits.subrange(0, i - start + 1).drop_last() =~= digits.subrange(
                0,
                i - start,
            ));
            assert(digits.subrange(0, i - start + 1).last() == digits[i - start]);
        }
        if wide > u64::MAX as u128 {
            proof {
                assert(hex_value(digits.subrange(0, i - start + 1)) == value * 16
                    + hex_digit_value(digits[i - start]));
                lemma_hex_value_prefix(digits, i - start + 1);
                assert(hex_value(digits) > u64::MAX);
            }
            return None;
        }
        value = wide as u64;
        i += 1;
    }
    proof {
        assert(digits.subrange(0, n - start) =~= digits);
    }
    Some(value)
}

/// Parses a line-number literal.
pub fn parse_line_number(s: &str) -> (r: Option<u64>)
    ensures
        r == line_number_literal(s@),
{
    let n = s.unicode_len();
    if n == 0 {
        return None;
    }
    let mut value: u64 = 0;
    let mut i: usize = 0;
    proof {
        assert(s@.subrange(0, 0) =~= Seq::<char>::empty());
    }
    while i < n
        invariant
            0 <= i <= n,
            n == s@.len(),
            all_dec_digits(s@.subrange(0, i as int)),
            value == dec_value(s@.subrange(0, i as int)),
        decreases n - i,
    {
        let c = s.get_char(i);
        let d = match dec_digit_of(c) {
            Some(d) => d,
            None => {
                proof {
                    assert(!is_dec_digit(s@[i as int]));
                    assert(!all_dec_digits(s@));
                }
                return None;
            },
        };
        let wide: u128 = value as u128 * 10 + d as u128;
        proof {
            assert(s@.subrange(0, i + 1).drop_last() =~= s@.subrange(0, i as int));
            assert(s@.subrange(0, i + 1).last() == s@[i as int]);
        }
        if wide > u64::MAX as u128 {
            proof {
                assert(dec_value(s@.subrange(0, i + 1)) == value * 10 + dec_digit_value(
                    s@[i as int],
                ));
                lemma_dec_value_prefix(s@, i + 1);
                assert(dec_value(s@) > u64::MAX);
            }
            return None;
        }
        value = wide as u64;
        i += 1;
    }
    proof {
        assert(s@.subrange(0, n as int) =~= s@);
    }
    Some(value)
}

/// An operator intent, parsed from the tokens of one command line.
pub enum DebuggerCommand {
    Backtrace,
    Breakpoint(String),
    Continue,
    Quit,
    Run(Vec<String>),
}

impl DebuggerCommand {
    /// Token dispatch: the first token picks the command, the rest are its
    /// arguments.  `breakpoint` takes exactly one argument; `run` takes any
    /// number; anything unrecognized is `None`.
    pub fn from_tokens(tokens: &Vec<&str>) -> (r: Option<DebuggerCommand>)
        requires
            tokens@.len() >= 1,
        ensures
            ({
                let head = tokens@[0]@;
                if head == "bt"@ || head == "back"@ || head == "backtrace"@ {
                    r matches Some(c) && c is Backtrace
                } else if head == "b"@ || head == "break"@ || head == "breakpoint"@ {
                    if tokens@.len() == 2 {
                        r matches Some(c) && c matches DebuggerCommand::Breakpoint(a) && a@
                            == tokens@[1]@
                    } else {
                        r is None
                    }
                } else if head == "c"@ || head == "cont"@ || head == "continue"@ {
                    r matches Some(c) && c is Continue
                } else if head == "q"@ || head == "quit"@ {
                    r matches Some(c) && c is Quit
                } else if head == "r"@ || head == "run"@ {
                    r matches Some(c) && c matches DebuggerCommand::Run(args) && args@.len()
                        == tokens@.len() - 1 && (forall|i: int|
                        0 <= i < args@.len() ==> (#[trigger] args@[i])@ == tokens@[i + 1]@)
                } else {
                    r is None
                }
            }),
    {
        let head = tokens[0];
        if str_eq(head, "bt") || str_eq(head, "back") || str_eq(head, "backtrace") {
            Some(DebuggerCommand::Backtrace)
        } else if str_eq(head, "b") || str_eq(head, "break") || str_eq(head, "breakpoint") {
            if tokens.len() != 2 {
                None
            } else {
                Some(DebuggerCommand::Breakpoint(tokens[1].to_owned()))
            }
        } else if str_eq(head, "c") || str_eq(head, "cont") || str_eq(head, "continue") {
            Some(DebuggerCommand::Continue)
        } else if str_eq(head, "q") || str_eq(head, "quit") {
            Some(DebuggerCommand::Quit)
        } else if str_eq(head, "r") || str_eq(head, "run") {
            let mut args: Vec<String> = Vec::new();
            let mut i: usize = 1;
            while i < tokens.len()
                invariant
                    1 <= i <= tokens@.len(),
                    args@.len() == i - 1,
                    forall|j: int| 0 <= j < args@.len() ==> (#[trigger] args@[j])@ == tokens@[j + 1]@,
                decreases tokens@.len() - i,
            {
                args.push(tokens[i].to_owned());
                i += 1;
            }
            Some(DebuggerCommand::Run(args))
        } else {
            None
        }
    }
}

} // verus!
