//! The `monitor` command language: commands are split on ASCII
//! whitespace, numbers are decimal or `0x`-prefixed hexadecimal, and a
//! process is named by its pid or its title id.

use vstd::prelude::*;
use vstd::string::StringSliceAdditionalSpecFns;
use vstd::utf8::valid_utf8;
use crate::utils::str_from_utf8;

verus! {

/// Whitespace as `str::split_ascii_whitespace` splits on: space, tab,
/// line feed, form feed and carriage return.
pub open spec fn is_ascii_ws(c: u8) -> bool {
    c == 0x20 || c == 0x09 || c == 0x0a || c == 0x0c || c == 0x0d
}

/// The tokens of `s` from position `i` on, as `(start, end)` ranges, when
/// `start` is the beginning of the token in progress and `acc` the tokens
/// found before `i`.
pub open spec fn token_ranges_from(
    s: Seq<u8>,
    i: int,
    start: Option<usize>,
    acc: Seq<(usize, usize)>,
) -> Seq<(usize, usize)>
    decreases s.len() - i,
{
    if i >= s.len() {
        match start {
            Some(b) => acc.push((b, s.len() as usize)),
            None => acc,
        }
    } else if is_ascii_ws(s[i]) {
        token_ranges_from(
            s,
            i + 1,
            None,
            match start {
                Some(b) => acc.push((b, i as usize)),
                None => acc,
            },
        )
    } else {
        token_ranges_from(
            s,
            i + 1,
            match start {
                Some(b) => Some(b),
                None => Some(i as usize),
            },
            acc,
        )
    }
}

/// The maximal runs of non-whitespace bytes of `s`, as `(start, end)`
/// ranges, in order.
pub open spec fn token_ranges(s: Seq<u8>) -> Seq<(usize, usize)> {
    token_ranges_from(s, 0, None, Seq::empty())
}

/// The ranges of the whitespace-separated tokens of `s`.
pub fn tokenize(s: &[u8]) -> (t: Vec<(usize, usize)>)
    ensures
        t@ == token_ranges(s@),
{
    let mut acc: Vec<(usize, usize)> = Vec::new();
    let mut start: Option<usize> = None;
    let mut i: usize = 0;
    while i < s.len()
        invariant
            i <= s@.len(),
            token_ranges(s@) == token_ranges_from(s@, i as int, start, acc@),
        decreases s@.len() - i,
    {
        let c = s[i];
        if c == 0x20 || c == 0x09 || c == 0x0a || c == 0x0c || c == 0x0d {
            if let Some(b) = start {
                acc.push((b, i));
            }
            start = None;
        } else if start.is_none() {
            start = Some(i);
        }
        i = i + 1;
    }
    if let Some(b) = start {
        acc.push((b, s.len()));
    }
    acc
}

/// Value of digit `c` in base `radix` (`0-9`, then `a-z` or `A-Z` from 10
/// on), if it is one.
pub open spec fn digit_of(c: u8, radix: nat) -> Option<nat> {
    let d: int = if 0x30 <= c <= 0x39 {
        c - 0x30
    } else if 0x61 <= c <= 0x7a {
        c - 0x61 + 10
    } else if 0x41 <= c <= 0x5a {
        c - 0x41 + 10
    } else {
        radix as int
    };
    if d < radix {
        Some(d as nat)
    } else {
        None
    }
}

/// The number spelled by the digits `d` in base `radix`, if all are digits.
pub open spec fn digits_value(d: Seq<u8>, radix: nat) -> Option<nat>
    decreases d.len(),
{
    if d.len() == 0 {
        Some(0)
    } else {
        match (digits_value(d.drop_last(), radix), digit_of(d.last(), radix)) {
            (Some(v), Some(x)) => Some(v * radix + x),
            _ => None,
        }
    }
}

/// What `u32::from_str_radix` accepts: an optional `+`, then at least one
/// digit, for a value that fits in 32 bits.
pub open spec fn spec_parse_u32(s: Seq<u8>, radix: nat) -> Option<u32> {
    if s.len() == 0 {
        None
    } else {
        let d = if s[0] == 0x2b {
            s.drop_first()
        } else {
            s
        };
        if d.len() == 0 {
            None
        } else {
            match digits_value(d, radix) {
                Some(v) => if v <= u32::MAX {
                    Some(v as u32)
                } else {
                    None
                },
                None => None,
            }
        }
    }
}

/// A prefix whose value is too large for 32 bits keeps every digit string
/// that extends it too large.
proof fn lemma_digits_grow(d: Seq<u8>, i: int, radix: nat)
    requires
        0 <= i <= d.len(),
        radix >= 1,
        digits_value(d.subrange(0, i), radix) is Some,
        digits_value(d, radix) is Some,
    ensures
        digits_value(d, radix)->Some_0 >= digits_value(d.subrange(0, i), radix)->Some_0,
    decreases d.len() - i,
{
    if i == d.len() {
        assert(d.subrange(0, i) =~= d);
    } else {
        let p = d.subrange(0, i + 1);
        assert(p.drop_last() =~= d.subrange(0, i));
        lemma_digits_some_prefix(d, i + 1, radix);
        lemma_digits_grow(d, i + 1, radix);
        let v = digits_value(d.subrange(0, i), radix)->Some_0;
        let x = digit_of(p.last(), radix)->Some_0;
        assert(v * radix + x >= v) by (nonlinear_arith)
            requires
                radix >= 1,
        ;
    }
}

/// Every prefix of a digit string is a digit string.
proof fn lemma_digits_some_prefix(d: Seq<u8>, i: int, radix: nat)
    requires
        0 <= i <= d.len(),
        digits_value(d, radix) is Some,
    ensures
        digits_value(d.subrange(0, i), radix) is Some,
    decreases d.len() - i,
{
    if i < d.len() {
        lemma_digits_some_prefix(d, i + 1, radix);
        assert(d.subrange(0, i + 1).drop_last() =~= d.subrange(0, i));
    } else {
        assert(d.subrange(0, i) =~= d);
    }
}

/// The value of the digit `c` in base `radix`.
fn digit_value(c: u8, radix: u32) -> (r: Option<u32>)
    requires
        2 <= radix <= 36,
    ensures
        match digit_of(c, radix as nat) {
            Some(x) => r == Some(x as u32),
            None => r is None,
        },
{
    let d: u32 = if 0x30 <= c && c <= 0x39 {
        (c - 0x30) as u32
    } else if 0x61 <= c && c <= 0x7a {
        (c - 0x61 + 10) as u32
    } else if 0x41 <= c && c <= 0x5a {
        (c - 0x41 + 10) as u32
    } else {
        radix
    };
    if d < radix {
        Some(d)
    } else {
        None
    }
}

/// The digits `d` in base `radix` as a 32-bit value: `None` when one is
/// not a digit or the value does not fit.
fn parse_digits(d: &[u8], radix: u32) -> (r: Option<u32>)
    requires
        2 <= radix <= 36,
    ensures
        r == (match digits_value(d@, radix as nat) {
            Some(v) => if v <= u32::MAX {
                Some(v as u32)
            } else {
                None
            },
            None => None,
        }),
{
    let mut v: u32 = 0;
    let mut i: usize = 0;
    while i < d.len()
        invariant
            i <= d@.len(),
            2 <= radix <= 36,
            digits_value(d@.subrange(0, i as int), radix as nat) == Some(v as nat),
        decreases d@.len() - i,
    {
        let x = match digit_value(d[i], radix) {
            Some(x) => x,
            None => {
                proof {
                    if digits_value(d@, radix as nat) is Some {
                        lemma_digits_some_prefix(d@, i + 1, radix as nat);
                    }
                }
                return None;
            },
        };
        proof {
            assert(d@.subrange(0, i + 1).drop_last() =~= d@.subrange(0, i as int));
        }
        let next = match v.checked_mul(radix) {
            Some(m) => m.checked_add(x),
            None => None,
        };
        match next {
            Some(n) => {
                v = n;
            },
            None => {
                proof {
                    if digits_value(d@, radix as nat) is Some {
                        lemma_digits_grow(d@, i + 1, radix as nat);
                    }
                }
                return None;
            },
        }
        i = i + 1;
    }
    assert(d@.subrange(0, i as int) =~= d@);
    Some(v)
}

/// `u32::from_str_radix(s, radix)` as an `Option`: an optional `+` and
/// at least one digit, for a value that fits.
pub fn parse_u32(s: &[u8], radix: u32) -> (r: Option<u32>)
    requires
        2 <= radix <= 36,
    ensures
        r == spec_parse_u32(s@, radix as nat),
{
    if s.len() == 0 {
        return None;
    }
    let d = if s[0] == 0x2b {
        vstd::slice::slice_subrange(s, 1, s.len())
    } else {
        s
    };
    proof {
        if s@[0] == 0x2b {
        }
    }
    if d.len() == 0 {
        return None;
    }
    parse_digits(d, radix)
}

/// A number as the monitor commands take it: hexadecimal after a `0x`
/// prefix, decimal otherwise.
pub open spec fn spec_parse_num(s: Seq<u8>) -> Option<u32> {
    if s.len() >= 2 && s[0] == 0x30 && s[1] == 0x78 {
        spec_parse_u32(s.subrange(2, s.len() as int), 16)
    } else {
        spec_parse_u32(s, 10)
    }
}

/// The number written in `s`: hexadecimal after `0x`, decimal otherwise.
pub fn parse_num_bytes(s: &[u8]) -> (r: Option<u32>)
    ensures
        r == spec_parse_num(s@),
{
    if s.len() >= 2 && s[0] == 0x30 && s[1] == 0x78 {
        parse_u32(vstd::slice::slice_subrange(s, 2, s.len()), 16)
    } else {
        parse_u32(s, 10)
    }
}

/// The number written in `s`: hexadecimal after `0x`, decimal otherwise.
pub fn parse_num(s: &str) -> (r: Option<u32>)
    ensures
        r == spec_parse_num(s.spec_bytes()),
{
    parse_num_bytes(s.as_bytes())
}

/// What `i32`'s `FromStr` accepts: an optional sign, then at least one
/// decimal digit, for a value that fits in 32 signed bits.
pub open spec fn spec_parse_i32(s: Seq<u8>) -> Option<i32> {
    if s.len() == 0 {
        None
    } else {
        let neg = s[0] == 0x2d;
        let d = if s[0] == 0x2b || s[0] == 0x2d {
            s.drop_first()
        } else {
            s
        };
        if d.len() == 0 {
            None
        } else {
            match digits_value(d, 10) {
                Some(v) => if neg && v <= 0x8000_0000 {
                    Some((-v) as i32)
                } else if !neg && v <= 0x7fff_ffff {
                    Some(v as i32)
                } else {
                    None
                },
                None => None,
            }
        }
    }
}

/// The pid written in `s` in decimal, with an optional sign.
pub fn parse_pid(s: &[u8]) -> (r: Option<i32>)
    ensures
        r == spec_parse_i32(s@),
{
    if s.len() == 0 {
        return None;
    }
    let neg = s[0] == 0x2d;
    let d = if s[0] == 0x2b || s[0] == 0x2d {
        vstd::slice::slice_subrange(s, 1, s.len())
    } else {
        s
    };
    proof {
        if s@[0] == 0x2b || s@[0] == 0x2d {
        }
    }
    if d.len() == 0 {
        return None;
    }
    match parse_digits(d, 10) {
        None => {
            proof {
                if digits_value(d@, 10) is Some {
                }
            }
            None
        },
        Some(v) => {
            if neg {
                if v <= 0x8000_0000 {
                    if v == 0x8000_0000 {
                        Some(i32::MIN)
                    } else {
                        Some(-(v as i32))
                    }
                } else {
                    None
                }
            } else if v <= 0x7fff_ffff {
                Some(v as i32)
            } else {
                None
            }
        },
    }
}

/// A parsed monitor command. Token arguments are `(start, end)` byte
/// ranges of the command text.
#[derive(Debug, Clone, Copy, PartialEq, Eq)]
pub enum MonitorCmd {
    /// The command is not valid UTF-8.
    NotUtf8,
    /// Print the command list.
    Help,
    /// Dump the session's internals.
    Dump,
    /// List the processes.
    LsProcess,
    /// List the threads of the process named by the argument, or of the
    /// attached process.
    LsThread(Option<(usize, usize)>),
    /// List the modules of the process named by the argument, or of the
    /// attached process.
    LsModule(Option<(usize, usize)>),
    /// `ls` without a known subcommand.
    LsUsage,
    /// `info` without a known subcommand.
    InfoUsage,
    /// `nid` without an argument.
    NidUsage,
    /// `nid` with an argument that is not a number.
    NidInvalid(usize, usize),
    /// Look up a function NID.
    Nid(u32),
    /// `peek` without an address, or with a flag other than `S`.
    PeekUsage,
    /// `peek` with an address that is not a number.
    PeekInvalid,
    /// Read the physical word at `addr`, through the secure processor when
    /// `secure`.
    Peek { addr: u32, secure: bool },
    /// `poke` without an address and a value.
    PokeUsage,
    /// `poke` with an address or value that is not a number.
    PokeInvalid,
    /// `poke` with a flag other than `S`.
    PokeFlagUsage,
    /// Write `value` to the physical word at `dst`, through the secure
    /// processor when `secure`.
    Poke { dst: u32, value: u32, secure: bool },
}

/// Number of tokens of `s`.
pub open spec fn ntok(s: Seq<u8>) -> int {
    token_ranges(s).len() as int
}

/// Token `k` of `s`.
pub open spec fn tok(s: Seq<u8>, k: int) -> Seq<u8> {
    s.subrange(token_ranges(s)[k].0 as int, token_ranges(s)[k].1 as int)
}

/// Token `k` of `s` exists and reads `word`.
pub open spec fn tok_is(s: Seq<u8>, k: int, word: &str) -> bool {
    k < ntok(s) && tok(s, k) == word.spec_bytes()
}

/// The range of token `k` of `s`, if there is one.
pub open spec fn range_at(s: Seq<u8>, k: int) -> Option<(usize, usize)> {
    if k < ntok(s) {
        Some(token_ranges(s)[k])
    } else {
        None
    }
}

/// The optional `S` flag at token `k`: absent is `false`, `S` is `true`,
/// anything else is malformed (`None`).
pub open spec fn secure_flag(s: Seq<u8>, k: int) -> Option<bool> {
    if k >= ntok(s) {
        Some(false)
    } else if tok_is(s, k, "S") {
        Some(true)
    } else {
        None
    }
}

/// The monitor command written in `s`.
pub open spec fn spec_monitor_cmd(s: Seq<u8>) -> MonitorCmd {
    if !valid_utf8(s) {
        MonitorCmd::NotUtf8
    } else if ntok(s) == 0 {
        MonitorCmd::Help
    } else if tok_is(s, 0, "dump") {
        MonitorCmd::Dump
    } else if tok_is(s, 0, "ps") {
        MonitorCmd::LsProcess
    } else if tok_is(s, 0, "ls") {
        if tok_is(s, 1, "process") {
            MonitorCmd::LsProcess
        } else if tok_is(s, 1, "thread") {
            MonitorCmd::LsThread(range_at(s, 2))
        } else if tok_is(s, 1, "module") {
            MonitorCmd::LsModule(range_at(s, 2))
        } else {
            MonitorCmd::LsUsage
        }
    } else if tok_is(s, 0, "info") {
        if tok_is(s, 1, "process") {
            MonitorCmd::LsProcess
        } else if tok_is(s, 1, "thread") {
            MonitorCmd::LsThread(range_at(s, 2))
        } else {
            MonitorCmd::InfoUsage
        }
    } else if tok_is(s, 0, "nid") {
        if ntok(s) < 2 {
            MonitorCmd::NidUsage
        } else {
            match spec_parse_num(tok(s, 1)) {
                Some(v) => MonitorCmd::Nid(v),
                None => MonitorCmd::NidInvalid(token_ranges(s)[1].0, token_ranges(s)[1].1),
            }
        }
    } else if tok_is(s, 0, "peek") {
        if ntok(s) < 2 {
            MonitorCmd::PeekUsage
        } else {
            match spec_parse_num(tok(s, 1)) {
                None => MonitorCmd::PeekInvalid,
                Some(addr) => match secure_flag(s, 2) {
                    Some(secure) => MonitorCmd::Peek { addr, secure },
                    None => MonitorCmd::PeekUsage,
                },
            }
        }
    } else if tok_is(s, 0, "poke") {
        if ntok(s) < 3 {
            MonitorCmd::PokeUsage
        } else {
            match (spec_parse_num(tok(s, 1)), spec_parse_num(tok(s, 2))) {
                (Some(dst), Some(value)) => match secure_flag(s, 3) {
                    Some(secure) => MonitorCmd::Poke { dst, value, secure },
                    None => MonitorCmd::PokeFlagUsage,
                },
                _ => MonitorCmd::PokeInvalid,
            }
        }
    } else {
        MonitorCmd::Help
    }
}

/// The bytes of token `k` of `cmd`, given its token ranges `toks`.
fn token_bytes<'a>(cmd: &'a [u8], toks: &Vec<(usize, usize)>, k: usize) -> (t: &'a [u8])
    requires
        toks@ == token_ranges(cmd@),
        k < toks@.len(),
    ensures
        t@ == tok(cmd@, k as int),
{
    let len = cmd.len();
    proof {
        assert(cmd@.len() == len);
        lemma_token_ranges_bounds(cmd@);
    }
    let (b, e) = toks[k];
    vstd::slice::slice_subrange(cmd, b, e)
}

/// Whether token `k` of `cmd` exists and reads `word`.
fn token_is(cmd: &[u8], toks: &Vec<(usize, usize)>, k: usize, word: &str) -> (b: bool)
    requires
        toks@ == token_ranges(cmd@),
    ensures
        b == tok_is(cmd@, k as int, word),
{
    if k >= toks.len() {
        return false;
    }
    let t = token_bytes(cmd, toks, k);
    let w = word.as_bytes();
    if t.len() != w.len() {
        return false;
    }
    let mut i: usize = 0;
    while i < t.len()
        invariant
            i <= t@.len(),
            t@.len() == w@.len(),
            t@ == tok(cmd@, k as int),
            w@ == word.spec_bytes(),
            k < ntok(cmd@),
            forall|j: int| 0 <= j < i ==> t@[j] == w@[j],
        decreases t@.len() - i,
    {
        if t[i] != w[i] {
            return false;
        }
        i = i + 1;
    }
    assert(t@ =~= w@);
    true
}

/// Every token range lies inside `s` and is non-empty.
pub proof fn lemma_token_ranges_bounds(s: Seq<u8>)
    requires
        s.len() <= usize::MAX,
    ensures
        forall|k: int|
            0 <= k < token_ranges(s).len() ==> (#[trigger] token_ranges(s)[k]).0 < token_ranges(s)[k].1
                <= s.len(),
{
    lemma_token_ranges_from_bounds(s, 0, None, Seq::empty());
}

proof fn lemma_token_ranges_from_bounds(
    s: Seq<u8>,
    i: int,
    start: Option<usize>,
    acc: Seq<(usize, usize)>,
)
    requires
        0 <= i <= s.len(),
        s.len() <= usize::MAX,
        forall|k: int| 0 <= k < acc.len() ==> (#[trigger] acc[k]).0 < acc[k].1 <= s.len(),
        start matches Some(b) ==> b < i,
    ensures
        forall|k: int|
            0 <= k < token_ranges_from(s, i, start, acc).len() ==> (#[trigger] token_ranges_from(
                s,
                i,
                start,
                acc,
            )[k]).0 < token_ranges_from(s, i, start, acc)[k].1 <= s.len(),
    decreases s.len() - i,
{
    if i >= s.len() {
        if let Some(b) = start {
            let r = acc.push((b, s.len() as usize));
            assert forall|k: int| 0 <= k < r.len() implies (#[trigger] r[k]).0 < r[k].1 <= s.len() by {
                if k < acc.len() {
                }
            }
        }
    } else {
        let acc2 = if is_ascii_ws(s[i]) {
            match start {
                Some(b) => acc.push((b, i as usize)),
                None => acc,
            }
        } else {
            acc
        };
        let start2 = if is_ascii_ws(s[i]) {
            None
        } else {
            match start {
                Some(b) => Some(b),
                None => Some(i as usize),
            }
        };
        if is_ascii_ws(s[i]) && start is Some {
            assert forall|k: int| 0 <= k < acc2.len() implies (#[trigger] acc2[k]).0 < acc2[k].1 <= s.len() by {
                if k < acc.len() {
                }
            }
        }
        lemma_token_ranges_from_bounds(s, i + 1, start2, acc2);
        assert(token_ranges_from(s, i, start, acc) == token_ranges_from(s, i + 1, start2, acc2));
    }
}

/// Parses a monitor command: the command word, then its arguments.
pub fn parse_monitor_cmd(cmd: &[u8]) -> (c: MonitorCmd)
    ensures
        c == spec_monitor_cmd(cmd@),
{
    if str_from_utf8(cmd).is_none() {
        return MonitorCmd::NotUtf8;
    }
    let toks = tokenize(cmd);
    let n = toks.len();
    if n == 0 {
        return MonitorCmd::Help;
    }
    if token_is(cmd, &toks, 0, "dump") {
        MonitorCmd::Dump
    } else if token_is(cmd, &toks, 0, "ps") {
        MonitorCmd::LsProcess
    } else if token_is(cmd, &toks, 0, "ls") {
        if token_is(cmd, &toks, 1, "process") {
            MonitorCmd::LsProcess
        } else if token_is(cmd, &toks, 1, "thread") {
            MonitorCmd::LsThread(if n > 2 { Some(toks[2]) } else { None })
        } else if token_is(cmd, &toks, 1, "module") {
            MonitorCmd::LsModule(if n > 2 { Some(toks[2]) } else { None })
        } else {
            MonitorCmd::LsUsage
        }
    } else if token_is(cmd, &toks, 0, "info") {
        if token_is(cmd, &toks, 1, "process") {
            MonitorCmd::LsProcess
        } else if token_is(cmd, &toks, 1, "thread") {
            MonitorCmd::LsThread(if n > 2 { Some(toks[2]) } else { None })
        } else {
            MonitorCmd::InfoUsage
        }
    } else if token_is(cmd, &toks, 0, "nid") {
        if n < 2 {
            MonitorCmd::NidUsage
        } else {
            match parse_num_bytes(token_bytes(cmd, &toks, 1)) {
                Some(v) => MonitorCmd::Nid(v),
                None => MonitorCmd::NidInvalid(toks[1].0, toks[1].1),
            }
        }
    } else if token_is(cmd, &toks, 0, "peek") {
        if n < 2 {
            MonitorCmd::PeekUsage
        } else {
            match parse_num_bytes(token_bytes(cmd, &toks, 1)) {
                None => MonitorCmd::PeekInvalid,
                Some(addr) => {
                    if n < 3 {
                        MonitorCmd::Peek { addr, secure: false }
                    } else if token_is(cmd, &toks, 2, "S") {
                        MonitorCmd::Peek { addr, secure: true }
                    } else {
                        MonitorCmd::PeekUsage
                    }
                },
            }
        }
    } else if token_is(cmd, &toks, 0, "poke") {
        if n < 3 {
            MonitorCmd::PokeUsage
        } else {
            let dst = parse_num_bytes(token_bytes(cmd, &toks, 1));
            let value = parse_num_bytes(token_bytes(cmd, &toks, 2));
            match (dst, value) {
                (Some(dst), Some(value)) => {
                    if n < 4 {
                        MonitorCmd::Poke { dst, value, secure: false }
                    } else if token_is(cmd, &toks, 3, "S") {
                        MonitorCmd::Poke { dst, value, secure: true }
                    } else {
                        MonitorCmd::PokeFlagUsage
                    }
                },
                _ => MonitorCmd::PokeInvalid,
            }
        }
    } else {
        MonitorCmd::Help
    }
}

/// `ls thread` and `ls module` take an optional process argument: the
/// command names the third token when there is one and no argument
/// otherwise (the attached process is meant), whatever else follows.
pub proof fn law_ls_listing_argument_is_optional(s: Seq<u8>)
    requires
        valid_utf8(s),
        ntok(s) >= 2,
        tok(s, 0) == seq![0x6cu8, 0x73u8],
    ensures
        tok(s, 1) == seq![0x74u8, 0x68u8, 0x72u8, 0x65u8, 0x61u8, 0x64u8] ==> spec_monitor_cmd(s)
            == MonitorCmd::LsThread(if ntok(s) > 2 {
            Some(token_ranges(s)[2])
        } else {
            None
        }),
        tok(s, 1) == seq![0x6du8, 0x6fu8, 0x64u8, 0x75u8, 0x6cu8, 0x65u8] ==> spec_monitor_cmd(s)
            == MonitorCmd::LsModule(if ntok(s) > 2 {
            Some(token_ranges(s)[2])
        } else {
            None
        }),
{
    reveal_strlit("dump");
    reveal_strlit("ps");
    reveal_strlit("ls");
    reveal_strlit("process");
    reveal_strlit("thread");
    reveal_strlit("module");
    vstd::string::is_ascii_spec_bytes("dump");
    vstd::string::is_ascii_spec_bytes("ps");
    vstd::string::is_ascii_spec_bytes("ls");
    vstd::string::is_ascii_spec_bytes("process");
    vstd::string::is_ascii_spec_bytes("thread");
    vstd::string::is_ascii_spec_bytes("module");
    assert("ls".spec_bytes() =~= seq![0x6cu8, 0x73u8]);
    assert("thread".spec_bytes() =~= seq![0x74u8, 0x68u8, 0x72u8, 0x65u8, 0x61u8, 0x64u8]);
    assert("module".spec_bytes() =~= seq![0x6du8, 0x6fu8, 0x64u8, 0x75u8, 0x6cu8, 0x65u8]);
    assert("dump".spec_bytes() != tok(s, 0)) by {
        assert("dump".spec_bytes().len() == 4);
    }
    assert("ps".spec_bytes() != tok(s, 0)) by {
        assert("ps".spec_bytes()[0] == 0x70u8);
    }
    if tok(s, 1) == seq![0x74u8, 0x68u8, 0x72u8, 0x65u8, 0x61u8, 0x64u8]
        || tok(s, 1) == seq![0x6du8, 0x6fu8, 0x64u8, 0x75u8, 0x6cu8, 0x65u8] {
        assert("process".spec_bytes() != tok(s, 1)) by {
            assert("process".spec_bytes().len() == 7);
        }
    }
    if tok(s, 1) == seq![0x6du8, 0x6fu8, 0x64u8, 0x75u8, 0x6cu8, 0x65u8] {
        assert("thread".spec_bytes() != tok(s, 1)) by {
            assert("thread".spec_bytes()[0] == 0x74u8);
        }
    }
}

} // verus!
