//! Disassembly that follows a function to where it transfers control, byte
//! patterns searched in a module's code, and symbol demangling.

use crate::assembly::{address_of, advances, instruction_at, spec_instruction_at, FlowControl};
use std::fmt::Write;
use vstd::prelude::*;
use vstd::string::{StringExecFns, StringSliceAdditionalSpecFns};
use vstd::wrapping::usize_specs::wrapping_add;

verus! {

/// Where a function transfers control: the last instruction-pointer-relative
/// address seen before the transfer, and the target computed from it.
#[derive(Clone, Copy, Debug, PartialEq, Eq)]
pub struct FlowInfo {
    pub rel_addr: usize,
    pub target: usize,
}

/// Whether control leaves the function through this kind of instruction.
pub open spec fn transfers(flow: FlowControl) -> bool {
    flow == FlowControl::Call || flow == FlowControl::IndirectCall || flow
        == FlowControl::IndirectBranch || flow == FlowControl::UnconditionalBranch
}

/// Whether decoding stops at this kind of instruction without a result.
pub open spec fn stops(flow: FlowControl) -> bool {
    flow == FlowControl::Exception || flow == FlowControl::Return
}

/// The transfer found decoding from offset `pos` on, where `rel_addr` is
/// the last nonzero relative address seen so far.
pub open spec fn flow_from(bytes: Seq<u8>, base_ip: usize, pos: nat, rel_addr: usize) -> Option<
    FlowInfo,
>
    decreases bytes.len() - pos,
{
    if pos >= bytes.len() {
        None
    } else {
        let ins = spec_instruction_at(bytes.skip(pos as int), address_of(base_ip as u64, pos));
        let new_rel = ins.ip_rel_memory_address as usize;
        let rel = if new_rel != 0 {
            new_rel
        } else {
            rel_addr
        };
        if transfers(ins.flow_control) {
            Some(FlowInfo { rel_addr: rel, target: wrapping_add(ins.ip as usize, rel) })
        } else if stops(ins.flow_control) || !advances(bytes, pos, ins.len) {
            None
        } else {
            flow_from(bytes, base_ip, (pos + ins.len) as nat, rel)
        }
    }
}

/// Decodes the code in `bytes`, placed at `base_ip`, until it calls, jumps or
/// returns, and reports where a call or jump goes.
pub fn disassemble(bytes: &[u8], base_ip: usize) -> (r: Option<FlowInfo>)
    ensures
        r == flow_from(bytes@, base_ip, 0, 0),
{
    let mut pos: usize = 0;
    let mut rel_addr: usize = 0;
    while pos < bytes.len()
        invariant
            pos <= bytes@.len(),
            flow_from(bytes@, base_ip, pos as nat, rel_addr) == flow_from(bytes@, base_ip, 0, 0),
        decreases bytes@.len() - pos,
    {
        let rest = &bytes[pos..bytes.len()];
        assert(rest@ =~= bytes@.skip(pos as int));
        let instruction = instruction_at(rest, (base_ip as u64).wrapping_add(pos as u64));
        let new_rel_addr = instruction.ip_rel_memory_address as usize;
        if new_rel_addr != 0 {
            rel_addr = new_rel_addr;
        }
        match instruction.flow_control {
            FlowControl::Call
            | FlowControl::IndirectCall
            | FlowControl::IndirectBranch
            | FlowControl::UnconditionalBranch => {
                let target = (instruction.ip as usize).wrapping_add(rel_addr);
                return Some(FlowInfo { rel_addr, target });
            },
            FlowControl::Exception | FlowControl::Return => {
                return None;
            },
            _ => {},
        }
        if instruction.len == 0 || instruction.len > bytes.len() - pos {
            return None;
        }
        pos = pos + instruction.len;
    }
    None
}

/// Where the first match of `pattern` starts in `haystack`, if the pattern
/// compiles and matches.
pub uninterp spec fn regex_match_start(pattern: Seq<char>, haystack: Seq<u8>) -> Option<usize>;

/// `regex::bytes::Regex::new` followed by `Regex::find`: the start of the
/// leftmost-first match of `pattern` in `haystack`, `None` when the pattern
/// does not compile or nothing matches. Claimed: the result is a function of
/// the pattern and the haystack, and a match starts inside the haystack.
#[verifier::external_body]
fn regex_find(pattern: &str, haystack: &[u8]) -> (r: Option<usize>)
    ensures
        r == regex_match_start(pattern@, haystack@),
        r matches Some(k) ==> k <= haystack@.len(),
{
    regex::bytes::Regex::new(pattern).ok()?.find(haystack).map(|found| found.start())
}

/// A byte pattern, a regular expression over bytes.
#[derive(Clone, Copy, Debug)]
pub struct Pattern {
    pub pattern: &'static str,
}

impl Pattern {
    /// The pattern of the given regular expression.
    pub fn new(pattern: &'static str) -> (r: Pattern)
        ensures
            r.pattern@ == pattern@,
    {
        Pattern { pattern }
    }

    /// The bytes from the first match of the pattern on, if it matches.
    pub fn find<'a>(&self, bytes: &'a [u8]) -> (r: Option<&'a [u8]>)
        ensures
            match regex_match_start(self.pattern@, bytes@) {
                Some(k) => r matches Some(found) && found@ == bytes@.skip(k as int),
                None => r is None,
            },
    {
        match regex_find(self.pattern, bytes) {
            Some(start) => {
                let found = &bytes[start..bytes.len()];
                assert(found@ =~= bytes@.skip(start as int));
                Some(found)
            },
            None => None,
        }
    }
}

/// The source of a byte pattern as it is compiled: multi-line, dot matches
/// newline, whitespace ignored, and bytes rather than Unicode.
pub fn flagged_pattern(pattern: &str) -> (r: String)
    ensures
        r@ == "(?msx-u)"@ + pattern@,
{
    let mut source = String::from_str("(?msx-u)");
    source.append(pattern);
    source
}

/// The match of a byte pattern, compiled with its flags, in `bytes`: the
/// bytes from where the first match starts; `None` when nothing matches or
/// the flagged pattern does not compile.
pub fn find_flagged<'a>(pattern: &str, bytes: &'a [u8]) -> (r: Option<&'a [u8]>)
    ensures
        match regex_match_start("(?msx-u)"@ + pattern@, bytes@) {
            Some(k) => r matches Some(found) && found@ == bytes@.skip(k as int),
            None => r is None,
        },
{
    let source = flagged_pattern(pattern);
    match regex_find(source.as_str(), bytes) {
        Some(start) => {
            let found = &bytes[start..bytes.len()];
            assert(found@ =~= bytes@.skip(start as int));
            Some(found)
        },
        None => None,
    }
}

/// A region of code in a module.
#[derive(Debug)]
pub struct Code {
    pub base_addr: usize,
    pub offset: usize,
    pub len: usize,
    pub name: String,
}

impl Code {
    /// The address the region starts at.
    pub fn memory_start(&self) -> (r: usize)
        requires
            self.base_addr + self.offset <= usize::MAX,
        ensures
            r == self.base_addr + self.offset,
    {
        self.base_addr + self.offset
    }

    /// A copy of this region's description.
    pub fn duplicate(&self) -> (r: Code)
        ensures
            r.base_addr == self.base_addr,
            r.offset == self.offset,
            r.len == self.len,
            r.name@ == self.name@,
    {
        Code {
            base_addr: self.base_addr,
            offset: self.offset,
            len: self.len,
            name: self.name.clone(),
        }
    }
}

/// A module: its path and its code regions.
#[derive(Debug)]
pub struct Module {
    pub path: Vec<u8>,
    pub code: Vec<Code>,
}

/// A match of a pattern: the bytes from the match on, and the region holding
/// them.
#[derive(Debug)]
pub struct Search<'a> {
    pub bytes: &'a [u8],
    pub code: Code,
}

/// The index of the first region from `from` on whose memory the pattern
/// matches.
pub open spec fn first_match(pattern: Seq<char>, memories: Seq<Seq<u8>>, from: nat) -> Option<nat>
    decreases memories.len() - from,
{
    if from >= memories.len() {
        None
    } else if regex_match_start(pattern, memories[from as int]) is Some {
        Some(from)
    } else {
        first_match(pattern, memories, from + 1)
    }
}

/// The views of the regions' memories.
pub open spec fn memories_view(memories: Seq<Vec<u8>>) -> Seq<Seq<u8>> {
    memories.map_values(|m: Vec<u8>| m@)
}

impl Module {
    /// Searches the code regions in order for the pattern; `memories[i]`
    /// holds the bytes of region `i`.
    pub fn search<'a>(&self, pattern: &Pattern, memories: &'a Vec<Vec<u8>>) -> (r: Option<Search<'a>>)
        requires
            memories@.len() == self.code@.len(),
        ensures
            match first_match(pattern.pattern@, memories_view(memories@), 0) {
                Some(i) => {
                    &&& r matches Some(s)
                    &&& r->0.code.base_addr == self.code@[i as int].base_addr
                    &&& r->0.code.offset == self.code@[i as int].offset
                    &&& r->0.code.len == self.code@[i as int].len
                    &&& r->0.code.name@ == self.code@[i as int].name@
                    &&& regex_match_start(pattern.pattern@, memories@[i as int]@) is Some
                    &&& r->0.bytes@ == memories@[i as int]@.skip(
                        regex_match_start(pattern.pattern@, memories@[i as int]@)->0 as int,
                    )
                },
                None => r is None,
            },
    {
        let ghost mv = memories_view(memories@);
        let mut i: usize = 0;
        while i < self.code.len()
            invariant
                0 <= i <= self.code@.len(),
                memories@.len() == self.code@.len(),
                mv == memories_view(memories@),
                first_match(pattern.pattern@, mv, i as nat) == first_match(pattern.pattern@, mv, 0),
            decreases self.code@.len() - i,
        {
            let memory = memories[i].as_slice();
            assert(mv[i as int] == memory@);
            match pattern.find(memory) {
                Some(bytes) => {
                    let code = self.code[i].duplicate();
                    return Some(Search { bytes, code });
                },
                None => {},
            }
            i = i + 1;
        }
        None
    }
}

/// The Rust demangling of a symbol, if it is a mangled Rust symbol.
pub uninterp spec fn rustc_demangling(symbol: Seq<char>) -> Option<Seq<char>>;

/// The C++ demangling of a symbol, if it is a mangled C++ symbol.
pub uninterp spec fn cpp_demangling(symbol: Seq<char>) -> Option<Seq<char>>;

/// The view of an optional string.
pub open spec fn opt_string_view(s: Option<String>) -> Option<Seq<char>> {
    match s {
        Some(s) => Some(s@),
        None => None,
    }
}

/// `rustc_demangle::try_demangle` and its `Display`: the demangled form of a
/// Rust symbol, `None` when the symbol is not a mangled Rust symbol (or it
/// cannot be written out). Claimed: the result is a function of the symbol.
#[verifier::external_body]
fn rustc_demangled(symbol: &str) -> (r: Option<String>)
    ensures
        opt_string_view(r) == rustc_demangling(symbol@),
{
    let demangled = rustc_demangle::try_demangle(symbol).ok()?;
    let mut out = String::new();
    write!(out, "{}", demangled).ok()?;
    Some(out)
}

/// `cpp_demangle::Symbol::new` and its `Display`: the demangled form of a C++
/// symbol, `None` when the symbol does not parse (or cannot be written out).
/// Claimed: the result is a function of the symbol.
#[verifier::external_body]
fn cpp_demangled(symbol: &str) -> (r: Option<String>)
    ensures
        opt_string_view(r) == cpp_demangling(symbol@),
{
    let parsed = cpp_demangle::Symbol::new(symbol).ok()?;
    let mut out = String::new();
    write!(out, "{}", parsed).ok()?;
    Some(out)
}

/// Demangles a Rust symbol, or failing that a C++ symbol.
pub fn try_demangle(symbol: &str) -> (r: Option<String>)
    ensures
        opt_string_view(r) == match rustc_demangling(symbol@) {
            Some(s) => Some(s),
            None => cpp_demangling(symbol@),
        },
{
    match rustc_demangled(symbol) {
        Some(s) => Some(s),
        None => cpp_demangled(symbol),
    }
}

/// The bytes of a C string written as a string literal that carries its
/// terminator: the literal is non-empty, ends in a NUL and holds no other.
pub fn cstr(string: &'static str) -> (r: &'static [u8])
    requires
        string.spec_bytes().len() > 0,
        string.spec_bytes().last() == 0,
        forall|i: int| 0 <= i < string.spec_bytes().len() - 1 ==> string.spec_bytes()[i] != 0,
    ensures
        r@ == string.spec_bytes(),
        crate::link::ffi::spec_cstr(r@) == r@,
{
    let r = string.as_bytes();
    proof {
        crate::link::ffi::lemma_first_nul(r@, r@.len() - 1);
        assert(r@.take(r@.len() as int) =~= r@);
    }
    r
}

} // verus!
