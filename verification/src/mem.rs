//! Memory helpers: resolving the address an instruction refers to, and
//! telling which shared library an address belongs to.

use crate::assembly::{address_of, advances, instruction_at, spec_instruction_at};
use crate::paths::{path_file_name, spec_file_name};
use findshlibs::SharedLibrary;
use vstd::prelude::*;

verus! {

/// The address of the first instruction-pointer-relative memory operand from
/// offset `pos` on.
pub open spec fn abs_addr_from(bytes: Seq<u8>, ip: u64, pos: nat) -> Option<u64>
    decreases bytes.len() - pos,
{
    if pos >= bytes.len() {
        None
    } else {
        let ins = spec_instruction_at(bytes.skip(pos as int), address_of(ip, pos));
        if ins.is_ip_rel_memory_operand {
            Some(ins.ip_rel_memory_address)
        } else if !advances(bytes, pos, ins.len) {
            None
        } else {
            abs_addr_from(bytes, ip, (pos + ins.len) as nat)
        }
    }
}

/// Searches `bytes`, placed at address `start_ip`, for the next instruction
/// that makes use of a relative address, and returns the absolute address it
/// resolves to.
pub fn next_abs_addr(bytes: &[u8], start_ip: u64) -> (r: Option<u64>)
    ensures
        r == abs_addr_from(bytes@, start_ip, 0),
{
    let mut pos: usize = 0;
    while pos < bytes.len()
        invariant
            pos <= bytes@.len(),
            abs_addr_from(bytes@, start_ip, pos as nat) == abs_addr_from(bytes@, start_ip, 0),
        decreases bytes@.len() - pos,
    {
        let rest = &bytes[pos..bytes.len()];
        assert(rest@ =~= bytes@.skip(pos as int));
        let instruction = instruction_at(rest, start_ip.wrapping_add(pos as u64));
        if instruction.is_ip_rel_memory_operand {
            return Some(instruction.ip_rel_memory_address);
        }
        if instruction.len == 0 || instruction.len > bytes.len() - pos {
            return None;
        }
        pos = pos + instruction.len;
    }
    None
}

/// Mutable variant of [`next_abs_addr`]; the bytes are left as they are.
pub fn next_abs_addr_mut(bytes: &mut [u8], start_ip: u64) -> (r: Option<u64>)
    ensures
        r == abs_addr_from(old(bytes)@, start_ip, 0),
        final(bytes)@ == old(bytes)@,
{
    next_abs_addr(bytes, start_ip)
}

/// One shared library as the loader lists it: its name, the address it is
/// loaded at and its length in bytes.
#[derive(Debug)]
pub struct LibraryInfo {
    pub name: Vec<u8>,
    pub address: usize,
    pub len: usize,
}

/// Appends one listed library.
pub fn record_library(list: &mut Vec<LibraryInfo>, info: LibraryInfo)
    ensures
        final(list)@ == old(list)@.push(info),
{
    list.push(info);
}

/// `findshlibs::TargetSharedLibrary::each`: the shared libraries loaded in
/// this process, each with `name()`, `actual_load_addr()` and `len()`. What
/// is loaded depends on the process, so nothing is claimed of the list.
#[verifier::external_body]
fn loaded_libraries() -> (r: Vec<LibraryInfo>) {
    let mut list = Vec::new();
    findshlibs::TargetSharedLibrary::each(|library| {
        record_library(
            &mut list,
            LibraryInfo {
                name: library.name().as_encoded_bytes().to_vec(),
                address: library.actual_load_addr().0,
                len: library.len(),
            },
        )
    });
    list
}

/// What `String::from_utf8_lossy` makes of some bytes.
pub uninterp spec fn lossy_utf8(bytes: Seq<u8>) -> Seq<char>;

/// `String::from_utf8_lossy`: the text of `bytes`, with each invalid
/// sequence replaced by U+FFFD. Claimed: the result is a function of the
/// bytes, and valid UTF-8 comes out as the text it encodes.
#[verifier::external_body]
pub(crate) fn utf8_lossy(bytes: &[u8]) -> (r: String)
    ensures
        r@ == lossy_utf8(bytes@),
        vstd::utf8::valid_utf8(bytes@) ==> r@ == vstd::utf8::decode_utf8(bytes@),
{
    String::from_utf8_lossy(bytes).into_owned()
}

/// A shared library by name, with the address range it occupies.
#[derive(Debug)]
pub struct SharedModule {
    pub name: String,
    pub start: usize,
    pub len: usize,
}

/// The value of a [`SharedModule`]: name, start and length.
pub open spec fn module_view(m: SharedModule) -> (Seq<char>, usize, usize) {
    (m.name@, m.start, m.len)
}

/// The index of the module named `name`.
pub open spec fn index_of_name(s: Seq<(Seq<char>, usize, usize)>, name: Seq<char>) -> Option<int>
    decreases s.len(),
{
    if s.len() == 0 {
        None
    } else if s.last().0 == name {
        Some(s.len() - 1)
    } else {
        index_of_name(s.drop_last(), name)
    }
}

/// The modules after registering `e`: it replaces the module of the same
/// name, or is added last.
pub open spec fn spec_insert(s: Seq<(Seq<char>, usize, usize)>, e: (Seq<char>, usize, usize)) -> Seq<
    (Seq<char>, usize, usize),
> {
    match index_of_name(s, e.0) {
        Some(i) => s.update(i, e),
        None => s.push(e),
    }
}

/// `index_of_name` finds the last module of that name, and `None` means no
/// module has it.
pub proof fn lemma_index_of_name(s: Seq<(Seq<char>, usize, usize)>, name: Seq<char>)
    ensures
        index_of_name(s, name) matches Some(i) ==> 0 <= i < s.len() && s[i].0 == name,
        index_of_name(s, name) is None ==> forall|j: int| 0 <= j < s.len() ==> s[j].0 != name,
    decreases s.len(),
{
    if s.len() > 0 && s.last().0 != name {
        lemma_index_of_name(s.drop_last(), name);
        assert forall|j: int| 0 <= j < s.len() - 1 implies s[j] == s.drop_last()[j] by {}
    }
}

/// Whether no two modules share a name.
pub open spec fn unique_names(s: Seq<(Seq<char>, usize, usize)>) -> bool {
    forall|i: int, j: int| 0 <= i < j < s.len() ==> s[i].0 != s[j].0
}

/// Registering a library leaves exactly one module of its name, holding the
/// range registered last, and no name twice.
pub proof fn law_insert_registers(s: Seq<(Seq<char>, usize, usize)>, e: (Seq<char>, usize, usize))
    requires
        unique_names(s),
    ensures
        unique_names(spec_insert(s, e)),
        exists|i: int| 0 <= i < spec_insert(s, e).len() && spec_insert(s, e)[i] == e,
        forall|i: int|
            0 <= i < spec_insert(s, e).len() && spec_insert(s, e)[i].0 == e.0 ==> spec_insert(
                s,
                e,
            )[i] == e,
        forall|i: int| 0 <= i < s.len() && s[i].0 != e.0 ==> spec_insert(s, e).contains(s[i]),
{
    lemma_index_of_name(s, e.0);
    let t = spec_insert(s, e);
    match index_of_name(s, e.0) {
        Some(k) => {
            assert(t[k] == e);
            assert forall|i: int| 0 <= i < s.len() && s[i].0 != e.0 implies t.contains(s[i]) by {
                assert(t[i] == s[i]);
            }
        },
        None => {
            assert(t[s.len() as int] == e);
            assert forall|i: int| 0 <= i < s.len() && s[i].0 != e.0 implies t.contains(s[i]) by {
                assert(t[i] == s[i]);
            }
        },
    }
}

/// Whether `addr` lies in `start..start + len`.
pub open spec fn spec_bytes_contain(start: usize, len: usize, addr: usize) -> bool {
    start <= addr < start + len
}

/// The registry built from a list of libraries: each library whose name has
/// a file name is registered under that file name (made text lossily).
pub open spec fn spec_from_libraries(libs: Seq<LibraryInfo>) -> Seq<(Seq<char>, usize, usize)>
    decreases libs.len(),
{
    if libs.len() == 0 {
        Seq::empty()
    } else {
        let before = spec_from_libraries(libs.drop_last());
        let lib = libs.last();
        match spec_file_name(lib.name@) {
            Some(n) => spec_insert(before, (lossy_utf8(n), lib.address, lib.len)),
            None => before,
        }
    }
}

/// The address range of a byte slice starting at `start`.
pub fn bytes_range(start: usize, len: usize) -> (r: (usize, usize))
    requires
        start + len <= usize::MAX,
    ensures
        r == (start, (start + len) as usize),
{
    (start, start + len)
}

/// Whether a byte slice at `start` of `len` bytes holds `addr`.
pub fn bytes_contain(start: usize, len: usize, addr: usize) -> (r: bool)
    requires
        start + len <= usize::MAX,
    ensures
        r == spec_bytes_contain(start, len, addr),
{
    let (beg, end) = bytes_range(start, len);
    beg <= addr && addr < end
}

/// Currently loaded shared libraries, by file name.
#[derive(Debug)]
pub struct Shared {
    pub modules: Vec<SharedModule>,
}

impl View for Shared {
    type V = Seq<(Seq<char>, usize, usize)>;

    open spec fn view(&self) -> Seq<(Seq<char>, usize, usize)> {
        self.modules@.map_values(|m: SharedModule| module_view(m))
    }
}

impl Shared {
    /// The registry of the libraries loaded in this process right now.
    pub fn new() -> (r: Shared)
        ensures
            exists|libs: Seq<LibraryInfo>| r@ == spec_from_libraries(libs),
    {
        let libraries = loaded_libraries();
        let ghost libs = libraries@;
        let r = Shared::from_libraries(libraries);
        assert(r@ == spec_from_libraries(libs));
        r
    }

    /// The registry of the given libraries.
    pub fn from_libraries(libraries: Vec<LibraryInfo>) -> (r: Shared)
        ensures
            r@ == spec_from_libraries(libraries@),
    {
        let mut shared = Shared { modules: Vec::new() };
        let mut i: usize = 0;
        assert(libraries@.take(0) =~= Seq::<LibraryInfo>::empty());
        assert(shared@ =~= Seq::<(Seq<char>, usize, usize)>::empty());
        while i < libraries.len()
            invariant
                0 <= i <= libraries@.len(),
                shared@ == spec_from_libraries(libraries@.take(i as int)),
            decreases libraries@.len() - i,
        {
            assert(libraries@.take(i + 1).drop_last() =~= libraries@.take(i as int));
            let library = &libraries[i];
            match path_file_name(library.name.as_slice()) {
                Some(name) => {
                    let name = utf8_lossy(name.as_slice());
                    shared.insert(name, library.address, library.len);
                },
                None => {},
            }
            i = i + 1;
        }
        assert(libraries@.take(i as int) =~= libraries@);
        shared
    }

    /// Registers a library under `name`, replacing one of the same name.
    pub fn insert(&mut self, name: String, start: usize, len: usize)
        ensures
            final(self)@ == spec_insert(old(self)@, (name@, start, len)),
    {
        let ghost entry = (name@, start, len);
        let mut i = self.modules.len();
        assert(self@.take(i as int) =~= self@);
        while i > 0
            invariant
                i <= self.modules@.len(),
                self@ == old(self)@,
                self.modules@ == old(self).modules@,
                entry == (name@, start, len),
                index_of_name(self@, entry.0) == index_of_name(self@.take(i as int), entry.0),
            decreases i,
        {
            assert(self@.take(i as int).drop_last() =~= self@.take(i - 1));
            if self.modules[i - 1].name == name {
                let ghost before = self.modules@;
                assert(self@.take(i as int).last() == self@[i - 1]);
                let module = SharedModule { name, start, len };
                assert(module_view(module) == entry);
                self.modules.set(i - 1, module);
                assert forall|j: int| 0 <= j < self@.len() implies self@[j] == old(self)@.update(
                    i - 1,
                    entry,
                )[j] by {
                    if j != i - 1 {
                        assert(self.modules@[j] == before[j]);
                    }
                }
                assert(self@ =~= old(self)@.update(i - 1, entry));
                return;
            }
            i = i - 1;
        }
        let ghost before = self.modules@;
        assert(self@.take(0) =~= Seq::<(Seq<char>, usize, usize)>::empty());
        self.modules.push(SharedModule { name, start, len });
        assert(self@ =~= old(self)@.push(entry));
    }

    /// The name of a loaded library whose range holds `addr`, if any.
    pub fn module_of(&self, addr: usize) -> (r: Option<&String>)
        requires
            forall|i: int| 0 <= i < self@.len() ==> self@[i].1 + self@[i].2 <= usize::MAX,
        ensures
            match r {
                Some(name) => exists|i: int|
                    0 <= i < self@.len() && self@[i].0 == name@ && spec_bytes_contain(
                        self@[i].1,
                        self@[i].2,
                        addr,
                    ),
                None => forall|i: int|
                    0 <= i < self@.len() ==> !spec_bytes_contain(self@[i].1, self@[i].2, addr),
            },
    {
        let mut i: usize = 0;
        while i < self.modules.len()
            invariant
                0 <= i <= self@.len(),
                self@.len() == self.modules@.len(),
                forall|j: int| 0 <= j < self@.len() ==> self@[j].1 + self@[j].2 <= usize::MAX,
                forall|j: int| 0 <= j < i ==> !spec_bytes_contain(self@[j].1, self@[j].2, addr),
            decreases self@.len() - i,
        {
            let m = &self.modules[i];
            assert(self@[i as int] == module_view(*m));
            if bytes_contain(m.start, m.len, addr) {
                return Some(&m.name);
            }
            i = i + 1;
        }
        None
    }
}

/// The search for a relative address looks at each instruction in turn: an
/// instruction with an instruction-pointer-relative operand gives that
/// operand's address, and one without is stepped over, whatever its flow
/// control, as long as decoding advances inside the bytes.
pub proof fn law_next_abs_addr_steps(bytes: Seq<u8>, ip: u64, pos: nat)
    requires
        pos < bytes.len(),
    ensures
        spec_instruction_at(bytes.skip(pos as int), address_of(ip, pos)).is_ip_rel_memory_operand
            ==> abs_addr_from(bytes, ip, pos) == Some(
            spec_instruction_at(bytes.skip(pos as int), address_of(ip, pos)).ip_rel_memory_address,
        ),
        !spec_instruction_at(bytes.skip(pos as int), address_of(ip, pos)).is_ip_rel_memory_operand
            && advances(
            bytes,
            pos,
            spec_instruction_at(bytes.skip(pos as int), address_of(ip, pos)).len,
        ) ==> abs_addr_from(bytes, ip, pos) == abs_addr_from(
            bytes,
            ip,
            (pos + spec_instruction_at(bytes.skip(pos as int), address_of(ip, pos)).len) as nat,
        ),
{
}

} // verus!
