//! The modules loaded into a process, as the dynamic loader lists them.

use crate::link::error::Error;
use crate::paths::{path_ends_with, spec_path_ends_with};
use crate::text::{ascii, bytes_eq_str};
use vstd::prelude::*;

verus! {

/// Module information.
#[derive(Debug)]
pub struct Module {
    /// The address of this module.
    pub address: usize,
    /// Does this module contain TLS?
    pub has_tls: bool,
    /// The length (in bytes) of this module.
    pub len: usize,
    /// Path to this module.
    pub path: Vec<u8>,
}

/// Where the name the loader gives a module points.
#[derive(Debug)]
pub enum ModuleName {
    /// The program itself.
    CurrentExe,
    /// The kernel's vDSO, which has no file.
    Vdso,
    /// A file.
    Path(Vec<u8>),
}

/// The name glibc gives the vDSO.
pub open spec fn vdso_name() -> Seq<u8> {
    ascii("linux-vdso.so.1"@)
}

/// Tells apart the names glibc gives modules: empty for the program itself,
/// `linux-vdso.so.1` for the vDSO, a path otherwise.
pub fn classify_module_name(name: &[u8]) -> (r: ModuleName)
    ensures
        name@.len() == 0 ==> r is CurrentExe,
        name@.len() != 0 && name@ == vdso_name() ==> r is Vdso,
        name@.len() != 0 && name@ != vdso_name() ==> (r matches ModuleName::Path(p) && p@
            == name@),
{
    proof {
        reveal_strlit("linux-vdso.so.1");
    }
    if name.len() == 0 {
        ModuleName::CurrentExe
    } else if bytes_eq_str(name, "linux-vdso.so.1") {
        ModuleName::Vdso
    } else {
        ModuleName::Path(crate::text::copy_bytes(name))
    }
}

/// The largest of the program headers' memory sizes, 0 when there is none.
pub open spec fn max_mem_size(sizes: Seq<u64>) -> u64
    decreases sizes.len(),
{
    if sizes.len() == 0 {
        0
    } else {
        let m = max_mem_size(sizes.drop_last());
        if sizes.last() > m {
            sizes.last()
        } else {
            m
        }
    }
}

/// The length of a module: the largest memory size of its program headers.
pub fn module_len(mem_sizes: &Vec<u64>) -> (r: u64)
    ensures
        r == max_mem_size(mem_sizes@),
{
    let mut m: u64 = 0;
    let mut i: usize = 0;
    assert(mem_sizes@.take(0) =~= Seq::<u64>::empty());
    while i < mem_sizes.len()
        invariant
            0 <= i <= mem_sizes@.len(),
            m == max_mem_size(mem_sizes@.take(i as int)),
        decreases mem_sizes@.len() - i,
    {
        assert(mem_sizes@.take(i + 1).drop_last() =~= mem_sizes@.take(i as int));
        if mem_sizes[i] > m {
            m = mem_sizes[i];
        }
        i = i + 1;
    }
    assert(mem_sizes@.take(i as int) =~= mem_sizes@);
    m
}

/// The module described by one entry of the loader's list: `None` for the
/// vDSO, whose path is `None`. A module contains TLS exactly when the loader
/// gave it a TLS module id, which is never 0.
pub fn module_info(
    address: usize,
    mem_sizes: &Vec<u64>,
    path: Option<Vec<u8>>,
    tls_modid: usize,
) -> (r: Option<Module>)
    ensures
        path is None ==> r is None,
        path matches Some(p) ==> (r matches Some(m) && m.address == address && m.len
            == max_mem_size(mem_sizes@) as usize && m.path@ == p@ && m.has_tls == (tls_modid
            != 0)),
{
    let path = match path {
        Some(p) => p,
        None => return None,
    };
    let len = module_len(mem_sizes) as usize;
    let has_tls = tls_modid != 0;
    Some(Module { address, has_tls, len, path })
}

/// Whether some module's path ends with `path`, component by component.
pub open spec fn spec_is_module_loaded(modules: Seq<Module>, path: Seq<u8>) -> bool {
    exists|i: int| 0 <= i < modules.len() && spec_path_ends_with(modules[i].path@, path)
}

/// Determine whether a module is loaded or not: whether the path of one of
/// the `modules` ends with `path`.
pub fn is_module_loaded(modules: &Vec<Module>, path: &[u8]) -> (r: bool)
    ensures
        r == spec_is_module_loaded(modules@, path@),
{
    let mut loaded = false;
    let mut i: usize = 0;
    while i < modules.len()
        invariant
            0 <= i <= modules@.len(),
            loaded == exists|j: int|
                0 <= j < i && spec_path_ends_with(modules@[j].path@, path@),
        decreases modules@.len() - i,
    {
        let ends = path_ends_with(modules[i].path.as_slice(), path);
        loaded = loaded || ends;
        i = i + 1;
    }
    loaded
}

/// The index of the last module whose path ends with `file_name`.
pub open spec fn last_ending_with(modules: Seq<Module>, file_name: Seq<u8>) -> Option<int>
    decreases modules.len(),
{
    if modules.len() == 0 {
        None
    } else if spec_path_ends_with(modules.last().path@, file_name) {
        Some(modules.len() - 1)
    } else {
        last_ending_with(modules.drop_last(), file_name)
    }
}

/// The module a freshly opened library was loaded as: the last listed module
/// whose path ends with the library's file name.
pub fn find_loaded(modules: Vec<Module>, file_name: &[u8]) -> (r: Result<Module, Error>)
    ensures
        match last_ending_with(modules@, file_name@) {
            Some(k) => r matches Ok(m) && m == modules@[k],
            None => r matches Err(e) && e is NoModule,
        },
{
    let ghost initial = modules@;
    let mut rest = modules;
    while rest.len() > 0
        invariant
            rest@ == initial.take(rest@.len() as int),
            rest@.len() <= initial.len(),
            last_ending_with(initial, file_name@) == last_ending_with(rest@, file_name@),
            initial == modules@,
        decreases rest@.len(),
    {
        let ghost before = rest@;
        let m = rest.pop().unwrap();
        assert(before.drop_last() =~= rest@);
        assert(rest@ =~= initial.take(rest@.len() as int));
        if path_ends_with(m.path.as_slice(), file_name) {
            assert(before.last() == m);
            assert(initial[before.len() - 1] == before[before.len() - 1]);
            return Ok(m);
        }
    }
    Err(Error::NoModule)
}

/// A library is reported loaded exactly when loading it finds its module:
/// both look for a module whose path ends with the given one.
pub proof fn law_loaded_iff_found(modules: Seq<Module>, path: Seq<u8>)
    ensures
        spec_is_module_loaded(modules, path) <==> last_ending_with(modules, path) is Some,
    decreases modules.len(),
{
    if modules.len() > 0 {
        let rest = modules.drop_last();
        law_loaded_iff_found(rest, path);
        if spec_is_module_loaded(rest, path) {
            let i = choose|i: int| 0 <= i < rest.len() && spec_path_ends_with(rest[i].path@, path);
            assert(modules[i] == rest[i]);
        }
        if spec_is_module_loaded(modules, path) && !spec_path_ends_with(
            modules.last().path@,
            path,
        ) {
            let i = choose|i: int|
                0 <= i < modules.len() && spec_path_ends_with(modules[i].path@, path);
            assert(i < modules.len() - 1);
            assert(rest[i] == modules[i]);
        }
    }
}

/// The index of the last module loaded at `address`.
pub open spec fn last_at(modules: Seq<Module>, address: usize) -> Option<int>
    decreases modules.len(),
{
    if modules.len() == 0 {
        None
    } else if modules.last().address == address {
        Some(modules.len() - 1)
    } else {
        last_at(modules.drop_last(), address)
    }
}

/// The last listed module loaded at `address`.
pub fn module_at(modules: Vec<Module>, address: usize) -> (r: Option<Module>)
    ensures
        match last_at(modules@, address) {
            Some(k) => r == Some(modules@[k]),
            None => r is None,
        },
{
    let ghost initial = modules@;
    let mut rest = modules;
    while rest.len() > 0
        invariant
            rest@ == initial.take(rest@.len() as int),
            rest@.len() <= initial.len(),
            last_at(initial, address) == last_at(rest@, address),
            initial == modules@,
        decreases rest@.len(),
    {
        let ghost before = rest@;
        let m = rest.pop().unwrap();
        assert(before.drop_last() =~= rest@);
        assert(rest@ =~= initial.take(rest@.len() as int));
        if m.address == address {
            assert(before.last() == m);
            assert(initial[before.len() - 1] == before[before.len() - 1]);
            return Some(m);
        }
    }
    None
}

} // verus!

