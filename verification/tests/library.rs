use elysium::dismal::{self, try_demangle, Code, Module, Pattern};
use elysium::framework::{
    find_interface, interface_result, link_result, linker_result, Error, Framework, Scope,
};
use elysium::mem::{bytes_contain, bytes_range, record_library, LibraryInfo, Shared};
use elysium::paths::{components, path_ends_with, path_eq, path_file_name, Component};
use elysium::ptr::{Ptr, PtrMut};
use elysium::text::{bytes_eq_bytes, bytes_eq_str, bytes_eq_utf8, copy_bytes, strip_suffix};

#[test]
fn byte_comparisons() {
    assert!(bytes_eq_str(b"abc", "abc"));
    assert!(!bytes_eq_str(b"abd", "abc"));
    assert!(bytes_eq_bytes(b"", b""));
    assert!(!bytes_eq_bytes(b"a", b"ab"));
    assert!(bytes_eq_utf8("é".as_bytes(), "é"));
    assert!(!bytes_eq_utf8(b"e", "é"));
    assert_eq!(copy_bytes(b"xyz"), b"xyz".to_vec());
    assert_eq!(strip_suffix(b"libfoo.so", b".so"), Some(&b"libfoo"[..]));
    assert_eq!(strip_suffix(b"so", b".so"), None);
}

#[test]
fn path_components() {
    let c = components(b"/a//b/./c/");
    assert_eq!(c.len(), 4);
    assert!(matches!(c[0], Component::RootDir));
    assert!(matches!(&c[1], Component::Normal(n) if n == b"a"));
    assert!(matches!(&c[3], Component::Normal(n) if n == b"c"));
    let c = components(b"./a/..");
    assert_eq!(c.len(), 3);
    assert!(matches!(c[0], Component::CurDir));
    assert!(matches!(c[2], Component::ParentDir));
    assert!(components(b"").is_empty());
}

#[test]
fn path_equality() {
    assert!(path_eq(b"/a/b/", b"/a//b"));
    assert!(path_eq(b"a/./b", b"a/b"));
    assert!(!path_eq(b"a", b"/a"));
    assert!(!path_eq(b"./a", b"a"));
    assert!(!path_eq(b"/a/b", b"/a/c"));
}

#[test]
fn path_suffixes() {
    assert!(path_ends_with(b"/usr/lib/libc.so.6", b"libc.so.6"));
    assert!(path_ends_with(b"/usr/lib/libc.so.6", b"lib/libc.so.6"));
    assert!(!path_ends_with(b"/usr/lib/libc.so.6", b"c.so.6"));
    assert!(path_ends_with(b"/usr/lib", b""));
    assert!(!path_ends_with(b"lib", b"/usr/lib"));
}

#[test]
fn path_file_names() {
    assert_eq!(path_file_name(b"/usr/lib/libc.so.6"), Some(b"libc.so.6".to_vec()));
    assert_eq!(path_file_name(b"/usr/lib/"), Some(b"lib".to_vec()));
    assert_eq!(path_file_name(b"/"), None);
    assert_eq!(path_file_name(b"a/.."), None);
    assert_eq!(path_file_name(b""), None);
}

#[test]
fn scope_holds_last_value() {
    let mut scope: Scope<u32> = Scope::new();
    assert_eq!(scope.get(), None);
    scope.set(5);
    assert_eq!(scope.get(), Some(&5));
    scope.set(6);
    assert_eq!(scope.get(), Some(&6));
}

#[test]
fn framework_reads_back_loaded_modules() {
    let mut framework: Framework<u32> = Framework::new();
    assert_eq!(framework.module(&"client".to_string()), Err(Error::UnknownModule));
    framework.load("client".to_string(), 1);
    framework.load("engine".to_string(), 2);
    framework.load("client".to_string(), 3);
    assert_eq!(framework.module(&"client".to_string()), Ok(&3));
    assert_eq!(framework.module(&"engine".to_string()), Ok(&2));
    assert_eq!(framework.module(&"vgui".to_string()), Err(Error::UnknownModule));
}

#[test]
fn interface_lookup() {
    let with = [("VClient005", 1u8), ("VEngineClient014", 2), ("VClient005", 3)];
    assert_eq!(find_interface(&with, b"VClient005"), Some(0));
    assert_eq!(find_interface(&with, b"VEngineClient014"), Some(1));
    assert_eq!(find_interface(&with, b"VGUI"), None);
}

#[test]
fn framework_results() {
    assert_eq!(linker_result(true), 1);
    assert_eq!(linker_result(false), 0);
    assert_eq!(link_result(1), Ok(()));
    assert_eq!(link_result(0), Err(Error::Link));
    assert_eq!(interface_result(0), Ok(()));
    assert_eq!(interface_result(1), Err(Error::Interface));
}

#[test]
fn byte_ranges() {
    assert_eq!(bytes_range(0x1000, 0x10), (0x1000, 0x1010));
    assert!(bytes_contain(0x1000, 0x10, 0x1000));
    assert!(bytes_contain(0x1000, 0x10, 0x100f));
    assert!(!bytes_contain(0x1000, 0x10, 0x1010));
    assert!(!bytes_contain(0x1000, 0, 0x1000));
}

fn library(name: &str, address: usize, len: usize) -> LibraryInfo {
    LibraryInfo { name: name.as_bytes().to_vec(), address, len }
}

#[test]
fn shared_registry_by_file_name() {
    let mut list = Vec::new();
    record_library(&mut list, library("/usr/lib/libc.so.6", 0x1000, 0x100));
    record_library(&mut list, library("", 0x2000, 0x100));
    record_library(&mut list, library("/opt/game/client_client.so", 0x3000, 0x100));
    assert_eq!(list.len(), 3);
    let shared = Shared::from_libraries(list);
    assert_eq!(shared.modules.len(), 2);
    assert_eq!(shared.module_of(0x1050), Some(&"libc.so.6".to_string()));
    assert_eq!(shared.module_of(0x30ff), Some(&"client_client.so".to_string()));
    assert_eq!(shared.module_of(0x2050), None);
    assert_eq!(shared.module_of(0x3100), None);
}

#[test]
fn shared_insert_replaces_same_name() {
    let mut shared = Shared::from_libraries(Vec::new());
    shared.insert("libm.so".to_string(), 0x1000, 0x10);
    shared.insert("libz.so".to_string(), 0x5000, 0x10);
    shared.insert("libm.so".to_string(), 0x9000, 0x10);
    assert_eq!(shared.modules.len(), 2);
    assert_eq!(shared.module_of(0x9004), Some(&"libm.so".to_string()));
    assert_eq!(shared.module_of(0x1004), None);
    assert_eq!(shared.module_of(0x5004), Some(&"libz.so".to_string()));
}

#[test]
fn shared_lists_this_process() {
    let shared = Shared::new();
    assert!(!shared.modules.is_empty());
    assert_eq!(shared.module_of(0), None);
}

#[test]
fn pattern_finds_match_start() {
    let pattern = Pattern::new(r"(?-u)\x90\xc3");
    assert_eq!(pattern.find(&[0x01, 0x90, 0xc3, 0x05]), Some(&[0x90, 0xc3, 0x05][..]));
    assert_eq!(pattern.find(&[0x01, 0x02]), None);
    assert_eq!(Pattern::new("(").find(&[0x28]), None);
}

fn code(name: &str, base_addr: usize) -> Code {
    Code { base_addr, offset: 0x10, len: 3, name: name.to_string() }
}

#[test]
fn module_search_takes_first_region() {
    let module = Module { path: b"/lib/x.so".to_vec(), code: vec![code("a", 0x1000), code("b", 0x2000)] };
    let memories = vec![vec![1u8, 2, 3], vec![4u8, 0x90, 0xc3]];
    let pattern = Pattern::new(r"(?-u)\x90\xc3");
    let found = module.search(&pattern, &memories).unwrap();
    assert_eq!(found.bytes, &[0x90, 0xc3][..]);
    assert_eq!(found.code.name, "b");
    assert_eq!(found.code.base_addr, 0x2000);
    assert_eq!(found.code.memory_start(), 0x2010);
    let nothing = Pattern::new(r"(?-u)\xcc");
    assert!(module.search(&nothing, &memories).is_none());
}

#[test]
fn code_duplicate() {
    let c = code("text", 0x4000);
    let d = c.duplicate();
    assert_eq!((d.base_addr, d.offset, d.len, d.name.as_str()), (0x4000, 0x10, 3, "text"));
}

#[test]
fn demangles_rust_then_cpp() {
    assert_eq!(
        try_demangle("_ZN4core3fmt5write17h0123456789abcdefE").as_deref(),
        Some("core::fmt::write::h0123456789abcdef")
    );
    assert_eq!(try_demangle("_Z3fooi").as_deref(), Some("foo(int)"));
    assert_eq!(try_demangle("main"), None);
}

#[test]
fn literal_cstr() {
    assert_eq!(dismal::cstr("abc\0"), b"abc\0");
    assert_eq!(dismal::cstr("\0"), b"\0");
}

#[test]
fn pointers_read_back() {
    let value = 5u32;
    let p = Ptr::new(&value);
    assert_eq!(*p.get(), 5);
    let mut other = 7u32;
    let q = PtrMut::new(&mut other);
    assert_eq!(*q.get(), 7);
}

#[test]
fn flagged_pattern_source() {
    let source = dismal::flagged_pattern(r"\x90 \xc3");
    assert_eq!(source, r"(?msx-u)\x90 \xc3");
    let pattern = Pattern::new(Box::leak(source.into_boxed_str()));
    assert_eq!(pattern.find(&[0x00, 0x90, 0xc3]), Some(&[0x90, 0xc3][..]));
}

#[test]
fn path_ends_with_its_file_name() {
    for path in [&b"/usr/lib/libc.so.6"[..], b"./bin/linux64/engine_client.so", b"a//b/", b"x"] {
        let name = path_file_name(path).unwrap();
        assert!(path_ends_with(path, &name));
    }
}

#[test]
fn flagged_pattern_search() {
    let bytes = [0x00, 0x90, 0xc3, 0x01];
    assert_eq!(dismal::find_flagged(r"\x90 \xc3", &bytes), Some(&[0x90, 0xc3, 0x01][..]));
    assert_eq!(dismal::find_flagged(r"\xcc", &bytes), None);
    assert_eq!(dismal::find_flagged("(", &bytes), None);
}

#[test]
fn pointer_written_through() {
    let mut value = 1u32;
    let mut p = PtrMut::new(&mut value);
    *p.get_mut() = 9;
    assert_eq!(*p.get(), 9);
    drop(p);
    assert_eq!(value, 9);
}
