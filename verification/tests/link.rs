use elysium::link::address::{query_address, symbol_address, Address, LoaderInfo, Symbol};
use elysium::link::error::{boxed_os_str, boxed_path, map_internal_error, split_once, Error};
use elysium::link::ffi::{cstr, has_nul};
use elysium::link::module::{
    classify_module_name, find_loaded, is_module_loaded, module_at, module_info, module_len,
    Module, ModuleName,
};

fn module(address: usize, path: &str) -> Module {
    Module { address, has_tls: false, len: 0x100, path: path.as_bytes().to_vec() }
}

#[test]
fn not_supported_message() {
    assert_eq!(map_internal_error(b"Dynamic loading not supported"), Some(Error::NotSupported));
}

#[test]
fn not_found_message() {
    let message = b"/usr/lib/libfoo.so: cannot open shared object file: No such file or directory";
    assert_eq!(
        map_internal_error(message),
        Some(Error::NotFound(b"/usr/lib/libfoo.so".to_vec()))
    );
}

#[test]
fn undefined_symbol_with_version() {
    let message = b"/usr/lib/libfoo.so: undefined symbol: bar, version GLIBC_2.2.5";
    assert_eq!(
        map_internal_error(message),
        Some(Error::UndefinedSymbol(
            b"/usr/lib/libfoo.so".to_vec(),
            b"bar".to_vec(),
            Some(b"GLIBC_2.2.5".to_vec()),
        ))
    );
}

#[test]
fn undefined_symbol_without_version() {
    let message = b"./libfoo.so: undefined symbol: bar";
    assert_eq!(
        map_internal_error(message),
        Some(Error::UndefinedSymbol(b"./libfoo.so".to_vec(), b"bar".to_vec(), None))
    );
}

#[test]
fn unknown_message() {
    assert_eq!(map_internal_error(b"something else went wrong"), None);
    assert_eq!(map_internal_error(b""), None);
}

#[test]
fn split_once_first_occurrence() {
    assert_eq!(split_once(b"a::b::c", b"::"), Some((&b"a"[..], &b"b::c"[..])));
    assert_eq!(split_once(b"abc", b"x"), None);
    assert_eq!(split_once(b"abc", b""), Some((&b""[..], &b"abc"[..])));
}

#[test]
fn split_once_reassembles() {
    let bytes = b"left, version right";
    let (left, right) = split_once(bytes, b", version ").unwrap();
    let mut joined = left.to_vec();
    joined.extend_from_slice(b", version ");
    joined.extend_from_slice(right);
    assert_eq!(joined, bytes.to_vec());
}

#[test]
fn boxed_copies() {
    assert_eq!(boxed_os_str(b"abc"), b"abc".to_vec());
    assert_eq!(boxed_path(b"/a/b"), b"/a/b".to_vec());
}

#[test]
fn cstr_stops_at_first_nul() {
    assert_eq!(cstr(b"abc\0def\0"), b"abc\0".to_vec());
    assert_eq!(cstr(b"\0"), b"\0".to_vec());
}

#[test]
fn cstr_adds_missing_nul() {
    assert_eq!(cstr(b"abc"), b"abc\0".to_vec());
    assert_eq!(cstr(b""), b"\0".to_vec());
}

#[test]
fn cstr_of_cstr_is_itself() {
    let once = cstr(b"libc.so.6");
    assert_eq!(cstr(&once), once);
}

#[test]
fn module_names() {
    assert!(matches!(classify_module_name(b""), ModuleName::CurrentExe));
    assert!(matches!(classify_module_name(b"linux-vdso.so.1"), ModuleName::Vdso));
    match classify_module_name(b"/usr/lib/libc.so.6") {
        ModuleName::Path(p) => assert_eq!(p, b"/usr/lib/libc.so.6".to_vec()),
        other => panic!("unexpected {other:?}"),
    }
}

#[test]
fn module_length_is_largest_segment() {
    assert_eq!(module_len(&vec![]), 0);
    assert_eq!(module_len(&vec![0x10, 0x400, 0x20]), 0x400);
}

#[test]
fn module_info_of_entry() {
    let m = module_info(0x7000, &vec![0x100, 0x300], Some(b"/lib/x.so".to_vec()), 0).unwrap();
    assert_eq!(m.address, 0x7000);
    assert_eq!(m.len, 0x300);
    assert_eq!(m.path, b"/lib/x.so".to_vec());
    assert!(!m.has_tls);
    let m = module_info(0x7000, &vec![], Some(b"/lib/x.so".to_vec()), 1).unwrap();
    assert!(m.has_tls);
    assert!(module_info(0x7000, &vec![0x100], None, 0).is_none());
}

#[test]
fn module_loaded_by_path_suffix() {
    let modules = vec![module(0x1000, "/usr/lib/libc.so.6"), module(0x2000, "/opt/game/engine.so")];
    assert!(is_module_loaded(&modules, b"libc.so.6"));
    assert!(is_module_loaded(&modules, b"game/engine.so"));
    assert!(!is_module_loaded(&modules, b"c.so.6"));
    assert!(!is_module_loaded(&Vec::new(), b"libc.so.6"));
}

#[test]
fn find_loaded_takes_last_match() {
    let modules = vec![
        module(0x1000, "/a/libx.so"),
        module(0x2000, "/b/liby.so"),
        module(0x3000, "/c/libx.so"),
    ];
    assert_eq!(find_loaded(modules, b"libx.so").unwrap().address, 0x3000);
    let modules = vec![module(0x1000, "/a/libx.so")];
    assert_eq!(find_loaded(modules, b"libz.so").unwrap_err(), Error::NoModule);
}

#[test]
fn module_at_takes_last_match() {
    let modules = vec![module(0x1000, "/a"), module(0x1000, "/b"), module(0x2000, "/c")];
    assert_eq!(module_at(modules, 0x1000).unwrap().path, b"/b".to_vec());
    assert!(module_at(vec![module(0x1000, "/a")], 0x3000).is_none());
}

#[test]
fn query_address_with_symbol() {
    let modules = vec![module(0x1000, "/lib/a.so"), module(0x5000, "/lib/b.so")];
    let info = LoaderInfo {
        module_base: 0x5000,
        symbol_address: 0x5123,
        symbol_name: Some(b"printf".to_vec()),
    };
    let address = query_address(Some(info), modules).unwrap();
    assert_eq!(address.module.path, b"/lib/b.so".to_vec());
    let symbol = address.symbol.unwrap();
    assert_eq!(symbol.address, 0x5123);
    assert_eq!(symbol.name, b"printf".to_vec());
}

#[test]
fn query_address_without_symbol() {
    let info = LoaderInfo { module_base: 0x1000, symbol_address: 0, symbol_name: Some(b"x".to_vec()) };
    let address = query_address(Some(info), vec![module(0x1000, "/lib/a.so")]).unwrap();
    assert!(address.symbol.is_none());
    let info = LoaderInfo { module_base: 0x1000, symbol_address: 0x1010, symbol_name: None };
    let address = query_address(Some(info), vec![module(0x1000, "/lib/a.so")]).unwrap();
    assert!(address.symbol.is_none());
}

#[test]
fn query_address_unknown_to_loader() {
    assert!(query_address(None, vec![module(0x1000, "/lib/a.so")]).is_none());
}

#[test]
fn symbol_address_of_resolved_symbol() {
    let address = Address {
        module: module(0x1000, "/lib/a.so"),
        symbol: Some(Symbol { address: 0x1040, name: b"f".to_vec() }),
    };
    let resolved = symbol_address(address);
    assert_eq!(resolved.module.address, 0x1000);
    assert_eq!(resolved.symbol.address, 0x1040);
    assert_eq!(resolved.symbol.name, b"f".to_vec());
}

#[test]
fn nul_bytes() {
    assert!(has_nul(b"a\0b"));
    assert!(has_nul(b"\0"));
    assert!(!has_nul(b"VClient005"));
    assert!(!has_nul(b""));
}
