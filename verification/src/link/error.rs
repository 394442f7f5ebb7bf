//! Errors of the dynamic loader, recovered from the message `dlerror` gives.

use crate::text::{
    ascii, first_occurrence, has_suffix, lemma_first_occurrence, memmem_find, strip_suffix,
};
use vstd::prelude::*;

verus! {

/// An error of the dynamic loader. Paths, symbols and versions are the
/// bytes of OS strings.
#[derive(Debug, PartialEq, Eq)]
pub enum Error {
    /// Architecture of a module was invalid.
    InvalidArchitecture(Vec<u8>),
    /// A required module was not found.
    MissingDependency(Vec<u8>),
    /// Module not found.
    NotFound(Vec<u8>),
    /// Dynamic loading is not supported.
    NotSupported,
    /// No module associated.
    NoModule,
    /// A required symbol was not found: module, symbol and optional version.
    UndefinedSymbol(Vec<u8>, Vec<u8>, Option<Vec<u8>>),
    /// Unknown error occured.
    Unknown(Vec<u8>),
}

/// The mathematical value of an [`Error`].
pub enum ErrorView {
    InvalidArchitecture(Seq<u8>),
    MissingDependency(Seq<u8>),
    NotFound(Seq<u8>),
    NotSupported,
    NoModule,
    UndefinedSymbol(Seq<u8>, Seq<u8>, Option<Seq<u8>>),
    Unknown(Seq<u8>),
}

impl View for Error {
    type V = ErrorView;

    open spec fn view(&self) -> ErrorView {
        match self {
            Error::InvalidArchitecture(a) => ErrorView::InvalidArchitecture(a@),
            Error::MissingDependency(d) => ErrorView::MissingDependency(d@),
            Error::NotFound(p) => ErrorView::NotFound(p@),
            Error::NotSupported => ErrorView::NotSupported,
            Error::NoModule => ErrorView::NoModule,
            Error::UndefinedSymbol(m, s, v) => ErrorView::UndefinedSymbol(
                m@,
                s@,
                match v {
                    Some(v) => Some(v@),
                    None => None,
                },
            ),
            Error::Unknown(e) => ErrorView::Unknown(e@),
        }
    }
}

/// The whole message the loader gives when it cannot load at all.
pub open spec fn not_supported() -> Seq<u8> {
    ascii("Dynamic loading not supported"@)
}

/// What the loader appends to a path it could not find.
pub open spec fn not_found() -> Seq<u8> {
    ascii(": cannot open shared object file: No such file or directory"@)
}

/// What separates the module from the symbol it lacks.
pub open spec fn undefined_symbol() -> Seq<u8> {
    ascii(": undefined symbol: "@)
}

/// What separates a missing symbol from its version.
pub open spec fn symbol_version() -> Seq<u8> {
    ascii(", version "@)
}

/// `bytes` split around the first occurrence of `needle`.
pub open spec fn spec_split_once(bytes: Seq<u8>, needle: Seq<u8>) -> Option<(Seq<u8>, Seq<u8>)> {
    match first_occurrence(bytes, needle) {
        Some(k) => Some((bytes.take(k as int), bytes.skip((k + needle.len()) as int))),
        None => None,
    }
}

/// The error a loader message describes, if it is one of the known forms.
pub open spec fn spec_map_internal_error(bytes: Seq<u8>) -> Option<ErrorView> {
    if bytes == not_supported() {
        Some(ErrorView::NotSupported)
    } else if has_suffix(bytes, not_found()) {
        Some(ErrorView::NotFound(bytes.take(bytes.len() - not_found().len())))
    } else {
        match spec_split_once(bytes, undefined_symbol()) {
            Some((path, rest)) => match spec_split_once(rest, symbol_version()) {
                Some((symbol, version)) => Some(
                    ErrorView::UndefinedSymbol(path, symbol, Some(version)),
                ),
                None => Some(ErrorView::UndefinedSymbol(path, rest, None)),
            },
            None => None,
        }
    }
}

/// Splitting a byte string around a needle and putting the needle back
/// gives the byte string again, and the left part holds no occurrence of the
/// needle; no split means no occurrence at all.
pub proof fn law_split_once_reassembles(bytes: Seq<u8>, needle: Seq<u8>)
    ensures
        spec_split_once(bytes, needle) matches Some((left, right)) ==> {
            &&& left + needle + right == bytes
            &&& forall|j: int|
                0 <= j && j + needle.len() <= left.len() + needle.len() - 1 ==> !crate::text::occurs_at(
                    bytes,
                    needle,
                    j,
                )
        },
        spec_split_once(bytes, needle) is None ==> forall|j: int|
            !crate::text::occurs_at(bytes, needle, j),
{
    lemma_first_occurrence(bytes, needle);
    if let Some((left, right)) = spec_split_once(bytes, needle) {
        let k = first_occurrence(bytes, needle).unwrap();
        assert(left + needle + right =~= bytes) by {
            assert(bytes.subrange(k as int, (k + needle.len()) as int) == needle);
        }
    }
}

/// A message that ends with the not-found suffix names the path before it.
pub proof fn law_not_found_message(path: Seq<u8>)
    ensures
        spec_map_internal_error(path + not_found()) == Some(ErrorView::NotFound(path)),
{
    reveal_strlit(": cannot open shared object file: No such file or directory");
    reveal_strlit("Dynamic loading not supported");
    let msg = path + not_found();
    assert(msg.len() != not_supported().len());
    assert(msg.subrange(msg.len() - not_found().len(), msg.len() as int) =~= not_found());
    assert(msg.take((msg.len() - not_found().len()) as int) =~= path);
}

/// The first ten bytes of the not-supported message hold no colon, so no
/// separator can start there.
proof fn lemma_not_supported_has_no_colon()
    ensures
        forall|i: int| 0 <= i < 10 ==> not_supported()[i] != 0x3au8,
{
    reveal_strlit("Dynamic loading not supported");
    let s = not_supported();
    assert(s[0] == 0x44u8);
    assert(s[1] == 0x79u8);
    assert(s[2] == 0x6eu8);
    assert(s[3] == 0x61u8);
    assert(s[4] == 0x6du8);
    assert(s[5] == 0x69u8);
    assert(s[6] == 0x63u8);
    assert(s[7] == 0x20u8);
    assert(s[8] == 0x6cu8);
    assert(s[9] == 0x6fu8);
}

/// A message that reads `<path>: undefined symbol: <symbol>, version
/// <version>` is parsed back into its three parts, where the separators
/// first occur where they were put and the message does not end like a
/// not-found message.
pub proof fn law_undefined_symbol_message(path: Seq<u8>, symbol: Seq<u8>, version: Seq<u8>)
    requires
        first_occurrence(
            path + undefined_symbol() + symbol + symbol_version() + version,
            undefined_symbol(),
        ) == Some(path.len()),
        first_occurrence(symbol + symbol_version() + version, symbol_version()) == Some(
            symbol.len(),
        ),
        !has_suffix(path + undefined_symbol() + symbol + symbol_version() + version, not_found()),
    ensures
        spec_map_internal_error(path + undefined_symbol() + symbol + symbol_version() + version)
            == Some(ErrorView::UndefinedSymbol(path, symbol, Some(version))),
{
    reveal_strlit(": undefined symbol: ");
    reveal_strlit(", version ");
    let msg = path + undefined_symbol() + symbol + symbol_version() + version;
    let rest = symbol + symbol_version() + version;
    lemma_first_occurrence(msg, undefined_symbol());
    lemma_not_supported_has_no_colon();
    assert(undefined_symbol()[0] == 0x3au8);
    assert(undefined_symbol().len() == 20);
    assert(msg[path.len() as int] == 0x3au8);
    if msg == not_supported() {
        reveal_strlit("Dynamic loading not supported");
        assert(not_supported().len() == 29);
        assert(path.len() < 10);
        assert(not_supported()[path.len() as int] != 0x3au8);
    }
    assert(msg.take(path.len() as int) =~= path);
    assert(msg.skip((path.len() + undefined_symbol().len()) as int) =~= rest);
    assert(rest.take(symbol.len() as int) =~= symbol);
    assert(rest.skip((symbol.len() + symbol_version().len()) as int) =~= version);
}

/// A message that reads `<path>: undefined symbol: <symbol>` with no version
/// separator after the symbol is parsed back into its two parts.
pub proof fn law_undefined_symbol_message_without_version(path: Seq<u8>, symbol: Seq<u8>)
    requires
        first_occurrence(path + undefined_symbol() + symbol, undefined_symbol()) == Some(
            path.len(),
        ),
        first_occurrence(symbol, symbol_version()) is None,
        !has_suffix(path + undefined_symbol() + symbol, not_found()),
    ensures
        spec_map_internal_error(path + undefined_symbol() + symbol) == Some(
            ErrorView::UndefinedSymbol(path, symbol, None),
        ),
{
    reveal_strlit(": undefined symbol: ");
    let msg = path + undefined_symbol() + symbol;
    lemma_first_occurrence(msg, undefined_symbol());
    lemma_not_supported_has_no_colon();
    assert(undefined_symbol()[0] == 0x3au8);
    assert(undefined_symbol().len() == 20);
    assert(msg[path.len() as int] == 0x3au8);
    if msg == not_supported() {
        reveal_strlit("Dynamic loading not supported");
        assert(not_supported().len() == 29);
        assert(path.len() < 10);
        assert(not_supported()[path.len() as int] != 0x3au8);
    }
    assert(msg.take(path.len() as int) =~= path);
    assert(msg.skip((path.len() + undefined_symbol().len()) as int) =~= symbol);
}

/// The view of an optional error.
pub open spec fn opt_error_view(e: Option<Error>) -> Option<ErrorView> {
    match e {
        Some(e) => Some(e@),
        None => None,
    }
}

/// Splits `bytes` around the first occurrence of `needle`.
pub fn split_once<'a>(bytes: &'a [u8], needle: &[u8]) -> (r: Option<(&'a [u8], &'a [u8])>)
    ensures
        match r {
            Some((left, right)) => spec_split_once(bytes@, needle@) == Some((left@, right@)),
            None => spec_split_once(bytes@, needle@) is None,
        },
{
    match memmem_find(bytes, needle) {
        Some(offset) => {
            proof {
                lemma_first_occurrence(bytes@, needle@);
            }
            let (left, right) = bytes.split_at(offset);
            let right = &right[needle.len()..right.len()];
            assert(left@ =~= bytes@.take(offset as int));
            assert(right@ =~= bytes@.skip((offset + needle@.len()) as int));
            Some((left, right))
        },
        None => None,
    }
}

/// The bytes of an OS string, owned.
pub fn boxed_os_str(bytes: &[u8]) -> (r: Vec<u8>)
    ensures
        r@ == bytes@,
{
    crate::text::copy_bytes(bytes)
}

/// The bytes of a path, owned.
pub fn boxed_path(bytes: &[u8]) -> (r: Vec<u8>)
    ensures
        r@ == bytes@,
{
    crate::text::copy_bytes(bytes)
}

/// Recognises the error a message of the dynamic loader describes.
pub fn map_internal_error(bytes: &[u8]) -> (r: Option<Error>)
    ensures
        opt_error_view(r) == spec_map_internal_error(bytes@),
{
    proof {
        reveal_strlit("Dynamic loading not supported");
        reveal_strlit(": cannot open shared object file: No such file or directory");
        reveal_strlit(": undefined symbol: ");
        reveal_strlit(", version ");
        vstd::string::is_ascii_spec_bytes("Dynamic loading not supported");
        vstd::string::is_ascii_spec_bytes(
            ": cannot open shared object file: No such file or directory",
        );
        vstd::string::is_ascii_spec_bytes(": undefined symbol: ");
        vstd::string::is_ascii_spec_bytes(", version ");
    }
    let not_supported_bytes = "Dynamic loading not supported".as_bytes();
    let not_found_bytes = ": cannot open shared object file: No such file or directory".as_bytes();
    let undefined_bytes = ": undefined symbol: ".as_bytes();
    let version_bytes = ", version ".as_bytes();
    assert(not_supported_bytes@ =~= not_supported());
    assert(not_found_bytes@ =~= not_found());
    assert(undefined_bytes@ =~= undefined_symbol());
    assert(version_bytes@ =~= symbol_version());

    if crate::text::bytes_eq_bytes(bytes, not_supported_bytes) {
        return Some(Error::NotSupported);
    }
    if let Some(path) = strip_suffix(bytes, not_found_bytes) {
        assert(path@ =~= bytes@.take(bytes@.len() - not_found().len()));
        return Some(Error::NotFound(boxed_path(path)));
    }
    if let Some((path, rest)) = split_once(bytes, undefined_bytes) {
        if let Some((symbol, version)) = split_once(rest, version_bytes) {
            let path = boxed_path(path);
            let symbol = boxed_os_str(symbol);
            let version = boxed_os_str(version);
            return Some(Error::UndefinedSymbol(path, symbol, Some(version)));
        } else {
            let path = boxed_path(path);
            let symbol = boxed_os_str(rest);
            return Some(Error::UndefinedSymbol(path, symbol, None));
        }
    }
    None
}

} // verus!
