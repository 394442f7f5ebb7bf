//! What the dynamic loader knows of an address: the module that holds it and
//! the symbol nearest below it.

use crate::link::module::{last_at, module_at, Module};
use vstd::prelude::*;

verus! {

/// Symbol information.
#[derive(Debug)]
pub struct Symbol {
    /// The address of the symbol (may be different to the address queried).
    pub address: usize,
    /// The symbol name associated with this address.
    pub name: Vec<u8>,
}

/// Address information.
#[derive(Debug)]
pub struct Address {
    /// The module this address exists within.
    pub module: Module,
    /// Symbol information related to the address.
    pub symbol: Option<Symbol>,
}

/// Symbol address information: an [`Address`] whose symbol is known.
#[derive(Debug)]
pub struct SymbolAddress {
    /// The module this address exists within.
    pub module: Module,
    /// Symbol information related to the address.
    pub symbol: Symbol,
}

/// What the loader reports of an address: the base of the module that holds
/// it, and the nearest symbol's address (0 where there is none) and name.
#[derive(Debug)]
pub struct LoaderInfo {
    pub module_base: usize,
    pub symbol_address: usize,
    pub symbol_name: Option<Vec<u8>>,
}

/// The symbol a report names: one exactly when both its address and its name
/// are there.
pub open spec fn spec_symbol(info: LoaderInfo) -> Option<Symbol> {
    if info.symbol_address != 0 && info.symbol_name is Some {
        Some(Symbol { address: info.symbol_address, name: info.symbol_name.unwrap() })
    } else {
        None
    }
}

/// Information about an address from what the loader reported of it (`None`
/// where it knew nothing) and the modules it lists: the last module that
/// starts at the reported base, and the symbol the report names.
pub fn query_address(info: Option<LoaderInfo>, modules: Vec<Module>) -> (r: Option<Address>)
    requires
        info matches Some(i) ==> last_at(modules@, i.module_base) is Some,
    ensures
        match info {
            None => r is None,
            Some(i) => r matches Some(a) && a.module == modules@[last_at(
                modules@,
                i.module_base,
            ).unwrap()] && a.symbol == spec_symbol(i),
        },
{
    match info {
        None => None,
        Some(i) => {
            let module = match module_at(modules, i.module_base) {
                Some(m) => m,
                None => {
                    return None;
                },
            };
            let symbol = if i.symbol_address != 0 {
                match i.symbol_name {
                    Some(name) => Some(Symbol { address: i.symbol_address, name }),
                    None => None,
                }
            } else {
                None
            };
            Some(Address { module, symbol })
        },
    }
}

/// The address of a symbol the loader resolved, which always names one.
pub fn symbol_address(address: Address) -> (r: SymbolAddress)
    requires
        address.symbol is Some,
    ensures
        r.module == address.module,
        r.symbol == address.symbol.unwrap(),
{
    let symbol = address.symbol.unwrap();
    SymbolAddress { module: address.module, symbol }
}

} // verus!
