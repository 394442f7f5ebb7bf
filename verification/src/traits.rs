//! Pointers that can be asked what access the memory they point at allows.

use crate::maps::{opt_maps_view, spec_permissions_of, Maps, Permissions};
use vstd::prelude::*;

verus! {

/// A pointer, known by its address.
pub trait Ptr {
    /// The address pointed at.
    spec fn spec_addr(&self) -> usize;

    /// The address pointed at.
    fn addr(&self) -> (r: usize)
        ensures
            r == self.spec_addr(),
    ;

    /// Whether the memory pointed at can be read, according to `maps`.
    fn is_readable(&self, maps: Option<&Maps>) -> (r: bool)
        ensures
            r == spec_permissions_of(opt_maps_view(maps), self.spec_addr()).read,
    {
        Maps::assert_permissions(maps, self.addr(), Permissions::read_only())
    }

    /// Whether the memory pointed at can be written, according to `maps`.
    fn is_writable(&self, maps: Option<&Maps>) -> (r: bool)
        ensures
            r == spec_permissions_of(opt_maps_view(maps), self.spec_addr()).write,
    {
        Maps::assert_permissions(maps, self.addr(), Permissions::write_only())
    }

    /// Whether the memory pointed at can be executed, according to `maps`.
    fn is_executable(&self, maps: Option<&Maps>) -> (r: bool)
        ensures
            r == spec_permissions_of(opt_maps_view(maps), self.spec_addr()).execute,
    {
        Maps::assert_permissions(maps, self.addr(), Permissions::execute_only())
    }
}

impl Ptr for usize {
    open spec fn spec_addr(&self) -> usize {
        *self
    }

    fn addr(&self) -> (r: usize) {
        *self
    }
}

} // verus!
