//! The memory maps of a process: the address ranges it has mapped, with the
//! file behind each and the access it allows.

use vstd::prelude::*;

verus! {

broadcast use vstd::seq_lib::group_to_multiset_ensures, vstd::multiset::group_multiset_axioms;

/// Permissions of a memory map.
#[derive(Clone, Copy, Debug, PartialEq, Eq)]
pub struct Permissions {
    pub read: bool,
    pub write: bool,
    pub execute: bool,
}

impl Permissions {
    /// The read flag alone.
    pub fn read_only() -> (r: Permissions)
        ensures
            r == (Permissions { read: true, write: false, execute: false }),
    {
        Permissions { read: true, write: false, execute: false }
    }

    /// The write flag alone.
    pub fn write_only() -> (r: Permissions)
        ensures
            r == (Permissions { read: false, write: true, execute: false }),
    {
        Permissions { read: false, write: true, execute: false }
    }

    /// The execute flag alone.
    pub fn execute_only() -> (r: Permissions)
        ensures
            r == (Permissions { read: false, write: false, execute: true }),
    {
        Permissions { read: false, write: false, execute: true }
    }

    /// No permission at all.
    pub fn empty() -> (r: Permissions)
        ensures
            r == (Permissions { read: false, write: false, execute: false }),
    {
        Permissions { read: false, write: false, execute: false }
    }

    /// The flags as bits: read is bit 0, write bit 1, execute bit 2.
    pub fn bits(&self) -> (r: u8)
        ensures
            r == (if self.read { 1u8 } else { 0u8 }) + (if self.write { 2u8 } else { 0u8 }) + (
            if self.execute { 4u8 } else { 0u8 }),
    {
        let mut bits: u8 = 0;
        if self.read {
            bits = bits + 1;
        }
        if self.write {
            bits = bits + 2;
        }
        if self.execute {
            bits = bits + 4;
        }
        bits
    }

    /// Whether every flag of `other` is set here.
    pub open spec fn spec_contains(self, other: Permissions) -> bool {
        &&& other.read ==> self.read
        &&& other.write ==> self.write
        &&& other.execute ==> self.execute
    }

    /// Whether every flag of `other` is set here.
    pub fn contains(&self, other: Permissions) -> (r: bool)
        ensures
            r == self.spec_contains(other),
    {
        (!other.read || self.read) && (!other.write || self.write) && (!other.execute
            || self.execute)
    }

    /// The flags after setting (`value` true) or clearing (`value` false)
    /// those of `other`.
    pub open spec fn spec_set(self, other: Permissions, value: bool) -> Permissions {
        Permissions {
            read: if other.read { value } else { self.read },
            write: if other.write { value } else { self.write },
            execute: if other.execute { value } else { self.execute },
        }
    }

    /// Sets (`value` true) or clears (`value` false) the flags of `other`.
    pub fn set(&mut self, other: Permissions, value: bool)
        ensures
            *final(self) == old(self).spec_set(other, value),
    {
        if other.read {
            self.read = value;
        }
        if other.write {
            self.write = value;
        }
        if other.execute {
            self.execute = value;
        }
    }
}

impl Default for Permissions {
    fn default() -> (r: Permissions)
        ensures
            r == (Permissions { read: false, write: false, execute: false }),
    {
        Permissions::empty()
    }
}

/// After setting flags they are contained, and after clearing them none of
/// them is left.
pub proof fn law_set_then_contains(p: Permissions, other: Permissions)
    ensures
        p.spec_set(other, true).spec_contains(other),
        other.read ==> !p.spec_set(other, false).read,
        other.write ==> !p.spec_set(other, false).write,
        other.execute ==> !p.spec_set(other, false).execute,
{
}

/// A half-open range of addresses, `start..end`.
#[derive(Clone, Copy, Debug, PartialEq, Eq)]
pub struct AddressRange {
    pub start: usize,
    pub end: usize,
}

impl AddressRange {
    /// Whether `addr` lies in `start..end`.
    pub open spec fn spec_contains(self, addr: usize) -> bool {
        self.start <= addr < self.end
    }

    /// Whether `addr` lies in `start..end`.
    pub fn contains(&self, addr: usize) -> (r: bool)
        ensures
            r == self.spec_contains(addr),
    {
        self.start <= addr && addr < self.end
    }
}

/// A memory map.
#[derive(Debug)]
pub struct MemoryMap {
    pub range: AddressRange,
    pub path: Option<Vec<u8>>,
    pub permissions: Permissions,
}

impl MemoryMap {
    /// Returns the address range of this map.
    pub fn range(&self) -> (r: AddressRange)
        ensures
            r == self.range,
    {
        self.range
    }

    /// Returns the filesystem path of this map if it exists.
    pub fn path(&self) -> (r: Option<&[u8]>)
        ensures
            match r {
                Some(p) => self.path matches Some(q) && p@ == q@,
                None => self.path is None,
            },
    {
        match &self.path {
            Some(p) => Some(p.as_slice()),
            None => None,
        }
    }

    /// Returns the permissions of this map.
    pub fn permissions(&self) -> (r: Permissions)
        ensures
            r == self.permissions,
    {
        self.permissions
    }
}

/// One line of a process's memory maps, as the kernel reports it.
#[derive(Debug)]
pub struct MapEntry {
    pub start: usize,
    pub size: usize,
    pub path: Option<Vec<u8>>,
    pub read: bool,
    pub write: bool,
    pub execute: bool,
}

/// The map an entry describes.
pub open spec fn entry_map(e: MapEntry) -> MemoryMap {
    MemoryMap {
        range: AddressRange { start: e.start, end: (e.start + e.size) as usize },
        path: e.path,
        permissions: Permissions { read: e.read, write: e.write, execute: e.execute },
    }
}

/// The maps of the readable entries, in their order.
pub open spec fn readable_maps(entries: Seq<MapEntry>) -> Seq<MemoryMap>
    decreases entries.len(),
{
    if entries.len() == 0 {
        Seq::empty()
    } else {
        let before = readable_maps(entries.drop_last());
        if entries.last().read {
            before.push(entry_map(entries.last()))
        } else {
            before
        }
    }
}

/// Whether the maps are sorted by start address.
pub open spec fn sorted_by_start(maps: Seq<MemoryMap>) -> bool {
    forall|i: int, j: int|
        0 <= i <= j < maps.len() ==> maps[i].range.start <= maps[j].range.start
}

/// Collection of memory maps.
#[derive(Debug)]
pub struct Maps {
    pub maps: Vec<MemoryMap>,
}

/// Inserting at a position adds the element to the multiset.
proof fn lemma_insert_multiset<A>(s: Seq<A>, i: int, a: A)
    requires
        0 <= i <= s.len(),
    ensures
        s.insert(i, a).to_multiset() =~= s.to_multiset().insert(a),
{
    let t = s.insert(i, a);
    assert(t.remove(i) =~= s);
    assert(t[i] == a);
    assert(t.contains(a));
    assert(t.to_multiset().remove(a) =~= s.to_multiset());
}

impl Maps {
    /// The maps of the readable entries, sorted by start address.
    pub fn from_entries(entries: Vec<MapEntry>) -> (r: Maps)
        requires
            forall|i: int|
                0 <= i < entries@.len() ==> entries@[i].start + entries@[i].size <= usize::MAX,
        ensures
            sorted_by_start(r.maps@),
            r.maps@.to_multiset() == readable_maps(entries@).to_multiset(),
            forall|i: int|
                0 <= i < r.maps@.len() ==> (#[trigger] r.maps@[i]).permissions.read && exists|j: int|
                    0 <= j < entries@.len() && entries@[j].read && r.maps@[i] == entry_map(
                        entries@[j],
                    ),
    {
        let ghost initial = entries@;
        let mut rest = entries;
        let mut maps: Vec<MemoryMap> = Vec::new();
        while rest.len() > 0
            invariant
                rest@ == initial.take(rest@.len() as int),
                rest@.len() <= initial.len(),
                forall|i: int|
                    0 <= i < initial.len() ==> initial[i].start + initial[i].size <= usize::MAX,
                sorted_by_start(maps@),
                maps@.to_multiset().add(readable_maps(rest@).to_multiset())
                    == readable_maps(initial).to_multiset(),
            decreases rest@.len(),
        {
            let ghost before = rest@;
            let entry = rest.pop().unwrap();
            assert(rest@ =~= initial.take(rest@.len() as int));
            assert(before.drop_last() =~= rest@);
            if entry.read {
                let end = entry.start + entry.size;
                let map = MemoryMap {
                    range: AddressRange { start: entry.start, end },
                    path: entry.path,
                    permissions: Permissions {
                        read: entry.read,
                        write: entry.write,
                        execute: entry.execute,
                    },
                };
                let mut pos: usize = 0;
                while pos < maps.len() && maps[pos].range.start <= map.range.start
                    invariant
                        0 <= pos <= maps@.len(),
                        forall|i: int| 0 <= i < pos ==> maps@[i].range.start <= map.range.start,
                    decreases maps@.len() - pos,
                {
                    pos = pos + 1;
                }
                let ghost old_maps = maps@;
                proof {
                    lemma_insert_multiset(old_maps, pos as int, map);
                }
                maps.insert(pos, map);
                assert(maps@ =~= old_maps.insert(pos as int, map));
                assert(sorted_by_start(maps@)) by {
                    assert forall|i: int, j: int|
                        0 <= i <= j < maps@.len() implies maps@[i].range.start
                        <= maps@[j].range.start by {
                        if pos < old_maps.len() {
                            assert(old_maps[pos as int].range.start > map.range.start);
                        }
                    }
                }
            }
        }
        proof {
            assert(rest@.len() == 0);
            assert(readable_maps(rest@) =~= Seq::<MemoryMap>::empty());
            assert(maps@.to_multiset() =~= readable_maps(initial).to_multiset());
            law_maps_readable_with_entry_flags(initial, maps@);
        }
        Maps { maps }
    }
}

/// Every map kept from a process's entries is readable, and is the map of a
/// readable entry: its range, file and write and execute flags are that
/// entry's.
pub proof fn law_maps_readable_with_entry_flags(entries: Seq<MapEntry>, maps: Seq<MemoryMap>)
    requires
        maps.to_multiset() == readable_maps(entries).to_multiset(),
    ensures
        forall|i: int|
            0 <= i < maps.len() ==> (#[trigger] maps[i]).permissions.read && exists|j: int|
                0 <= j < entries.len() && entries[j].read && maps[i] == entry_map(entries[j]),
{
    lemma_readable_maps(entries);
    assert forall|i: int| 0 <= i < maps.len() implies (#[trigger] maps[i]).permissions.read
        && exists|j: int|
        0 <= j < entries.len() && entries[j].read && maps[i] == entry_map(entries[j]) by {
        assert(maps.contains(maps[i]));
        assert(maps.to_multiset().count(maps[i]) > 0);
        assert(readable_maps(entries).contains(maps[i]));
    }
}

/// Every map of the readable entries is readable, and is the map of a
/// readable entry.
proof fn lemma_readable_maps(entries: Seq<MapEntry>)
    ensures
        forall|k: int|
            0 <= k < readable_maps(entries).len() ==> (#[trigger] readable_maps(entries)[k]).permissions.read
                && exists|j: int|
                0 <= j < entries.len() && entries[j].read && readable_maps(entries)[k]
                    == entry_map(entries[j]),
    decreases entries.len(),
{
    if entries.len() > 0 {
        let init = entries.drop_last();
        lemma_readable_maps(init);
        let before = readable_maps(init);
        assert forall|k: int| 0 <= k < readable_maps(entries).len() implies (
        #[trigger] readable_maps(entries)[k]).permissions.read && exists|j: int|
            0 <= j < entries.len() && entries[j].read && readable_maps(entries)[k] == entry_map(
                entries[j],
            ) by {
            if k < before.len() {
                assert(readable_maps(entries)[k] == before[k]);
                let j = choose|j: int|
                    0 <= j < init.len() && init[j].read && before[k] == entry_map(init[j]);
                assert(entries[j] == init[j]);
            } else {
                assert(readable_maps(entries)[k] == entry_map(entries.last()));
                assert(entries[entries.len() - 1] == entries.last());
            }
        }
    }
}

} // verus!

verus! {

/// The index of the first map at or after `from` whose range holds `addr`.
pub open spec fn find_containing(maps: Seq<MemoryMap>, addr: usize, from: nat) -> Option<nat>
    decreases maps.len() - from,
{
    if from >= maps.len() {
        None
    } else if maps[from as int].range.spec_contains(addr) {
        Some(from)
    } else {
        find_containing(maps, addr, from + 1)
    }
}

/// `find_containing` gives the first map at or after `from` that holds the
/// address, and `None` exactly when none there does.
pub proof fn lemma_find_containing(maps: Seq<MemoryMap>, addr: usize, from: nat)
    ensures
        find_containing(maps, addr, from) matches Some(k) ==> {
            &&& from <= k < maps.len()
            &&& maps[k as int].range.spec_contains(addr)
            &&& forall|j: int| from <= j < k ==> !maps[j].range.spec_contains(addr)
        },
        find_containing(maps, addr, from) is None ==> forall|j: int|
            from <= j < maps.len() ==> !maps[j].range.spec_contains(addr),
    decreases maps.len() - from,
{
    if from < maps.len() && !maps[from as int].range.spec_contains(addr) {
        lemma_find_containing(maps, addr, from + 1);
    }
}

/// The end of a range that ends at `end` so far, grown over the maps of
/// `rest` for as long as each starts exactly where the range ends.
pub open spec fn merged_end(end: usize, rest: Seq<MemoryMap>) -> usize
    decreases rest.len(),
{
    if rest.len() == 0 || rest[0].range.start != end {
        end
    } else {
        merged_end(rest[0].range.end, rest.drop_first())
    }
}

/// The permissions of the first map holding `addr`; none when no map holds
/// it or the maps could not be read.
pub open spec fn spec_permissions_of(maps: Option<Seq<MemoryMap>>, addr: usize) -> Permissions {
    match maps {
        Some(maps) => match find_containing(maps, addr, 0) {
            Some(k) => maps[k as int].permissions,
            None => Permissions { read: false, write: false, execute: false },
        },
        None => Permissions { read: false, write: false, execute: false },
    }
}

/// The contiguous code that starts at `addr`: from `addr` to the end of the
/// first map holding it, grown by the maps that follow it without a gap.
pub open spec fn spec_code_range(maps: Seq<MemoryMap>, addr: usize) -> Option<AddressRange> {
    match find_containing(maps, addr, 0) {
        Some(k) => Some(
            AddressRange {
                start: addr,
                end: merged_end(maps[k as int].range.end, maps.skip(k + 1int)),
            },
        ),
        None => None,
    }
}

/// The view of optional maps.
pub open spec fn opt_maps_view(maps: Option<&Maps>) -> Option<Seq<MemoryMap>> {
    match maps {
        Some(m) => Some(m.maps@),
        None => None,
    }
}

impl Maps {
    /// The index of the first map holding `addr`.
    fn position_of(&self, addr: usize) -> (r: Option<usize>)
        ensures
            match r {
                Some(k) => find_containing(self.maps@, addr, 0) == Some(k as nat) && k
                    < self.maps@.len(),
                None => find_containing(self.maps@, addr, 0) is None,
            },
    {
        proof {
            lemma_find_containing(self.maps@, addr, 0);
        }
        let mut i: usize = 0;
        while i < self.maps.len()
            invariant
                0 <= i <= self.maps@.len(),
                find_containing(self.maps@, addr, 0) == find_containing(self.maps@, addr, i as nat),
            decreases self.maps@.len() - i,
        {
            if self.maps[i].range.contains(addr) {
                return Some(i);
            }
            i = i + 1;
        }
        None
    }

    /// The permissions of the first map holding `addr`; empty when no map
    /// holds it, or when the maps could not be read (`maps` is `None`).
    pub fn permissions_of(maps: Option<&Maps>, addr: usize) -> (r: Permissions)
        ensures
            r == spec_permissions_of(opt_maps_view(maps), addr),
    {
        match maps {
            Some(maps) => match maps.position_of(addr) {
                Some(k) => maps.maps[k].permissions(),
                None => Permissions::empty(),
            },
            None => Permissions::empty(),
        }
    }

    /// Whether the map holding `addr` allows every access in `permissions`.
    pub fn assert_permissions(maps: Option<&Maps>, addr: usize, permissions: Permissions) -> (r:
        bool)
        ensures
            r == spec_permissions_of(opt_maps_view(maps), addr).spec_contains(permissions),
    {
        Maps::permissions_of(maps, addr).contains(permissions)
    }

    /// The end of the range that `start_end` begins, grown over the maps
    /// from index `from` on.
    fn merge_from(&self, start_end: usize, from: usize) -> (r: usize)
        requires
            from <= self.maps@.len(),
        ensures
            r == merged_end(start_end, self.maps@.skip(from as int)),
    {
        let ghost rest = self.maps@.skip(from as int);
        let mut end = start_end;
        let mut i = from;
        while i < self.maps.len() && end == self.maps[i].range.start
            invariant
                from <= i <= self.maps@.len(),
                merged_end(start_end, rest) == merged_end(end, self.maps@.skip(i as int)),
            decreases self.maps@.len() - i,
        {
            assert(self.maps@.skip(i as int).drop_first() =~= self.maps@.skip(i + 1));
            end = self.maps[i].range.end;
            i = i + 1;
        }
        end
    }

    /// The contiguous code starting at `addr`, or `None` when no map holds
    /// `addr`.
    pub fn code_range(&self, addr: usize) -> (r: Option<AddressRange>)
        ensures
            r == spec_code_range(self.maps@, addr),
    {
        let len = self.maps.len();
        match self.position_of(addr) {
            Some(k) => {
                assert(k < len);
                proof {
                    lemma_find_containing(self.maps@, addr, 0);
                }
                let end = self.merge_from(self.maps[k].range.end, k + 1);
                Some(AddressRange { start: addr, end })
            },
            None => None,
        }
    }
}

/// The permissions reported for an address are those of a map that holds
/// it, the first such; when no map holds it they are empty.
pub proof fn law_permissions_of_holding_map(maps: Seq<MemoryMap>, addr: usize)
    ensures
        (exists|k: int| 0 <= k < maps.len() && maps[k].range.spec_contains(addr)) ==> exists|k: int|
            0 <= k < maps.len() && maps[k].range.spec_contains(addr) && spec_permissions_of(
                Some(maps),
                addr,
            ) == maps[k].permissions,
        (forall|k: int| 0 <= k < maps.len() ==> !maps[k].range.spec_contains(addr))
            ==> spec_permissions_of(Some(maps), addr) == Permissions::default_value(),
{
    lemma_find_containing(maps, addr, 0);
    if let Some(k) = find_containing(maps, addr, 0) {
        assert(maps[k as int].range.spec_contains(addr));
    }
}

impl Permissions {
    /// The value `Permissions::default()` returns: no flag set.
    pub open spec fn default_value() -> Permissions {
        Permissions { read: false, write: false, execute: false }
    }
}

/// A code range starts at the address asked for, which lies in the first
/// map that holds it, and never ends before that map does.
pub proof fn law_code_range_covers_map(maps: Seq<MemoryMap>, addr: usize)
    requires
        forall|i: int| 0 <= i < maps.len() ==> maps[i].range.start <= maps[i].range.end,
    ensures
        spec_code_range(maps, addr) matches Some(r) ==> {
            &&& r.start == addr
            &&& exists|k: int|
                0 <= k < maps.len() && maps[k].range.spec_contains(addr) && maps[k].range.end
                    <= r.end
        },
        spec_code_range(maps, addr) is None <==> forall|k: int|
            0 <= k < maps.len() ==> !maps[k].range.spec_contains(addr),
{
    lemma_find_containing(maps, addr, 0);
    if let Some(k) = find_containing(maps, addr, 0) {
        lemma_merged_end_grows(maps[k as int].range.end, maps.skip(k + 1int));
    }
}

/// Growing a range never moves its end back, when every map ends after it
/// starts.
pub proof fn lemma_merged_end_grows(end: usize, rest: Seq<MemoryMap>)
    requires
        forall|i: int| 0 <= i < rest.len() ==> #[trigger] rest[i].range.start <= rest[i].range.end,
    ensures
        end <= merged_end(end, rest),
    decreases rest.len(),
{
    if rest.len() > 0 && rest[0].range.start == end {
        lemma_merged_end_grows(rest[0].range.end, rest.drop_first());
    }
}

/// The maps of `maps` whose file is `path`, compared component by component.
pub open spec fn maps_of_path(maps: Seq<MemoryMap>, path: Seq<u8>) -> Seq<MemoryMap>
    decreases maps.len(),
{
    if maps.len() == 0 {
        Seq::empty()
    } else {
        let before = maps_of_path(maps.drop_last(), path);
        match maps.last().path {
            Some(p) => if crate::paths::spec_path_eq(p@, path) {
                before.push(maps.last())
            } else {
                before
            },
            None => before,
        }
    }
}

/// Whether a map's file is `path`, compared component by component.
pub open spec fn is_map_of(map: MemoryMap, path: Seq<u8>) -> bool {
    match map.path {
        Some(p) => crate::paths::spec_path_eq(p@, path),
        None => false,
    }
}

/// The maps kept for a path are maps of that path, and none of that path is
/// dropped: each kept map has a path equal to it, and each map whose path
/// equals it is kept.
pub proof fn law_retain_path(maps: Seq<MemoryMap>, path: Seq<u8>)
    ensures
        forall|i: int|
            0 <= i < maps_of_path(maps, path).len() ==> is_map_of(
                #[trigger] maps_of_path(maps, path)[i],
                path,
            ),
        forall|i: int|
            0 <= i < maps.len() && is_map_of(#[trigger] maps[i], path) ==> maps_of_path(
                maps,
                path,
            ).contains(
                maps[i],
            ),
    decreases maps.len(),
{
    if maps.len() > 0 {
        let rest = maps.drop_last();
        law_retain_path(rest, path);
        let before = maps_of_path(rest, path);
        let after = maps_of_path(maps, path);
        assert forall|i: int|
            0 <= i < maps.len() && is_map_of(#[trigger] maps[i], path) implies after.contains(
                maps[i],
            ) by {
            if i < maps.len() - 1 {
                assert(maps[i] == rest[i]);
                let j = choose|j: int| 0 <= j < before.len() && before[j] == rest[i];
                assert(after[j] == before[j]);
            } else {
                assert(after[after.len() - 1] == maps.last());
            }
        }
    }
}

impl Maps {
    /// The maps whose file is `path`, in their order.
    pub fn retain_path(self, path: &[u8]) -> (r: Maps)
        ensures
            r.maps@ == maps_of_path(self.maps@, path@),
    {
        let ghost initial = self.maps@;
        let n: usize = self.maps.len();
        let mut rest = self.maps;
        let mut kept: Vec<MemoryMap> = Vec::new();
        let mut taken: usize = 0;
        assert(initial.take(0) =~= Seq::<MemoryMap>::empty());
        while rest.len() > 0
            invariant
                taken + rest@.len() == initial.len(),
                initial.len() == n,
                rest@ == initial.skip(taken as int),
                kept@ == maps_of_path(initial.take(taken as int), path@),
            decreases rest@.len(),
        {
            let map = rest.remove(0);
            assert(map == initial[taken as int]);
            assert(initial.take(taken + 1).drop_last() =~= initial.take(taken as int));
            let keep = match &map.path {
                Some(p) => crate::paths::path_eq(p.as_slice(), path),
                None => false,
            };
            if keep {
                kept.push(map);
            }
            taken = taken + 1;
            assert(rest@ =~= initial.skip(taken as int));
        }
        assert(initial.take(taken as int) =~= initial);
        Maps { maps: kept }
    }
}

} // verus!
