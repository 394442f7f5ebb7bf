//! Contiguous memory ranges built from sorted memory maps.

use crate::maps::{AddressRange, Maps, MemoryMap};
use vstd::prelude::*;

verus! {

/// An iterator of contiguous memory ranges.
pub struct Ranges {
    ranges: Vec<AddressRange>,
    next: usize,
}

/// The contiguous ranges of a list of maps, in their order: each map that
/// starts exactly where the last range ends extends it, any other map starts
/// a new range.
pub open spec fn spec_ranges(maps: Seq<MemoryMap>) -> Seq<AddressRange>
    decreases maps.len(),
{
    if maps.len() == 0 {
        Seq::empty()
    } else if maps.len() == 1 {
        seq![maps[0].range]
    } else {
        let before = spec_ranges(maps.drop_last());
        let range = maps.last().range;
        if before.last().end == range.start {
            before.update(
                before.len() - 1,
                AddressRange { start: before.last().start, end: range.end },
            )
        } else {
            before.push(range)
        }
    }
}

/// A nonempty list of maps has ranges, the last ending where the last map
/// ends.
pub proof fn lemma_spec_ranges_last(maps: Seq<MemoryMap>)
    requires
        maps.len() > 0,
    ensures
        spec_ranges(maps).len() > 0,
        spec_ranges(maps).last().end == maps.last().range.end,
    decreases maps.len(),
{
    if maps.len() > 1 {
        lemma_spec_ranges_last(maps.drop_last());
    }
}

/// Every map lies within one of the ranges, and every range runs forwards,
/// when every map does.
pub proof fn law_ranges_cover_maps(maps: Seq<MemoryMap>)
    requires
        forall|i: int| 0 <= i < maps.len() ==> (#[trigger] maps[i]).range.start <= maps[i].range.end,
    ensures
        forall|k: int|
            0 <= k < spec_ranges(maps).len() ==> (#[trigger] spec_ranges(maps)[k]).start
                <= spec_ranges(maps)[k].end,
        forall|i: int|
            0 <= i < maps.len() ==> exists|k: int|
                0 <= k < spec_ranges(maps).len() && (#[trigger] spec_ranges(maps)[k]).start
                    <= (#[trigger] maps[i]).range.start && maps[i].range.end
                    <= spec_ranges(maps)[k].end,
    decreases maps.len(),
{
    if maps.len() > 1 {
        let init = maps.drop_last();
        assert forall|i: int| 0 <= i < init.len() implies (#[trigger] init[i]).range.start
            <= init[i].range.end by {
            assert(init[i] == maps[i]);
        }
        law_ranges_cover_maps(init);
        lemma_spec_ranges_last(init);
        let before = spec_ranges(init);
        let r = spec_ranges(maps);
        let m = maps.last();
        assert(before.len() > 0);
        let lb = before.len() - 1;
        assert(before[lb].start <= before[lb].end);
        assert forall|i: int| 0 <= i < maps.len() implies exists|k: int|
            0 <= k < r.len() && (#[trigger] r[k]).start <= (#[trigger] maps[i]).range.start
                && maps[i].range.end <= r[k].end by {
            if i == maps.len() - 1 {
                assert(maps[i] == m);
                if before[lb].end == m.range.start {
                    assert(r[lb].start <= maps[i].range.start && maps[i].range.end <= r[lb].end);
                } else {
                    assert(r[before.len() as int] == m.range);
                }
            } else {
                assert(maps[i] == init[i]);
                let k = choose|k: int|
                    0 <= k < before.len() && (#[trigger] before[k]).start <= init[i].range.start
                        && init[i].range.end <= before[k].end;
                assert(r[k].start <= maps[i].range.start && maps[i].range.end <= r[k].end);
            }
        }
    } else if maps.len() == 1 {
        assert(maps[0].range.start <= maps[0].range.end);
        assert forall|i: int| 0 <= i < maps.len() implies exists|k: int|
            0 <= k < spec_ranges(maps).len() && (#[trigger] spec_ranges(maps)[k]).start
                <= (#[trigger] maps[i]).range.start && maps[i].range.end
                <= spec_ranges(maps)[k].end by {
            assert(spec_ranges(maps)[0] == maps[i].range);
        }
    }
}

impl View for Ranges {
    type V = Seq<AddressRange>;

    closed spec fn view(&self) -> Seq<AddressRange> {
        self.ranges@.skip(self.next as int)
    }
}

impl Ranges {
    #[verifier::type_invariant]
    closed spec fn well_formed(self) -> bool {
        self.next <= self.ranges@.len()
    }

    /// The ranges of the maps.
    pub fn new(maps: &Maps) -> (r: Ranges)
        ensures
            r@ == spec_ranges(maps.maps@),
    {
        let len = maps.maps.len();
        if len == 0 {
            option(None)
        } else if len == 1 {
            option(Some(maps.maps[0].range()))
        } else {
            let slice = maps.maps.as_slice();
            let rest = &slice[1..len];
            assert(seq![maps.maps@[0]] + rest@ =~= maps.maps@);
            many(&maps.maps[0], rest)
        }
    }

    /// The next range, if any is left.
    pub fn next(&mut self) -> (r: Option<AddressRange>)
        ensures
            old(self)@.len() == 0 ==> r is None && final(self)@ == old(self)@,
            old(self)@.len() > 0 ==> r == Some(old(self)@[0]) && final(self)@ == old(
                self,
            )@.drop_first(),
    {
        proof {
            use_type_invariant(&*self);
        }
        if self.next < self.ranges.len() {
            let r = self.ranges[self.next];
            self.next = self.next + 1;
            assert(self.ranges@.skip(self.next as int) =~= old(self).ranges@.skip(
                old(self).next as int,
            ).drop_first());
            Some(r)
        } else {
            None
        }
    }
}

/// The ranges of at most one range.
pub fn option(range: Option<AddressRange>) -> (r: Ranges)
    ensures
        r@ == match range {
            Some(range) => seq![range],
            None => Seq::empty(),
        },
{
    let mut ranges = Vec::new();
    match range {
        Some(range) => ranges.push(range),
        None => {},
    }
    let r = Ranges { ranges, next: 0 };
    assert(r.ranges@.skip(0) =~= r.ranges@);
    r
}

/// The contiguous ranges of `first` followed by `rest`: a map that starts
/// exactly where the last range ends extends it, any other map starts a new
/// range.
pub fn many(first: &MemoryMap, rest: &[MemoryMap]) -> (r: Ranges)
    ensures
        r@ == spec_ranges(seq![*first] + rest@),
{
    let ghost all = seq![*first] + rest@;
    let mut ranges: Vec<AddressRange> = Vec::new();
    ranges.push(first.range());
    let mut i: usize = 0;
    assert(all.take(1) =~= seq![*first]);
    while i < rest.len()
        invariant
            0 <= i <= rest@.len(),
            all == seq![*first] + rest@,
            ranges@ == spec_ranges(all.take(i + 1)),
            ranges@.len() > 0,
        decreases rest@.len() - i,
    {
        assert(all.take(i + 2).drop_last() =~= all.take(i + 1));
        assert(all.take(i + 2).last() == rest@[i as int]);
        let range = rest[i].range();
        let last_index = ranges.len() - 1;
        let last = ranges[last_index];
        if last.end == range.start {
            ranges.set(last_index, AddressRange { start: last.start, end: range.end });
        } else {
            ranges.push(range);
        }
        i = i + 1;
    }
    assert(all.take(rest@.len() as int + 1) =~= all);
    let r = Ranges { ranges, next: 0 };
    assert(r.ranges@.skip(0) =~= r.ranges@);
    r
}

impl Maps {
    /// The contiguous memory ranges of these maps.
    pub fn ranges(&self) -> (r: Ranges)
        ensures
            r@ == spec_ranges(self.maps@),
    {
        Ranges::new(self)
    }
}

} // verus!
