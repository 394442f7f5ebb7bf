use elysium::maps::{AddressRange, MapEntry, Maps, MemoryMap, Permissions};
use elysium::ranges::{many, option, Ranges};
use elysium::traits::Ptr;

fn entry(start: usize, size: usize, path: Option<&str>, perms: &str) -> MapEntry {
    MapEntry {
        start,
        size,
        path: path.map(|p| p.as_bytes().to_vec()),
        read: perms.contains('r'),
        write: perms.contains('w'),
        execute: perms.contains('x'),
    }
}

fn map(start: usize, end: usize, path: Option<&str>, permissions: Permissions) -> MemoryMap {
    MemoryMap { range: AddressRange { start, end }, path: path.map(|p| p.as_bytes().to_vec()), permissions }
}

fn sample() -> Maps {
    Maps::from_entries(vec![
        entry(0x3000, 0x1000, Some("/lib/a.so"), "rw"),
        entry(0x1000, 0x1000, Some("/lib/a.so"), "rx"),
        entry(0x5000, 0x1000, None, "w"),
        entry(0x2000, 0x1000, Some("/lib/a.so"), "r"),
        entry(0x8000, 0x1000, Some("/lib/b.so"), "rx"),
    ])
}

#[test]
fn permissions_constants() {
    assert_eq!(Permissions::read_only().bits(), 1);
    assert_eq!(Permissions::write_only().bits(), 2);
    assert_eq!(Permissions::execute_only().bits(), 4);
    assert_eq!(Permissions::empty().bits(), 0);
    assert_eq!(Permissions::default(), Permissions::empty());
    let all = Permissions { read: true, write: true, execute: true };
    assert_eq!(all.bits(), 7);
}

#[test]
fn permissions_contains_and_set() {
    let mut p = Permissions::empty();
    assert!(p.contains(Permissions::empty()));
    assert!(!p.contains(Permissions::read_only()));
    p.set(Permissions::read_only(), true);
    p.set(Permissions::execute_only(), true);
    assert!(p.contains(Permissions::read_only()));
    assert!(p.contains(Permissions::execute_only()));
    assert!(!p.contains(Permissions::write_only()));
    assert_eq!(p.bits(), 5);
    p.set(Permissions::read_only(), false);
    assert!(!p.contains(Permissions::read_only()));
    assert_eq!(p.bits(), 4);
}

#[test]
fn address_range_is_half_open() {
    let r = AddressRange { start: 0x10, end: 0x20 };
    assert!(r.contains(0x10));
    assert!(r.contains(0x1f));
    assert!(!r.contains(0x20));
    assert!(!r.contains(0x0f));
}

#[test]
fn maps_keep_readable_sorted() {
    let maps = sample();
    let starts: Vec<usize> = maps.maps.iter().map(|m| m.range().start).collect();
    assert_eq!(starts, vec![0x1000, 0x2000, 0x3000, 0x8000]);
    assert_eq!(maps.maps[0].range().end, 0x2000);
    assert_eq!(maps.maps[0].path(), Some(&b"/lib/a.so"[..]));
    assert_eq!(maps.maps[0].permissions(), Permissions { read: true, write: false, execute: true });
}

#[test]
fn map_without_path() {
    let m = map(0, 1, None, Permissions::empty());
    assert_eq!(m.path(), None);
}

#[test]
fn permissions_of_address() {
    let maps = sample();
    let p = Maps::permissions_of(Some(&maps), 0x1800);
    assert_eq!(p, Permissions { read: true, write: false, execute: true });
    assert_eq!(Maps::permissions_of(Some(&maps), 0x3fff).bits(), 3);
    assert_eq!(Maps::permissions_of(Some(&maps), 0x5000), Permissions::empty());
    assert_eq!(Maps::permissions_of(None, 0x1800), Permissions::empty());
    assert!(Maps::assert_permissions(Some(&maps), 0x1800, Permissions::execute_only()));
    assert!(!Maps::assert_permissions(Some(&maps), 0x2800, Permissions::execute_only()));
}

#[test]
fn pointer_permissions() {
    let maps = sample();
    let addr: usize = 0x1234;
    assert!(addr.is_readable(Some(&maps)));
    assert!(!addr.is_writable(Some(&maps)));
    assert!(addr.is_executable(Some(&maps)));
    assert!(!0x9000usize.is_readable(Some(&maps)));
    assert!(!addr.is_readable(None));
}

#[test]
fn code_range_merges_adjacent_maps() {
    let maps = sample();
    assert_eq!(maps.code_range(0x1800), Some(AddressRange { start: 0x1800, end: 0x4000 }));
    assert_eq!(maps.code_range(0x8010), Some(AddressRange { start: 0x8010, end: 0x9000 }));
    assert_eq!(maps.code_range(0x6000), None);
}

#[test]
fn ranges_from_first_map() {
    let maps = sample();
    let mut ranges = maps.ranges();
    assert_eq!(ranges.next(), Some(AddressRange { start: 0x1000, end: 0x4000 }));
    assert_eq!(ranges.next(), Some(AddressRange { start: 0x8000, end: 0x9000 }));
    assert_eq!(ranges.next(), None);
    assert_eq!(ranges.next(), None);
    let mut empty = Ranges::new(&Maps { maps: Vec::new() });
    assert_eq!(empty.next(), None);
}

#[test]
fn ranges_of_option() {
    let r = AddressRange { start: 1, end: 2 };
    let mut one = option(Some(r));
    assert_eq!(one.next(), Some(r));
    assert_eq!(one.next(), None);
    assert_eq!(option(None).next(), None);
}

#[test]
fn ranges_of_many() {
    let first = map(0x100, 0x200, None, Permissions::read_only());
    let rest = [
        map(0x200, 0x300, None, Permissions::read_only()),
        map(0x400, 0x500, None, Permissions::read_only()),
        map(0x300, 0x380, None, Permissions::read_only()),
    ];
    let mut r = many(&first, &rest);
    assert_eq!(r.next(), Some(AddressRange { start: 0x100, end: 0x300 }));
    assert_eq!(r.next(), Some(AddressRange { start: 0x400, end: 0x500 }));
    assert_eq!(r.next(), Some(AddressRange { start: 0x300, end: 0x380 }));
    assert_eq!(r.next(), None);
}

#[test]
fn retain_path_compares_components() {
    let maps = sample().retain_path(b"/lib//a.so");
    let starts: Vec<usize> = maps.maps.iter().map(|m| m.range.start).collect();
    assert_eq!(starts, vec![0x1000, 0x2000, 0x3000]);
    assert!(sample().retain_path(b"/lib/c.so").maps.is_empty());
}

#[test]
fn separated_maps_give_separate_ranges() {
    let maps = Maps::from_entries(vec![entry(0, 10, None, "r"), entry(20, 10, None, "r")]);
    let mut ranges = maps.ranges();
    assert_eq!(ranges.next(), Some(AddressRange { start: 0, end: 10 }));
    assert_eq!(ranges.next(), Some(AddressRange { start: 20, end: 30 }));
    assert_eq!(ranges.next(), None);
}

#[test]
fn every_map_is_readable_with_its_flags() {
    let entries = [(0x1000, "rw"), (0x2000, "x"), (0x3000, "rx"), (0x4000, "r")];
    let maps = Maps::from_entries(entries.iter().map(|(s, p)| entry(*s, 0x10, None, p)).collect());
    assert_eq!(maps.maps.len(), 3);
    for m in &maps.maps {
        let (_, perms) = entries.iter().find(|(s, _)| *s == m.range.start).unwrap();
        assert!(m.permissions().read);
        assert_eq!(m.permissions().write, perms.contains('w'));
        assert_eq!(m.permissions().execute, perms.contains('x'));
    }
}
