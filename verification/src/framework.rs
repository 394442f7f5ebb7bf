//! The application framework: a registry of loaded modules, the scope that
//! hands a list of interfaces to the engine's linker, and how the engine's
//! answers are read.

use crate::text::bytes_eq_utf8;
use vstd::prelude::*;

verus! {

/// Why a framework call failed.
#[derive(Clone, Copy, Debug, PartialEq, Eq)]
pub enum Error {
    /// The module refused to construct the interface.
    Interface,
    /// The interface refused to link.
    Link,
    /// No module of that name was loaded.
    UnknownModule,
}

/// A slot through which one value is handed to a callback that takes no
/// arguments of its own.
#[derive(Debug)]
pub struct Scope<T> {
    value: Option<T>,
}

impl<T> Scope<T> {
    /// An empty scope.
    pub fn new() -> (r: Scope<T>)
        ensures
            r.spec_get() is None,
    {
        Scope { value: None }
    }

    /// What the scope holds.
    pub closed spec fn spec_get(&self) -> Option<T> {
        self.value
    }

    /// Puts `value` in the scope, replacing what it held.
    pub fn set(&mut self, value: T)
        ensures
            final(self).spec_get() == Some(value),
    {
        self.value = Some(value);
    }

    /// What the scope holds, if anything.
    pub fn get(&self) -> (r: Option<&T>)
        ensures
            match self.spec_get() {
                Some(v) => r == Some(&v),
                None => r is None,
            },
    {
        match &self.value {
            Some(v) => Some(v),
            None => None,
        }
    }
}

/// The index of the first interface named `name` (its UTF-8 bytes).
pub open spec fn first_named<T>(with: Seq<(&str, T)>, name: Seq<u8>, from: nat) -> Option<nat>
    decreases with.len() - from,
{
    if from >= with.len() {
        None
    } else if vstd::utf8::encode_utf8(with[from as int].0@) == name {
        Some(from)
    } else {
        first_named(with, name, from + 1)
    }
}

/// The linker's lookup: the index of the first interface in `with` whose
/// name has the bytes `name`.
pub fn find_interface<T>(with: &[(&str, T)], name: &[u8]) -> (r: Option<usize>)
    ensures
        match first_named(with@, name@, 0) {
            Some(i) => r == Some(i as usize),
            None => r is None,
        },
{
    let mut i: usize = 0;
    while i < with.len()
        invariant
            0 <= i <= with@.len(),
            first_named(with@, name@, i as nat) == first_named(with@, name@, 0),
        decreases with@.len() - i,
    {
        if bytes_eq_utf8(name, with[i].0) {
            return Some(i);
        }
        i = i + 1;
    }
    None
}

/// What the linker reports back through its result pointer: 1 when it found
/// the interface, 0 otherwise.
pub fn linker_result(found: bool) -> (r: i32)
    ensures
        r == (if found { 1i32 } else { 0i32 }),
{
    if found {
        1
    } else {
        0
    }
}

/// The outcome of linking: the engine answers 1 on success.
pub fn link_result(code: u8) -> (r: Result<(), Error>)
    ensures
        r == (if code == 1 { Ok(()) } else { Err(Error::Link) }),
{
    if code == 1 {
        Ok(())
    } else {
        Err(Error::Link)
    }
}

/// The outcome of constructing an interface: the module answers 0 on
/// success.
pub fn interface_result(code: i32) -> (r: Result<(), Error>)
    ensures
        r == (if code == 0 { Ok(()) } else { Err(Error::Interface) }),
{
    if code == 0 {
        Ok(())
    } else {
        Err(Error::Interface)
    }
}

/// The loaded modules, by name; a module loaded again under a name replaces
/// the one before.
#[derive(Debug)]
pub struct Framework<M> {
    modules: Vec<(String, M)>,
}

/// The index of the module named `name`.
pub open spec fn index_named<M>(modules: Seq<(String, M)>, name: Seq<char>) -> Option<int>
    decreases modules.len(),
{
    if modules.len() == 0 {
        None
    } else if modules.last().0@ == name {
        Some(modules.len() - 1)
    } else {
        index_named(modules.drop_last(), name)
    }
}

/// `index_named` finds a module of that name, and `None` means there is
/// none.
pub proof fn lemma_index_named<M>(modules: Seq<(String, M)>, name: Seq<char>)
    ensures
        index_named(modules, name) matches Some(i) ==> 0 <= i < modules.len() && modules[i].0@
            == name,
        index_named(modules, name) is None ==> forall|j: int|
            0 <= j < modules.len() ==> modules[j].0@ != name,
    decreases modules.len(),
{
    if modules.len() > 0 && modules.last().0@ != name {
        lemma_index_named(modules.drop_last(), name);
        assert forall|j: int| 0 <= j < modules.len() - 1 implies modules[j] == modules.drop_last()[j] by {}
    }
}

impl<M> Framework<M> {
    /// The modules, in the order of their slots.
    pub closed spec fn spec_modules(&self) -> Seq<(String, M)> {
        self.modules@
    }

    /// The module registered under `name`, if any.
    pub open spec fn spec_module(&self, name: Seq<char>) -> Option<M> {
        lookup(self.spec_modules(), name)
    }

    /// An empty framework.
    pub fn new() -> (r: Framework<M>)
        ensures
            forall|name: Seq<char>| r.spec_module(name) is None,
    {
        Framework { modules: Vec::new() }
    }

    /// Registers a loaded module under `name`.
    pub fn load(&mut self, name: String, module: M)
        ensures
            final(self).spec_module(name@) == Some(module),
            forall|other: Seq<char>|
                other != name@ ==> final(self).spec_module(other) == old(self).spec_module(other),
    {
        let ghost key = name@;
        let mut i = self.modules.len();
        assert(self.modules@.take(i as int) =~= self.modules@);
        while i > 0
            invariant
                i <= self.modules@.len(),
                self.modules@ == old(self).modules@,
                key == name@,
                index_named(self.modules@, key) == index_named(self.modules@.take(i as int), key),
            decreases i,
        {
            assert(self.modules@.take(i as int).drop_last() =~= self.modules@.take(i - 1));
            if self.modules[i - 1].0 == name {
                let ghost e = (name, module);
                proof {
                    assert(index_named(old(self).modules@, key) == Some((i - 1) as int));
                    lemma_lookup_update_same(old(self).modules@, (i - 1) as int, e, key);
                    assert forall|other: Seq<char>| other != key implies lookup(
                        old(self).modules@.update((i - 1) as int, e),
                        other,
                    ) == lookup(old(self).modules@, other) by {
                        lemma_lookup_update_other(
                            old(self).modules@,
                            (i - 1) as int,
                            e,
                            key,
                            other,
                        );
                    }
                }
                self.modules.set(i - 1, (name, module));
                return;
            }
            i = i - 1;
        }
        proof {
            assert(self.modules@.take(0) =~= Seq::<(String, M)>::empty());
        }
        let ghost e = (name, module);
        self.modules.push((name, module));
        assert(self.modules@.drop_last() =~= old(self).modules@);
        assert forall|other: Seq<char>| other != key implies lookup(self.modules@, other) == lookup(
            old(self).modules@,
            other,
        ) by {
            lemma_lookup_drop_last(self.modules@, other);
        }
    }

    /// The module registered under `name`.
    pub fn module(&self, name: &String) -> (r: Result<&M, Error>)
        ensures
            match self.spec_module(name@) {
                Some(m) => r == Ok::<&M, Error>(&m),
                None => r == Err::<&M, Error>(Error::UnknownModule),
            },
    {
        let mut i = self.modules.len();
        assert(self.modules@.take(i as int) =~= self.modules@);
        while i > 0
            invariant
                i <= self.modules@.len(),
                index_named(self.modules@, name@) == index_named(self.modules@.take(i as int), name@),
            decreases i,
        {
            assert(self.modules@.take(i as int).drop_last() =~= self.modules@.take(i - 1));
            if self.modules[i - 1].0 == *name {
                return Ok(&self.modules[i - 1].1);
            }
            i = i - 1;
        }
        Err(Error::UnknownModule)
    }
}

/// The module in the last slot named `name`.
pub open spec fn lookup<M>(modules: Seq<(String, M)>, name: Seq<char>) -> Option<M> {
    match index_named(modules, name) {
        Some(i) => Some(modules[i].1),
        None => None,
    }
}

/// A name the last slot does not hold is looked up in the slots before it.
proof fn lemma_lookup_drop_last<M>(modules: Seq<(String, M)>, name: Seq<char>)
    requires
        modules.len() > 0,
        modules.last().0@ != name,
    ensures
        lookup(modules, name) == lookup(modules.drop_last(), name),
{
    lemma_index_named(modules.drop_last(), name);
    if let Some(i) = index_named(modules.drop_last(), name) {
        assert(modules[i] == modules.drop_last()[i]);
    }
}

/// Replacing the module in a slot named `key` by another named `key`
/// leaves the lookup of every other name as it was.
proof fn lemma_lookup_update_other<M>(
    modules: Seq<(String, M)>,
    k: int,
    e: (String, M),
    key: Seq<char>,
    other: Seq<char>,
)
    requires
        0 <= k < modules.len(),
        modules[k].0@ == key,
        e.0@ == key,
        other != key,
    ensures
        lookup(modules.update(k, e), other) == lookup(modules, other),
    decreases modules.len(),
{
    let u = modules.update(k, e);
    if k == modules.len() - 1 {
        assert(u.drop_last() =~= modules.drop_last());
        lemma_lookup_drop_last(u, other);
        lemma_lookup_drop_last(modules, other);
    } else {
        assert(u.drop_last() =~= modules.drop_last().update(k, e));
        assert(u.last() == modules.last());
        if modules.last().0@ != other {
            lemma_lookup_update_other(modules.drop_last(), k, e, key, other);
            lemma_lookup_drop_last(u, other);
            lemma_lookup_drop_last(modules, other);
        }
    }
}

/// Replacing the module in the last slot named `key` makes `key` find the
/// new module.
proof fn lemma_lookup_update_same<M>(modules: Seq<(String, M)>, k: int, e: (String, M), key: Seq<
    char,
>)
    requires
        0 <= k < modules.len(),
        index_named(modules, key) == Some(k),
        e.0@ == key,
    ensures
        lookup(modules.update(k, e), key) == Some(e.1),
    decreases modules.len(),
{
    let u = modules.update(k, e);
    if k < modules.len() - 1 {
        assert(modules.last().0@ != key);
        assert(u.drop_last() =~= modules.drop_last().update(k, e));
        assert(u.last() == modules.last());
        lemma_lookup_update_same(modules.drop_last(), k, e, key);
        lemma_lookup_drop_last(u, key);
    }
}

} // verus!
