//! The engine's modules: their names, where their files are looked for, and
//! the order they are loaded in.

use vstd::prelude::*;
use vstd::string::StringExecFns;

verus! {

/// A module of the engine.
#[derive(Clone, Copy, Debug, PartialEq, Eq)]
pub enum SourceModule {
    Client,
    Engine,
    Input,
    Launcher,
    Material,
    Tier0,
    VGui,
    VPhysics,
}

/// The name a module's file is built from.
pub open spec fn spec_ident(module: SourceModule) -> Seq<char> {
    match module {
        SourceModule::Client => "client"@,
        SourceModule::Engine => "engine"@,
        SourceModule::Input => "inputsystem"@,
        SourceModule::Launcher => "launcher"@,
        SourceModule::Material => "materialsystem"@,
        SourceModule::Tier0 => "libtier0"@,
        SourceModule::VGui => "vgui2"@,
        SourceModule::VPhysics => "vphysics"@,
    }
}

impl SourceModule {
    /// The name a module's file is built from.
    pub fn ident(&self) -> (r: &'static str)
        ensures
            r@ == spec_ident(*self),
    {
        match self {
            SourceModule::Client => "client",
            SourceModule::Engine => "engine",
            SourceModule::Input => "inputsystem",
            SourceModule::Launcher => "launcher",
            SourceModule::Material => "materialsystem",
            SourceModule::Tier0 => "libtier0",
            SourceModule::VGui => "vgui2",
            SourceModule::VPhysics => "vphysics",
        }
    }
}

/// The order modules are loaded in. Some run code when they are loaded, so
/// the launcher comes first, then tier0, and the rest after.
pub open spec fn spec_load_order() -> Seq<SourceModule> {
    seq![
        SourceModule::Launcher,
        SourceModule::Tier0,
        SourceModule::Client,
        SourceModule::Engine,
        SourceModule::Input,
        SourceModule::Material,
        SourceModule::VGui,
        SourceModule::VPhysics,
    ]
}

/// The order modules are loaded in.
pub fn load_order() -> (r: Vec<SourceModule>)
    ensures
        r@ == spec_load_order(),
{
    let mut v: Vec<SourceModule> = Vec::new();
    v.push(SourceModule::Launcher);
    v.push(SourceModule::Tier0);
    v.push(SourceModule::Client);
    v.push(SourceModule::Engine);
    v.push(SourceModule::Input);
    v.push(SourceModule::Material);
    v.push(SourceModule::VGui);
    v.push(SourceModule::VPhysics);
    assert(v@ =~= spec_load_order());
    v
}

/// The launcher is loaded first and tier0 second, and every module is
/// loaded exactly once.
pub proof fn law_load_order()
    ensures
        spec_load_order()[0] == SourceModule::Launcher,
        spec_load_order()[1] == SourceModule::Tier0,
        forall|m: SourceModule|
            #![trigger spec_load_order().contains(m)]
            spec_load_order().contains(m),
        forall|i: int, j: int|
            0 <= i < j < spec_load_order().len() ==> spec_load_order()[i] != spec_load_order()[j],
{
    let s = spec_load_order();
    assert forall|m: SourceModule| #![trigger s.contains(m)] s.contains(m) by {
        match m {
            SourceModule::Launcher => assert(s[0] == m),
            SourceModule::Tier0 => assert(s[1] == m),
            SourceModule::Client => assert(s[2] == m),
            SourceModule::Engine => assert(s[3] == m),
            SourceModule::Input => assert(s[4] == m),
            SourceModule::Material => assert(s[5] == m),
            SourceModule::VGui => assert(s[6] == m),
            SourceModule::VPhysics => assert(s[7] == m),
        }
    }
}

/// The directories a module's file is looked for in, in order.
pub open spec fn search_dirs() -> Seq<Seq<char>> {
    seq!["./bin/linux64"@, "./csgo/bin/linux64"@]
}

/// The file name of a module: its name, `_client`, and the suffix of shared
/// libraries here.
pub open spec fn spec_file_name(ident: Seq<char>) -> Seq<char> {
    ident + "_client.so"@
}

/// `dir` joined with a file name: the name alone where it is absolute, else
/// the two with a separator between.
pub open spec fn spec_join(dir: Seq<char>, name: Seq<char>) -> Seq<char> {
    if name.len() > 0 && name[0] == '/' {
        name
    } else {
        dir + "/"@ + name
    }
}

/// The paths a module's file is looked for at, in the order they are tried.
pub open spec fn spec_candidate_paths(ident: Seq<char>) -> Seq<Seq<char>> {
    search_dirs().map_values(|dir: Seq<char>| spec_join(dir, spec_file_name(ident)))
}

/// The path of a module's file in one directory.
fn join(dir: &str, ident: &str) -> (r: String)
    ensures
        r@ == spec_join(dir@, spec_file_name(ident@)),
{
    let mut name = String::from_str(ident);
    name.append("_client.so");
    proof {
        reveal_strlit("_client.so");
    }
    let absolute = name.as_str().unicode_len() > 0 && name.as_str().get_char(0) == '/';
    if absolute {
        name
    } else {
        let mut path = String::from_str(dir);
        path.append("/");
        path.append(name.as_str());
        proof {
            reveal_strlit("/");
            assert(path@ =~= dir@ + "/"@ + name@);
        }
        path
    }
}

/// The paths a module's file is looked for at, in the order they are tried.
pub fn candidate_paths(ident: &str) -> (r: Vec<String>)
    ensures
        r@.len() == spec_candidate_paths(ident@).len(),
        forall|i: int| 0 <= i < r@.len() ==> #[trigger] r@[i]@ == spec_candidate_paths(ident@)[i],
{
    let first = join("./bin/linux64", ident);
    let second = join("./csgo/bin/linux64", ident);
    let mut v: Vec<String> = Vec::new();
    v.push(first);
    v.push(second);
    v
}

/// How opening a module's file at one of its paths went.
#[derive(Clone, Copy, Debug, PartialEq, Eq)]
pub enum Attempt {
    /// The library was opened.
    Opened,
    /// The library could not be opened there.
    Failed,
}

/// What to do after some of a module's paths were tried.
#[derive(Clone, Copy, Debug, PartialEq, Eq)]
pub enum LoadOutcome {
    /// Use the library opened at this attempt.
    Loaded(usize),
    /// Try the next path.
    TryNext,
    /// Every path failed: the library cannot be found.
    Failed,
}

/// The first attempt from `from` on that opened the library.
pub open spec fn first_opened(attempts: Seq<Attempt>, from: nat) -> Option<nat>
    decreases attempts.len() - from,
{
    if from >= attempts.len() {
        None
    } else if attempts[from as int] == Attempt::Opened {
        Some(from)
    } else {
        first_opened(attempts, from + 1)
    }
}

/// What to do after the attempts so far, out of `paths` paths: use the first
/// library opened; otherwise go on while paths are left; otherwise fail, the
/// library being reported as not found whatever the attempts failed with.
pub open spec fn spec_load_outcome(attempts: Seq<Attempt>, paths: nat) -> LoadOutcome {
    match first_opened(attempts, 0) {
        Some(i) => LoadOutcome::Loaded(i as usize),
        None => if attempts.len() < paths {
            LoadOutcome::TryNext
        } else {
            LoadOutcome::Failed
        },
    }
}

/// What to do after the attempts so far, out of `paths` paths.
pub fn load_outcome(attempts: &[Attempt], paths: usize) -> (r: LoadOutcome)
    ensures
        r == spec_load_outcome(attempts@, paths as nat),
{
    let mut i: usize = 0;
    while i < attempts.len()
        invariant
            0 <= i <= attempts@.len(),
            first_opened(attempts@, 0) == first_opened(attempts@, i as nat),
        decreases attempts@.len() - i,
    {
        if matches!(attempts[i], Attempt::Opened) {
            return LoadOutcome::Loaded(i);
        }
        i = i + 1;
    }
    if attempts.len() < paths {
        LoadOutcome::TryNext
    } else {
        LoadOutcome::Failed
    }
}

} // verus!
