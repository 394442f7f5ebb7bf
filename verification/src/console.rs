//! The in-game console: the commands it knows and the choices of the
//! `sv_showimpacts` command.

use crate::text::{ascii, bytes_eq_str, bytes_eq_utf8};
use vstd::prelude::*;

verus! {

/// Which bullet impacts to show.
#[derive(Clone, Copy, Debug, PartialEq, Eq, Hash)]
pub enum Impacts {
    /// Don't show any.
    Hidden,
    /// Show client (red), and server (blue).
    Both,
    /// Show client (red).
    Client,
    /// Show server (blue).
    Server,
}

impl Default for Impacts {
    fn default() -> (r: Impacts)
        ensures
            r == Impacts::Hidden,
    {
        Impacts::Hidden
    }
}

/// The name a choice is given on the command line.
pub open spec fn spec_impacts_name(i: Impacts) -> Seq<char> {
    match i {
        Impacts::Hidden => "hidden"@,
        Impacts::Both => "both"@,
        Impacts::Client => "client"@,
        Impacts::Server => "server"@,
    }
}

/// The help text of a choice.
pub open spec fn spec_impacts_help(i: Impacts) -> Seq<char> {
    match i {
        Impacts::Hidden => "Don't show any"@,
        Impacts::Both => "Show client (red), and server (blue)"@,
        Impacts::Client => "Show client (red)"@,
        Impacts::Server => "Show server (blue)"@,
    }
}

/// The choice a command-line name stands for.
pub open spec fn spec_impacts_from_name(name: Seq<u8>) -> Option<Impacts> {
    if name == ascii("hidden"@) {
        Some(Impacts::Hidden)
    } else if name == ascii("both"@) {
        Some(Impacts::Both)
    } else if name == ascii("client"@) {
        Some(Impacts::Client)
    } else if name == ascii("server"@) {
        Some(Impacts::Server)
    } else {
        None
    }
}

impl Impacts {
    /// All choices, in the order they are offered.
    pub fn value_variants() -> (r: Vec<Impacts>)
        ensures
            r@ == seq![Impacts::Hidden, Impacts::Both, Impacts::Client, Impacts::Server],
    {
        let mut v = Vec::new();
        v.push(Impacts::Hidden);
        v.push(Impacts::Both);
        v.push(Impacts::Client);
        v.push(Impacts::Server);
        assert(v@ =~= seq![Impacts::Hidden, Impacts::Both, Impacts::Client, Impacts::Server]);
        v
    }

    /// The name this choice is given on the command line.
    pub fn name(&self) -> (r: &'static str)
        ensures
            r@ == spec_impacts_name(*self),
    {
        match self {
            Impacts::Hidden => "hidden",
            Impacts::Both => "both",
            Impacts::Client => "client",
            Impacts::Server => "server",
        }
    }

    /// The help text of this choice.
    pub fn help(&self) -> (r: &'static str)
        ensures
            r@ == spec_impacts_help(*self),
    {
        match self {
            Impacts::Hidden => "Don't show any",
            Impacts::Both => "Show client (red), and server (blue)",
            Impacts::Client => "Show client (red)",
            Impacts::Server => "Show server (blue)",
        }
    }

    /// The choice a command-line name stands for.
    pub fn from_name(name: &[u8]) -> (r: Option<Impacts>)
        ensures
            r == spec_impacts_from_name(name@),
    {
        proof {
            reveal_strlit("hidden");
            reveal_strlit("both");
            reveal_strlit("client");
            reveal_strlit("server");
        }
        if bytes_eq_str(name, "hidden") {
            Some(Impacts::Hidden)
        } else if bytes_eq_str(name, "both") {
            Some(Impacts::Both)
        } else if bytes_eq_str(name, "client") {
            Some(Impacts::Client)
        } else if bytes_eq_str(name, "server") {
            Some(Impacts::Server)
        } else {
            None
        }
    }
}

/// Every choice is read back from its own name.
pub proof fn law_impacts_name_round_trip(i: Impacts)
    ensures
        spec_impacts_from_name(ascii(spec_impacts_name(i))) == Some(i),
{
    reveal_strlit("hidden");
    reveal_strlit("both");
    reveal_strlit("client");
    reveal_strlit("server");
    let h = ascii("hidden"@);
    let b = ascii("both"@);
    let c = ascii("client"@);
    assert(h.len() == 6 && b.len() == 4 && c.len() == 6);
    assert(h[0] == 0x68u8 && c[0] == 0x63u8 && ascii("server"@)[0] == 0x73u8);
}

/// The names of the console's commands.
pub open spec fn command_names() -> Seq<Seq<char>> {
    seq![
        "buddah"@,
        "getpos"@,
        "god"@,
        "mp_restartgame"@,
        "noclip"@,
        "notarget"@,
        "setpos"@,
        "sv_airaccelerate"@,
        "sv_autobunnyhopping"@,
        "sv_cheats"@,
        "sv_enablebunnyhopping"@,
        "sv_gravity"@,
        "sv_pure"@,
        "sv_showimpacts"@,
    ]
}

/// Whether `name` is the name of a console command.
pub fn has_subcommand(name: &[u8]) -> (r: bool)
    ensures
        r == exists|i: int|
            0 <= i < command_names().len() && name@ == vstd::utf8::encode_utf8(command_names()[i]),
{
    proof {
        reveal_strlit("buddah");
        reveal_strlit("getpos");
        reveal_strlit("god");
        reveal_strlit("mp_restartgame");
        reveal_strlit("noclip");
        reveal_strlit("notarget");
        reveal_strlit("setpos");
        reveal_strlit("sv_airaccelerate");
        reveal_strlit("sv_autobunnyhopping");
        reveal_strlit("sv_cheats");
        reveal_strlit("sv_enablebunnyhopping");
        reveal_strlit("sv_gravity");
        reveal_strlit("sv_pure");
        reveal_strlit("sv_showimpacts");
    }
    let names = [
        "buddah",
        "getpos",
        "god",
        "mp_restartgame",
        "noclip",
        "notarget",
        "setpos",
        "sv_airaccelerate",
        "sv_autobunnyhopping",
        "sv_cheats",
        "sv_enablebunnyhopping",
        "sv_gravity",
        "sv_pure",
        "sv_showimpacts",
    ];
    assert(forall|i: int| 0 <= i < 14 ==> names@[i]@ == command_names()[i]);
    let mut i: usize = 0;
    while i < 14
        invariant
            0 <= i <= 14,
            names@.len() == 14,
            forall|j: int| 0 <= j < 14 ==> names@[j]@ == command_names()[j],
            forall|j: int| 0 <= j < i ==> name@ != vstd::utf8::encode_utf8(command_names()[j]),
        decreases 14 - i,
    {
        if bytes_eq_utf8(name, names[i]) {
            assert(name@ == vstd::utf8::encode_utf8(command_names()[i as int]));
            return true;
        }
        i = i + 1;
    }
    false
}

} // verus!
