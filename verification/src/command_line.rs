//! The command line that the launcher hands to the engine's `ICommandLine`
//! interface in place of the real process arguments.
//!
//! Every query the engine makes is answered from a fixed table, so the
//! engine always starts with the same arguments whatever the process got.

use crate::text::{ascii, bytes_eq_str};
use vstd::prelude::*;

verus! {

/// Reads four ASCII bytes as a little-endian `i32` (the layout of a
/// four-character constant on the x86-64 target the launcher runs on).
pub open spec fn four_cc(b0: u8, b1: u8, b2: u8, b3: u8) -> int {
    b0 + b1 * 0x100 + b2 * 0x1_0000 + b3 * 0x100_0000
}

/// Index that `find_parm` hands out for `-basedir`: the bytes `BASE`.
pub const BASE_DIR: i32 = 0x4553_4142;

/// Index that `find_parm` hands out for `-game`: the bytes `GAME`.
pub const GAME: i32 = 0x454D_4147;

/// Index that `find_parm` hands out for `-vulkan`: the bytes `VKVK`.
pub const VULKAN: i32 = 0x4B56_4B56;

/// The three indices are the four-character codes of their names, and are
/// told apart from each other and from the program-name index 0.
pub proof fn law_index_codes()
    ensures
        BASE_DIR == four_cc(0x42, 0x41, 0x53, 0x45),
        GAME == four_cc(0x47, 0x41, 0x4D, 0x45),
        VULKAN == four_cc(0x56, 0x4B, 0x56, 0x4B),
        BASE_DIR != GAME && GAME != VULKAN && BASE_DIR != VULKAN,
        BASE_DIR != 0 && GAME != 0 && VULKAN != 0,
{
}

/// The program name reported by the emulated command line.
pub open spec fn spec_current_exe() -> Seq<char> {
    "csgo_linux64"@
}

/// The mod directory reported for `-game`.
pub open spec fn spec_mod_dir() -> Seq<char> {
    "csgo"@
}

/// The value of each argument the emulated command line knows.
pub open spec fn spec_map_arg(arg: Seq<u8>) -> Option<Seq<char>> {
    if arg == ascii("+fps_max"@) {
        Some("400"@)
    } else if arg == ascii("-basedir"@) {
        Some(""@)
    } else if arg == ascii("-defaultgamedir"@) {
        Some("hl2"@)
    } else if arg == ascii("-game"@) {
        Some(spec_mod_dir())
    } else if arg == ascii("-language"@) {
        Some("english"@)
    } else if arg == ascii("-transmitevents"@) {
        Some(""@)
    } else if arg == ascii("-window_name_suffix"@) {
        Some(""@)
    } else {
        None
    }
}

/// The index `find_parm` reports for an argument; 0 when it has none.
pub open spec fn spec_find_parm(arg: Seq<u8>) -> i32 {
    if arg == ascii("-basedir"@) {
        BASE_DIR
    } else if arg == ascii("-game"@) {
        GAME
    } else if arg == ascii("-vulkan"@) {
        VULKAN
    } else {
        0
    }
}

/// The parameter stored at an index, as `get_parm` reports it.
pub open spec fn spec_get_parm(index: i32) -> Option<Seq<char>> {
    if index == 0 {
        Some(spec_current_exe())
    } else if index == BASE_DIR {
        Some(""@)
    } else if index == GAME {
        Some(spec_mod_dir())
    } else if index == VULKAN {
        Some(""@)
    } else {
        None
    }
}

/// Every nonzero index that `find_parm` hands out names a parameter that
/// `get_parm` resolves, and for `-basedir` and `-game` it resolves to the
/// value that `check_parm` reports for the same argument.
pub proof fn law_find_parm_resolves(arg: Seq<u8>)
    ensures
        spec_find_parm(arg) != 0 ==> spec_get_parm(spec_find_parm(arg)) is Some,
        spec_find_parm(arg) != 0 && spec_find_parm(arg) != VULKAN ==> spec_get_parm(
            spec_find_parm(arg),
        ) == spec_map_arg(arg),
{
    reveal_strlit("+fps_max");
    reveal_strlit("-basedir");
    reveal_strlit("-game");
    reveal_strlit("-vulkan");
    reveal_strlit("-defaultgamedir");
    let fps = ascii("+fps_max"@);
    assert(fps[0] == 0x2bu8);
    if arg == ascii("-basedir"@) {
        assert(arg[0] == 0x2du8);
        assert(arg != fps);
    } else if arg == ascii("-game"@) {
        assert(arg[0] == 0x2du8);
        assert(arg != fps);
        assert(arg.len() == 5);
        assert(arg != ascii("-basedir"@));
        assert(arg != ascii("-defaultgamedir"@));
    }
}

/// Index 0 of the parameters is the program name that `get_cmd_line` reports.
pub proof fn law_program_name_is_first_parm()
    ensures
        spec_get_parm(0) == Some(spec_current_exe()),
{
}

/// The view of an optional string.
pub open spec fn opt_view(o: Option<&str>) -> Option<Seq<char>> {
    match o {
        Some(s) => Some(s@),
        None => None,
    }
}

/// Looks up the value of an argument in the fixed table.
pub fn map_arg(arg: &[u8]) -> (r: Option<&'static str>)
    ensures
        opt_view(r) == spec_map_arg(arg@),
{
    proof {
        reveal_strlit("+fps_max");
        reveal_strlit("-basedir");
        reveal_strlit("-defaultgamedir");
        reveal_strlit("-game");
        reveal_strlit("-language");
        reveal_strlit("-transmitevents");
        reveal_strlit("-window_name_suffix");
    }
    if bytes_eq_str(arg, "+fps_max") {
        Some("400")
    } else if bytes_eq_str(arg, "-basedir") {
        Some("")
    } else if bytes_eq_str(arg, "-defaultgamedir") {
        Some("hl2")
    } else if bytes_eq_str(arg, "-game") {
        Some("csgo")
    } else if bytes_eq_str(arg, "-language") {
        Some("english")
    } else if bytes_eq_str(arg, "-transmitevents") {
        Some("")
    } else if bytes_eq_str(arg, "-window_name_suffix") {
        Some("")
    } else {
        None
    }
}

/// The emulated `ICommandLine` of the engine.
#[derive(Clone, Copy, Debug)]
pub struct CommandLine;

/// The emulated command line handed to the engine.
pub fn command_line() -> (r: CommandLine)
    ensures
        r == CommandLine,
{
    CommandLine
}

impl CommandLine {
    /// The whole command line: only the program name.
    pub fn get_cmd_line(&self) -> (r: &'static str)
        ensures
            r@ == spec_current_exe(),
    {
        "csgo_linux64"
    }

    /// The value of `psz` if the command line holds it.
    pub fn check_parm(&self, psz: &[u8]) -> (r: Option<&'static str>)
        ensures
            opt_view(r) == spec_map_arg(psz@),
    {
        map_arg(psz)
    }

    /// Whether the command line holds `psz`.
    pub fn has_parm(&self, psz: &[u8]) -> (r: bool)
        ensures
            r == spec_map_arg(psz@).is_some(),
    {
        map_arg(psz).is_some()
    }

    /// The value of `psz`, or `default` when the command line lacks it.
    pub fn parm_value<'a>(&self, psz: &[u8], default: &'a str) -> (r: &'a str)
        ensures
            r@ == match spec_map_arg(psz@) {
                Some(v) => v,
                None => default@,
            },
    {
        match map_arg(psz) {
            Some(v) => v,
            None => default,
        }
    }

    /// The integer value of `psz`: always the default given.
    pub fn parm_value_int(&self, psz: &[u8], default: i32) -> (r: i32)
        ensures
            r == default,
    {
        default
    }

    /// The number of parameters: only the program name.
    pub fn parm_count(&self) -> (r: i32)
        ensures
            r == 1,
    {
        1
    }

    /// The index of `psz`, 0 when it has none.
    pub fn find_parm(&self, psz: &[u8]) -> (r: i32)
        ensures
            r == spec_find_parm(psz@),
    {
        proof {
            reveal_strlit("-basedir");
            reveal_strlit("-game");
            reveal_strlit("-vulkan");
        }
        if bytes_eq_str(psz, "-basedir") {
            BASE_DIR
        } else if bytes_eq_str(psz, "-game") {
            GAME
        } else if bytes_eq_str(psz, "-vulkan") {
            VULKAN
        } else {
            0
        }
    }

    /// The parameter stored at `index`, if any.
    pub fn get_parm(&self, index: i32) -> (r: Option<&'static str>)
        ensures
            opt_view(r) == spec_get_parm(index),
    {
        if index == 0 {
            Some("csgo_linux64")
        } else if index == BASE_DIR {
            Some("")
        } else if index == GAME {
            Some("csgo")
        } else if index == VULKAN {
            Some("")
        } else {
            None
        }
    }

    /// The parameter list, ended by `None` as the C array is ended by a
    /// null pointer.
    pub fn get_parms(&self) -> (r: Vec<Option<&'static str>>)
        ensures
            r@.len() == 2,
            opt_view(r@[0]) == Some(spec_current_exe()),
            r@[1] is None,
    {
        let mut v = Vec::new();
        v.push(Some("csgo_linux64"));
        v.push(None);
        v
    }
}

} // verus!
