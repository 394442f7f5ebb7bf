//! The engine's log calls, taken over: which text a call logs, and at which
//! level.

use crate::mem::{lossy_utf8, utf8_lossy};
use vstd::prelude::*;

verus! {

/// The characters with the Unicode `White_Space` property.
pub open spec fn is_white_space(c: char) -> bool {
    ||| '\u{9}' <= c <= '\u{d}'
    ||| c == ' '
    ||| c == '\u{85}'
    ||| c == '\u{a0}'
    ||| c == '\u{1680}'
    ||| '\u{2000}' <= c <= '\u{200a}'
    ||| c == '\u{2028}'
    ||| c == '\u{2029}'
    ||| c == '\u{202f}'
    ||| c == '\u{205f}'
    ||| c == '\u{3000}'
}

/// `s` without its leading white space.
pub open spec fn trim_start(s: Seq<char>) -> Seq<char>
    decreases s.len(),
{
    if s.len() > 0 && is_white_space(s[0]) {
        trim_start(s.drop_first())
    } else {
        s
    }
}

/// `s` without its trailing white space.
pub open spec fn trim_end(s: Seq<char>) -> Seq<char>
    decreases s.len(),
{
    if s.len() > 0 && is_white_space(s.last()) {
        trim_end(s.drop_last())
    } else {
        s
    }
}

/// `s` without its leading and trailing white space.
pub open spec fn spec_trim(s: Seq<char>) -> Seq<char> {
    trim_end(trim_start(s))
}

/// Whether a character has the Unicode `White_Space` property.
fn white_space(c: char) -> (r: bool)
    ensures
        r == is_white_space(c),
{
    let n = c as u32;
    (0x9 <= n && n <= 0xd) || n == 0x20 || n == 0x85 || n == 0xa0 || n == 0x1680 || (0x2000 <= n
        && n <= 0x200a) || n == 0x2028 || n == 0x2029 || n == 0x202f || n == 0x205f || n == 0x3000
}

/// Leading white space can be skipped a character at a time.
proof fn lemma_trim_start(s: Seq<char>, i: int)
    requires
        0 <= i <= s.len(),
        forall|j: int| 0 <= j < i ==> is_white_space(s[j]),
    ensures
        trim_start(s) == trim_start(s.subrange(i, s.len() as int)),
    decreases i,
{
    if i > 0 {
        let t = s.drop_first();
        assert forall|j: int| 0 <= j < i - 1 implies is_white_space(t[j]) by {
            assert(t[j] == s[j + 1]);
        }
        lemma_trim_start(t, i - 1);
        assert(t.subrange(i - 1, t.len() as int) =~= s.subrange(i, s.len() as int));
    } else {
        assert(s.subrange(0, s.len() as int) =~= s);
    }
}

/// Trailing white space can be dropped a character at a time.
proof fn lemma_trim_end(s: Seq<char>, e: int)
    requires
        0 <= e <= s.len(),
        forall|j: int| e <= j < s.len() ==> is_white_space(s[j]),
    ensures
        trim_end(s) == trim_end(s.subrange(0, e)),
    decreases s.len() - e,
{
    if e < s.len() {
        let t = s.drop_last();
        assert forall|j: int| e <= j < t.len() implies is_white_space(t[j]) by {
            assert(t[j] == s[j]);
        }
        assert(is_white_space(s.last()));
        lemma_trim_end(t, e);
        assert(t.subrange(0, e) =~= s.subrange(0, e));
    } else {
        assert(s.subrange(0, e) =~= s);
    }
}

/// `s` without its leading and trailing white space.
fn trim(s: &str) -> (r: &str)
    ensures
        r@ == spec_trim(s@),
{
    let n = s.unicode_len();
    let mut start: usize = 0;
    while start < n && white_space(s.get_char(start))
        invariant
            0 <= start <= n,
            n == s@.len(),
            forall|j: int| 0 <= j < start ==> is_white_space(s@[j]),
        decreases n - start,
    {
        start = start + 1;
    }
    let mut end: usize = n;
    while end > start && white_space(s.get_char(end - 1))
        invariant
            start <= end <= n,
            n == s@.len(),
            forall|j: int| end <= j < n ==> is_white_space(s@[j]),
        decreases end - start,
    {
        end = end - 1;
    }
    proof {
        lemma_trim_start(s@, start as int);
        let t = s@.subrange(start as int, n as int);
        assert(trim_start(t) == t);
        assert forall|j: int| end - start <= j < t.len() implies is_white_space(t[j]) by {
            assert(t[j] == s@[start + j]);
        }
        lemma_trim_end(t, end - start);
        let u = t.subrange(0, end - start);
        assert(u =~= s@.subrange(start as int, end as int));
        if u.len() > 0 {
            assert(u.last() == s@[end - 1]);
        }
        assert(trim_end(u) == u);
    }
    s.substring_char(start, end)
}

/// How severe the engine says a logged message is.
#[derive(Clone, Copy, Debug, PartialEq, Eq)]
pub enum Severity {
    Message,
    Warning,
    Error,
    /// Any other severity the engine passes.
    Other,
}

/// The level a message is logged at here.
#[derive(Clone, Copy, Debug, PartialEq, Eq)]
pub enum LogLevel {
    Error,
    Warn,
    Info,
    Trace,
}

/// The level for a severity: errors, warnings and messages keep theirs, the
/// rest are traced.
pub fn log_level(severity: Severity) -> (r: LogLevel)
    ensures
        r == (match severity {
            Severity::Error => LogLevel::Error,
            Severity::Warning => LogLevel::Warn,
            Severity::Message => LogLevel::Info,
            Severity::Other => LogLevel::Trace,
        }),
{
    match severity {
        Severity::Error => LogLevel::Error,
        Severity::Warning => LogLevel::Warn,
        Severity::Message => LogLevel::Info,
        Severity::Other => LogLevel::Trace,
    }
}

/// Whether a format, read as text, is a lone `%s` once trimmed: then the
/// call's first argument is the message.
pub open spec fn spec_takes_argument(format: Seq<u8>) -> bool {
    spec_trim(lossy_utf8(format)) == seq!['%', 's']
}

/// Whether the message of a log call with this format is its first argument.
pub fn takes_argument(format: &[u8]) -> (r: bool)
    ensures
        r == spec_takes_argument(format@),
{
    let text = utf8_lossy(format);
    let t = trim(text.as_str());
    if t.unicode_len() != 2 {
        return false;
    }
    let first = t.get_char(0);
    let second = t.get_char(1);
    let r = first == '%' && second == 's';
    proof {
        if r {
            assert(t@ =~= seq!['%', 's']);
        }
    }
    r
}

/// The text a log call writes: its argument when the format is a lone `%s`,
/// else the format itself, read as text and trimmed.
pub open spec fn spec_log_message(format: Seq<u8>, argument: Option<Seq<u8>>) -> Seq<char> {
    if spec_takes_argument(format) {
        spec_trim(lossy_utf8(argument.unwrap()))
    } else {
        spec_trim(lossy_utf8(format))
    }
}

/// The text a log call writes. The argument is read only where the format
/// asks for it, and must then be there.
pub fn log_message(format: &[u8], argument: Option<&[u8]>) -> (r: String)
    requires
        spec_takes_argument(format@) ==> argument is Some,
    ensures
        r@ == spec_log_message(format@, match argument {
            Some(a) => Some(a@),
            None => None,
        }),
{
    if takes_argument(format) {
        let arg = argument.unwrap();
        let text = utf8_lossy(arg);
        trim(text.as_str()).to_owned()
    } else {
        let text = utf8_lossy(format);
        trim(text.as_str()).to_owned()
    }
}

/// The text a log call writes, or `None` where the format asks for an
/// argument that is not there.
pub fn try_log_message(format: &[u8], argument: Option<&[u8]>) -> (r: Option<String>)
    ensures
        spec_takes_argument(format@) && argument is None ==> r is None,
        !(spec_takes_argument(format@) && argument is None) ==> (r matches Some(text) && text@
            == spec_log_message(format@, match argument {
            Some(a) => Some(a@),
            None => None,
        })),
{
    if argument.is_none() && takes_argument(format) {
        None
    } else {
        Some(log_message(format, argument))
    }
}

} // verus!
