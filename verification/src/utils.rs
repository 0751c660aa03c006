//! The version of the daemon, as the daemon prints it: four numbers
//! separated by dots, then a status tag after a hyphen where there is one,
//! then extra information in parentheses after a space where there is some.

use crate::text::{
    all_in, chars_of, decimal_value, lemma_run_reaches, parse_decimal, run_end, scan_run,
    slice_string, CharClass,
};
use vstd::prelude::*;

verus! {

/// A version of the daemon. Versions compare field by field, in the order of
/// the fields.
#[derive(Debug, PartialEq, PartialOrd)]
pub struct TorVersion {
    pub major: u16,
    pub minor: u16,
    pub micro: u16,
    pub patch_level: u16,
    pub status_tag: Option<String>,
    pub extra_info: Option<String>,
}

/// The mathematical content of a [`TorVersion`].
pub struct TorVersionView {
    pub major: u16,
    pub minor: u16,
    pub micro: u16,
    pub patch_level: u16,
    pub status_tag: Option<Seq<char>>,
    pub extra_info: Option<Seq<char>>,
}

impl View for TorVersion {
    type V = TorVersionView;

    open spec fn view(&self) -> TorVersionView {
        TorVersionView {
            major: self.major,
            minor: self.minor,
            micro: self.micro,
            patch_level: self.patch_level,
            status_tag: self.status_tag.deep_view(),
            extra_info: self.extra_info.deep_view(),
        }
    }
}

/// The ways in which a text can fail to be a version.
#[derive(Debug, Clone, Copy, PartialEq, Eq, Structural)]
pub enum Error {
    /// The text does not have the form of a version.
    RegexCapture,
    /// A part of the version is absent.
    MissingField,
    /// One of the four numbers is larger than 65535.
    NumberTooLarge,
    /// The daemon's output is too short to hold a version.
    TorVersionTooShort,
}

/// The fields of a version text, as they stand in it.
pub struct VersionFields {
    pub major: Seq<char>,
    pub minor: Seq<char>,
    pub micro: Seq<char>,
    pub patch_level: Seq<char>,
    pub status_tag: Option<Seq<char>>,
    pub extra_info: Option<Seq<char>>,
}

/// The fields of the version text `s`, where `s` is one: four runs of one
/// digit or more with a dot between each two; then, after a hyphen, a status
/// tag that runs up to the first space or to the end; then, or instead, a
/// space and extra information between `(` and a `)` that ends the text, on
/// one line.
pub open spec fn version_fields(s: Seq<char>) -> Option<VersionFields> {
    let a = run_end(s, 0, CharClass::Digit);
    let b = run_end(s, a + 1, CharClass::Digit);
    let c = run_end(s, b + 1, CharClass::Digit);
    let d = run_end(s, c + 1, CharClass::Digit);
    let tagged = d < s.len() && s[d] == '-';
    let e = if tagged {
        run_end(s, d + 1, CharClass::Except(' '))
    } else {
        d
    };
    let extra = e < s.len();
    if 0 < a < s.len() && s[a] == '.' && a + 1 < b < s.len() && s[b] == '.' && b + 1 < c < s.len()
        && s[c] == '.' && c + 1 < d && (extra ==> e + 3 <= s.len() && s[e] == ' ' && s[e + 1]
        == '(' && s[s.len() - 1] == ')' && all_in(
        s.subrange(e + 2, s.len() - 1),
        CharClass::Except('\n'),
    )) {
        Some(
            VersionFields {
                major: s.subrange(0, a),
                minor: s.subrange(a + 1, b),
                micro: s.subrange(b + 1, c),
                patch_level: s.subrange(c + 1, d),
                status_tag: if tagged {
                    Some(s.subrange(d + 1, e))
                } else {
                    None
                },
                extra_info: if extra {
                    Some(s.subrange(e + 2, s.len() - 1))
                } else {
                    None
                },
            },
        )
    } else {
        None
    }
}

/// The version that the text `s` writes.
pub open spec fn tor_version_of(s: Seq<char>) -> Result<TorVersionView, Error> {
    match version_fields(s) {
        None => Err(Error::RegexCapture),
        Some(f) => if decimal_value(f.major) <= u16::MAX && decimal_value(f.minor) <= u16::MAX
            && decimal_value(f.micro) <= u16::MAX && decimal_value(f.patch_level) <= u16::MAX {
            Ok(
                TorVersionView {
                    major: decimal_value(f.major) as u16,
                    minor: decimal_value(f.minor) as u16,
                    micro: decimal_value(f.micro) as u16,
                    patch_level: decimal_value(f.patch_level) as u16,
                    status_tag: f.status_tag,
                    extra_info: f.extra_info,
                },
            )
        } else {
            Err(Error::NumberTooLarge)
        },
    }
}

/// Scans a run of digits from `from` and tells where it ends, if it is not
/// empty and, where `dot` asks for it, a dot follows.
fn scan_number(cs: &[char], from: usize, dot: bool) -> (r: Option<usize>)
    requires
        from <= cs@.len(),
    ensures
        match r {
            Some(end) => end == run_end(cs@, from as int, CharClass::Digit) && from < end
                <= cs@.len() && (dot ==> end < cs@.len() && cs@[end as int] == '.') && all_in(
                cs@.subrange(from as int, end as int),
                CharClass::Digit,
            ),
            None => !(from < run_end(cs@, from as int, CharClass::Digit) && (dot ==> run_end(
                cs@,
                from as int,
                CharClass::Digit,
            ) < cs@.len() && cs@[run_end(cs@, from as int, CharClass::Digit)] == '.')),
        },
{
    let end = scan_run(cs, from, CharClass::Digit);
    proof {
        lemma_run_reaches(cs@, from as int, end as int, CharClass::Digit);
    }
    if end == from || (dot && (end >= cs.len() || cs[end] != '.')) {
        None
    } else {
        Some(end)
    }
}

/// Reads a version from its text.
pub fn parse_tor_version(tor_version_str: &str) -> (r: Result<TorVersion, Error>)
    ensures
        match tor_version_of(tor_version_str@) {
            Ok(v) => r matches Ok(version) && version@ == v,
            Err(e) => r matches Err(x) && x == e,
        },
{
    let cs = chars_of(tor_version_str);
    let s = cs.as_slice();
    let n = cs.len();
    let a = match scan_number(s, 0, true) {
        Some(a) => a,
        None => {
            return Err(Error::RegexCapture);
        },
    };
    let b = match scan_number(s, a + 1, true) {
        Some(b) => b,
        None => {
            return Err(Error::RegexCapture);
        },
    };
    let c = match scan_number(s, b + 1, true) {
        Some(c) => c,
        None => {
            return Err(Error::RegexCapture);
        },
    };
    let d = match scan_number(s, c + 1, false) {
        Some(d) => d,
        None => {
            return Err(Error::RegexCapture);
        },
    };
    let tagged = d < n && cs[d] == '-';
    let e = if tagged {
        scan_run(s, d + 1, CharClass::Except(' '))
    } else {
        d
    };
    let extra = e < n;
    if extra {
        if n - e < 3 || cs[e] != ' ' || cs[e + 1] != '(' || cs[n - 1] != ')' {
            return Err(Error::RegexCapture);
        }
        let stop = scan_run(s, e + 2, CharClass::Except('\n'));
        proof {
            lemma_run_reaches(cs@, e + 2, n - 1, CharClass::Except('\n'));
        }
        if stop < n - 1 {
            return Err(Error::RegexCapture);
        }
    }
    let major = parse_decimal(s, 0, a, u16::MAX);
    let minor = parse_decimal(s, a + 1, b, u16::MAX);
    let micro = parse_decimal(s, b + 1, c, u16::MAX);
    let patch_level = parse_decimal(s, c + 1, d, u16::MAX);
    match (major, minor, micro, patch_level) {
        (Some(major), Some(minor), Some(micro), Some(patch_level)) => Ok(
            TorVersion {
                major,
                minor,
                micro,
                patch_level,
                status_tag: if tagged {
                    Some(slice_string(tor_version_str, d + 1, e))
                } else {
                    None
                },
                extra_info: if extra {
                    Some(slice_string(tor_version_str, e + 2, n - 1))
                } else {
                    None
                },
            },
        ),
        _ => Err(Error::NumberTooLarge),
    }
}

/// The words that the daemon prints before its version.
pub open spec fn version_banner() -> Seq<char> {
    "Tor version "@
}

/// What the daemon prints after its version: a full stop and a line feed.
pub open spec fn version_ending() -> Seq<char> {
    ".\n"@
}

/// The version in what the daemon prints when it is asked for its version:
/// what stands between as many characters as the banner has and as many as
/// the ending has.
pub open spec fn system_tor_version_of(output: Seq<char>) -> Result<TorVersionView, Error> {
    if output.len() < version_banner().len() + version_ending().len() {
        Err(Error::TorVersionTooShort)
    } else {
        tor_version_of(
            output.subrange(
                version_banner().len() as int,
                output.len() - version_ending().len(),
            ),
        )
    }
}

/// Reads the version from what the daemon prints when it is asked for it.
pub fn system_tor_version(output: &str) -> (r: Result<TorVersion, Error>)
    ensures
        match system_tor_version_of(output@) {
            Ok(v) => r matches Ok(version) && version@ == v,
            Err(e) => r matches Err(x) && x == e,
        },
{
    let begin = "Tor version ".unicode_len();
    let end = ".\n".unicode_len();
    let n = output.unicode_len();
    proof {
        reveal_strlit("Tor version ");
        reveal_strlit(".\n");
    }
    if n < begin + end {
        return Err(Error::TorVersionTooShort);
    }
    let version = slice_string(output, begin, n - end);
    parse_tor_version(version.as_str())
}

} // verus!
