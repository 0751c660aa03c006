//! The answer to `PROTOCOLINFO`: the version of the protocol, the version of
//! the daemon, the authentication methods it accepts and the cookie files it
//! names.
//!
//! The first line of the reply is `PROTOCOLINFO` and the version in digits.
//! Of the lines after it, one whose first word is `AUTH` lists the methods,
//! separated by commas, after `AUTH METHODS=`, and may name cookie files as
//! `COOKIEFILE="..."`; one whose first word is `VERSION` gives the daemon's
//! version as `VERSION Tor="..."`. Other lines are passed over.

use crate::reply::{Error, ErrorView, LineView, ParseReplyError, Reply};
use crate::text::{
    all_in, chars_of, decimal_value, find_from, first_word, has_at, lemma_run_reaches,
    parse_decimal, range_is, run_end, scan_run, slice_string, word_at, CharClass,
};
use vstd::prelude::*;

verus! {

/// A way to authenticate to the control port.
#[derive(Debug, Clone, Copy, PartialEq, Eq, Structural)]
pub enum AuthMethod {
    Null,
    HashedPassword,
    Cookie,
    SafeCookie,
}

/// What the daemon says of itself before authentication.
#[derive(Debug, Clone, PartialEq, Eq)]
pub struct ProtocolInfo {
    pub protocol_info_ver: u8,
    pub tor_ver: String,
    pub auth_methods: Vec<AuthMethod>,
    pub cookie_files: Vec<String>,
}

/// The mathematical content of a [`ProtocolInfo`].
pub struct ProtocolInfoView {
    pub protocol_info_ver: u8,
    pub tor_ver: Seq<char>,
    pub auth_methods: Seq<AuthMethod>,
    pub cookie_files: Seq<Seq<char>>,
}

impl View for ProtocolInfo {
    type V = ProtocolInfoView;

    open spec fn view(&self) -> ProtocolInfoView {
        ProtocolInfoView {
            protocol_info_ver: self.protocol_info_ver,
            tor_ver: self.tor_ver@,
            auth_methods: self.auth_methods@,
            cookie_files: self.cookie_files.deep_view(),
        }
    }
}

/// Why a reply was not decoded as a [`ProtocolInfo`].
#[derive(Debug, Clone, PartialEq, Eq)]
pub enum Undecoded {
    /// The reply does not have the expected form.
    Malformed(ParseReplyError),
    /// The daemon speaks a version of the protocol other than 1.
    UnsupportedVersion(u8),
    /// The daemon lists an authentication method that this library does not know.
    UnsupportedAuthMethod(String),
}

/// The mathematical content of an [`Undecoded`].
pub enum UndecodedView {
    Malformed(ParseReplyError),
    UnsupportedVersion(u8),
    UnsupportedAuthMethod(Seq<char>),
}

impl View for Undecoded {
    type V = UndecodedView;

    open spec fn view(&self) -> UndecodedView {
        match self {
            Undecoded::Malformed(e) => UndecodedView::Malformed(*e),
            Undecoded::UnsupportedVersion(v) => UndecodedView::UnsupportedVersion(*v),
            Undecoded::UnsupportedAuthMethod(t) => UndecodedView::UnsupportedAuthMethod(t@),
        }
    }
}

/// The digits of the protocol version, where `line` is `PROTOCOLINFO`, a
/// space and one digit or more.
pub open spec fn version_digits(line: Seq<char>) -> Option<Seq<char>> {
    let word = "PROTOCOLINFO "@;
    if has_at(line, 0, word) && line.len() > word.len() && all_in(
        line.skip(word.len() as int),
        CharClass::Digit,
    ) {
        Some(line.skip(word.len() as int))
    } else {
        None
    }
}

/// The method that a token of the method list names.
pub open spec fn method_of(token: Seq<char>) -> Option<AuthMethod> {
    if token == "NULL"@ {
        Some(AuthMethod::Null)
    } else if token == "HASHEDPASSWORD"@ {
        Some(AuthMethod::HashedPassword)
    } else if token == "COOKIE"@ {
        Some(AuthMethod::Cookie)
    } else if token == "SAFECOOKIE"@ {
        Some(AuthMethod::SafeCookie)
    } else {
        None
    }
}

/// `methods` put before what the rest of a list gave.
pub open spec fn after(methods: Seq<AuthMethod>, rest: Result<Seq<AuthMethod>, Seq<char>>) -> Result<
    Seq<AuthMethod>,
    Seq<char>,
> {
    match rest {
        Ok(more) => Ok(methods + more),
        Err(token) => Err(token),
    }
}

/// The methods that the comma-separated list `s` names, in order, or the
/// first of its tokens that names none.
pub open spec fn method_list(s: Seq<char>) -> Result<Seq<AuthMethod>, Seq<char>>
    decreases s.len(),
{
    let comma = find_from(s, 0, ',');
    if 0 <= comma < s.len() {
        match method_of(s.take(comma)) {
            None => Err(s.take(comma)),
            Some(m) => after(seq![m], method_list(s.skip(comma + 1))),
        }
    } else {
        match method_of(s) {
            None => Err(s),
            Some(m) => Ok(seq![m]),
        }
    }
}

/// The word that every cookie file is announced with.
pub open spec fn cookie_word() -> Seq<char> {
    "COOKIEFILE=\""@
}

/// The cookie files that `s` names from position `from` on: for each
/// `COOKIEFILE="`, from left to right and without overlap, what stands
/// between it and the next quotation mark.
pub open spec fn cookie_files_from(s: Seq<char>, from: int) -> Seq<Seq<char>>
    decreases s.len() - from,
{
    if from < 0 || from >= s.len() {
        Seq::empty()
    } else if has_at(s, from, cookie_word()) {
        let open = from + cookie_word().len();
        let close = find_from(s, open, '"');
        if from <= close < s.len() {
            seq![s.subrange(open, close)] + cookie_files_from(s, close + 1)
        } else {
            cookie_files_from(s, from + 1)
        }
    } else {
        cookie_files_from(s, from + 1)
    }
}

/// The word that opens the line of authentication methods.
pub open spec fn auth_word() -> Seq<char> {
    "AUTH METHODS="@
}

/// Where the method list of `line` ends, if `line` is `AUTH METHODS=`, one
/// character or more of `A` to `Z` and comma, and a rest without line feed.
/// The method list is the longest such run.
pub open spec fn method_list_end(line: Seq<char>) -> Option<int> {
    let end = run_end(line, auth_word().len() as int, CharClass::UpperOrComma);
    if has_at(line, 0, auth_word()) && end > auth_word().len() && all_in(
        line.skip(end),
        CharClass::Except('\n'),
    ) {
        Some(end)
    } else {
        None
    }
}

/// The word that opens the line of the daemon's version.
pub open spec fn version_word() -> Seq<char> {
    "VERSION Tor=\""@
}

/// The daemon's version, if `line` is `VERSION Tor="`, the version without
/// any quotation mark, a quotation mark and a rest without line feed.
pub open spec fn quoted_version(line: Seq<char>) -> Option<Seq<char>> {
    let close = find_from(line, version_word().len() as int, '"');
    if has_at(line, 0, version_word()) && close < line.len() && all_in(
        line.skip(close + 1),
        CharClass::Except('\n'),
    ) {
        Some(line.subrange(version_word().len() as int, close))
    } else {
        None
    }
}

/// What one line after the first adds to what is known.
pub open spec fn absorb(info: ProtocolInfoView, line: Seq<char>) -> Result<
    ProtocolInfoView,
    UndecodedView,
> {
    if first_word(line) == "AUTH"@ {
        match method_list_end(line) {
            None => Err(UndecodedView::Malformed(ParseReplyError::RegexCapture)),
            Some(end) => match method_list(line.subrange(auth_word().len() as int, end)) {
                Err(token) => Err(UndecodedView::UnsupportedAuthMethod(token)),
                Ok(methods) => Ok(
                    ProtocolInfoView {
                        protocol_info_ver: info.protocol_info_ver,
                        tor_ver: info.tor_ver,
                        auth_methods: methods,
                        cookie_files: info.cookie_files + cookie_files_from(line, end),
                    },
                ),
            },
        }
    } else if first_word(line) == "VERSION"@ {
        match quoted_version(line) {
            None => Err(UndecodedView::Malformed(ParseReplyError::RegexCapture)),
            Some(version) => Ok(
                ProtocolInfoView {
                    protocol_info_ver: info.protocol_info_ver,
                    tor_ver: version,
                    auth_methods: info.auth_methods,
                    cookie_files: info.cookie_files,
                },
            ),
        }
    } else {
        Ok(info)
    }
}

/// What the lines of a reply from `lines[from]` on add to what is known, up
/// to the first line that cannot be taken in.
pub open spec fn absorb_from(info: ProtocolInfoView, lines: Seq<LineView>, from: int) -> Result<
    ProtocolInfoView,
    UndecodedView,
>
    decreases lines.len() - from,
{
    if from < 0 || from >= lines.len() {
        Ok(info)
    } else {
        match absorb(info, lines[from].reply) {
            Ok(next) => absorb_from(next, lines, from + 1),
            Err(e) => Err(e),
        }
    }
}

/// What a reply to `PROTOCOLINFO` says, or why it cannot be decoded.
pub open spec fn protocol_info_of(lines: Seq<LineView>) -> Result<ProtocolInfoView, UndecodedView> {
    if lines.len() == 0 {
        Err(UndecodedView::Malformed(ParseReplyError::RegexCapture))
    } else {
        match version_digits(lines[0].reply) {
            None => Err(UndecodedView::Malformed(ParseReplyError::RegexCapture)),
            Some(digits) => if decimal_value(digits) > 255 {
                Err(UndecodedView::Malformed(ParseReplyError::ParseIntError))
            } else if decimal_value(digits) != 1 {
                Err(UndecodedView::UnsupportedVersion(decimal_value(digits) as u8))
            } else {
                absorb_from(
                    ProtocolInfoView {
                        protocol_info_ver: 1,
                        tor_ver: Seq::empty(),
                        auth_methods: Seq::empty(),
                        cookie_files: Seq::empty(),
                    },
                    lines,
                    1,
                )
            },
        }
    }
}

/// Whether a reply names nothing that this library gives up on: a protocol
/// version other than 1, or an authentication method it does not know.
pub open spec fn is_supported(lines: Seq<LineView>) -> bool {
    match protocol_info_of(lines) {
        Err(UndecodedView::UnsupportedVersion(_)) => false,
        Err(UndecodedView::UnsupportedAuthMethod(_)) => false,
        _ => true,
    }
}

fn method_named(cs: &[char], from: usize, to: usize) -> (m: Option<AuthMethod>)
    requires
        from <= to <= cs@.len(),
    ensures
        m == method_of(cs@.subrange(from as int, to as int)),
{
    if range_is(cs, from, to, "NULL") {
        Some(AuthMethod::Null)
    } else if range_is(cs, from, to, "HASHEDPASSWORD") {
        Some(AuthMethod::HashedPassword)
    } else if range_is(cs, from, to, "COOKIE") {
        Some(AuthMethod::Cookie)
    } else if range_is(cs, from, to, "SAFECOOKIE") {
        Some(AuthMethod::SafeCookie)
    } else {
        None
    }
}

/// Reads the method list that stands in `line` between `from` and `to`.
fn read_method_list(line: &str, cs: &[char], from: usize, to: usize) -> (r: Result<
    Vec<AuthMethod>,
    String,
>)
    requires
        cs@ == line@,
        from <= to <= cs@.len(),
    ensures
        match method_list(cs@.subrange(from as int, to as int)) {
            Ok(methods) => r matches Ok(v) && v@ == methods,
            Err(token) => r matches Err(t) && t@ == token,
        },
{
    let mut methods: Vec<AuthMethod> = Vec::new();
    let mut pos: usize = from;
    assert(after(methods@, method_list(cs@.subrange(pos as int, to as int))) == method_list(
        cs@.subrange(from as int, to as int),
    )) by {
        let whole = method_list(cs@.subrange(from as int, to as int));
        match whole {
            Ok(ms) => assert(methods@ + ms =~= ms),
            Err(_) => {},
        }
    }
    loop
        invariant
            cs@ == line@,
            from <= pos <= to <= cs@.len(),
            after(methods@, method_list(cs@.subrange(pos as int, to as int))) == method_list(
                cs@.subrange(from as int, to as int),
            ),
        decreases to - pos,
    {
        let rest = &cs[pos..to];
        let comma = scan_run(rest, 0, CharClass::Except(','));
        let ghost tail = cs@.subrange(pos as int, to as int);
        proof {
            assert(rest@ == tail);
            assert(tail.take(comma as int) =~= cs@.subrange(pos as int, pos + comma));
            if comma < tail.len() {
                assert(tail.skip(comma + 1) =~= cs@.subrange(pos + comma + 1, to as int));
            } else {
                assert(tail =~= cs@.subrange(pos as int, pos + comma));
            }
        }
        match method_named(cs, pos, pos + comma) {
            None => {
                return Err(slice_string(line, pos, pos + comma));
            },
            Some(m) => {
                let ghost before = methods@;
                methods.push(m);
                if pos + comma < to {
                    proof {
                        let next = method_list(cs@.subrange(pos + comma + 1, to as int));
                        match next {
                            Ok(ms) => assert(before + (seq![m] + ms) =~= methods@ + ms),
                            Err(_) => {},
                        }
                    }
                    pos = pos + comma + 1;
                } else {
                    assert(before + seq![m] =~= methods@);
                    return Ok(methods);
                }
            },
        }
    }
}

/// Appends to `out` the cookie files that `line` names from `start` on.
fn collect_cookie_files(line: &str, cs: &[char], start: usize, out: &mut Vec<String>)
    requires
        cs@ == line@,
        start <= cs@.len(),
    ensures
        final(out).deep_view() == old(out).deep_view() + cookie_files_from(cs@, start as int),
{
    let word = chars_of("COOKIEFILE=\"");
    let n = cs.len();
    let mut pos: usize = start;
    assert(out.deep_view() + cookie_files_from(cs@, pos as int) =~= old(out).deep_view()
        + cookie_files_from(cs@, start as int));
    while pos < n
        invariant
            cs@ == line@,
            n == cs@.len(),
            word@ == cookie_word(),
            start <= pos <= n,
            out.deep_view() + cookie_files_from(cs@, pos as int) == old(out).deep_view()
                + cookie_files_from(cs@, start as int),
        decreases n - pos,
    {
        if word_at(cs, pos, word.as_slice()) {
            let open = pos + word.len();
            let close = scan_run(cs, open, CharClass::Except('"'));
            if close < n {
                let ghost before = out.deep_view();
                let file = slice_string(line, open, close);
                out.push(file);
                proof {
                    assert(out.deep_view() =~= before.push(file@));
                    assert(before.push(file@) + cookie_files_from(cs@, close + 1) =~= before + (
                    seq![file@] + cookie_files_from(cs@, close + 1)));
                }
                pos = close + 1;
            } else {
                pos = pos + 1;
            }
        } else {
            pos = pos + 1;
        }
    }
    assert(out.deep_view() + cookie_files_from(cs@, pos as int) =~= out.deep_view());
}

impl ProtocolInfo {
    /// Decodes the reply to `PROTOCOLINFO`, and says so where the reply names
    /// a protocol version or an authentication method that is not supported.
    pub fn examine(reply: &Reply) -> (r: Result<ProtocolInfo, Undecoded>)
        ensures
            match protocol_info_of(reply@) {
                Ok(info) => r matches Ok(i) && i@ == info,
                Err(e) => r matches Err(u) && u@ == e,
            },
    {
        if reply.lines.len() == 0 {
            return Err(Undecoded::Malformed(ParseReplyError::RegexCapture));
        }
        let first = reply.lines[0].reply.as_str();
        let cs = chars_of(first);
        let word = chars_of("PROTOCOLINFO ");
        let n = cs.len();
        assert(reply@[0].reply == cs@);
        if !word_at(cs.as_slice(), 0, word.as_slice()) || n <= word.len() {
            return Err(Undecoded::Malformed(ParseReplyError::RegexCapture));
        }
        let end = scan_run(cs.as_slice(), word.len(), CharClass::Digit);
        proof {
            lemma_run_reaches(cs@, word@.len() as int, n as int, CharClass::Digit);
            assert(cs@.subrange(word@.len() as int, n as int) =~= cs@.skip(word@.len() as int));
        }
        if end < n {
            return Err(Undecoded::Malformed(ParseReplyError::RegexCapture));
        }
        let version: u8 = match parse_decimal(cs.as_slice(), word.len(), n, 255) {
            Some(v) => v as u8,
            None => {
                return Err(Undecoded::Malformed(ParseReplyError::ParseIntError));
            },
        };
        if version != 1 {
            return Err(Undecoded::UnsupportedVersion(version));
        }
        let mut info = ProtocolInfo {
            protocol_info_ver: version,
            tor_ver: String::new(),
            auth_methods: Vec::new(),
            cookie_files: Vec::new(),
        };
        assert(info@.auth_methods =~= Seq::empty());
        assert(info@.cookie_files =~= Seq::empty());
        let mut i: usize = 1;
        while i < reply.lines.len()
            invariant
                1 <= i <= reply.lines.len(),
                absorb_from(info@, reply@, i as int) == protocol_info_of(reply@),
            decreases reply.lines.len() - i,
        {
            assert(reply@[i as int].reply == reply.lines[i as int].reply@);
            match absorb_line(info, reply.lines[i].reply.as_str()) {
                Ok(next) => {
                    info = next;
                },
                Err(e) => {
                    return Err(e);
                },
            }
            i += 1;
        }
        Ok(info)
    }

    /// Decodes the reply to `PROTOCOLINFO`. A reply that names another
    /// protocol version than 1, or an unknown authentication method, is not
    /// for this function: [`ProtocolInfo::examine`] tells.
    pub fn from_reply(reply: &Reply) -> (r: Result<ProtocolInfo, Error>)
        requires
            is_supported(reply@),
        ensures
            match protocol_info_of(reply@) {
                Ok(info) => r matches Ok(i) && i@ == info,
                Err(UndecodedView::Malformed(e)) => r matches Err(x) && x@ == ErrorView::ParseReply(
                    e,
                ),
                Err(_) => false,
            },
    {
        match ProtocolInfo::examine(reply) {
            Ok(info) => Ok(info),
            Err(Undecoded::Malformed(e)) => Err(Error::ParseReply(e)),
            Err(_) => unreached(),
        }
    }
}

/// Takes one line after the first into what is known.
fn absorb_line(info: ProtocolInfo, line: &str) -> (r: Result<ProtocolInfo, Undecoded>)
    ensures
        match absorb(info@, line@) {
            Ok(next) => r matches Ok(i) && i@ == next,
            Err(e) => r matches Err(u) && u@ == e,
        },
{
    let cs = chars_of(line);
    let n = cs.len();
    let word_end = scan_run(cs.as_slice(), 0, CharClass::Except(' '));
    assert(cs@.subrange(0, word_end as int) =~= first_word(line@));
    if range_is(cs.as_slice(), 0, word_end, "AUTH") {
        let word = chars_of("AUTH METHODS=");
        if !word_at(cs.as_slice(), 0, word.as_slice()) {
            return Err(Undecoded::Malformed(ParseReplyError::RegexCapture));
        }
        let end = scan_run(cs.as_slice(), word.len(), CharClass::UpperOrComma);
        if end <= word.len() {
            return Err(Undecoded::Malformed(ParseReplyError::RegexCapture));
        }
        let stop = scan_run(cs.as_slice(), end, CharClass::Except('\n'));
        proof {
            lemma_run_reaches(cs@, end as int, n as int, CharClass::Except('\n'));
            assert(cs@.subrange(end as int, n as int) =~= cs@.skip(end as int));
        }
        if stop < n {
            return Err(Undecoded::Malformed(ParseReplyError::RegexCapture));
        }
        let methods = match read_method_list(line, cs.as_slice(), word.len(), end) {
            Ok(methods) => methods,
            Err(token) => {
                return Err(Undecoded::UnsupportedAuthMethod(token));
            },
        };
        let ProtocolInfo { protocol_info_ver, tor_ver, auth_methods: _, cookie_files } = info;
        let mut cookie_files = cookie_files;
        collect_cookie_files(line, cs.as_slice(), end, &mut cookie_files);
        Ok(ProtocolInfo { protocol_info_ver, tor_ver, auth_methods: methods, cookie_files })
    } else if range_is(cs.as_slice(), 0, word_end, "VERSION") {
        let word = chars_of("VERSION Tor=\"");
        if !word_at(cs.as_slice(), 0, word.as_slice()) {
            return Err(Undecoded::Malformed(ParseReplyError::RegexCapture));
        }
        let close = scan_run(cs.as_slice(), word.len(), CharClass::Except('"'));
        if close >= n {
            return Err(Undecoded::Malformed(ParseReplyError::RegexCapture));
        }
        let stop = scan_run(cs.as_slice(), close + 1, CharClass::Except('\n'));
        proof {
            lemma_run_reaches(cs@, close + 1, n as int, CharClass::Except('\n'));
            assert(cs@.subrange(close + 1, n as int) =~= cs@.skip(close + 1));
        }
        if stop < n {
            return Err(Undecoded::Malformed(ParseReplyError::RegexCapture));
        }
        let ProtocolInfo { protocol_info_ver, tor_ver: _, auth_methods, cookie_files } = info;
        Ok(
            ProtocolInfo {
                protocol_info_ver,
                tor_ver: slice_string(line, word.len(), close),
                auth_methods,
                cookie_files,
            },
        )
    } else {
        Ok(info)
    }
}

} // verus!
