//! Replies of the control port: their lines, the errors a reply can end in,
//! and the parser that assembles a reply from the raw lines of the stream.
//!
//! A raw line is what the stream delivers up to and including its line
//! terminator. A reply line is a three-character status code, a mode character
//! and a text: mode `-` announces more lines, a space marks the last line, and
//! `+` opens a data block that runs up to a line holding a single `.`.

use crate::text::{
    all_in, chars_of, decimal_value, digit_value, parse_decimal, slice_string, CharClass,
};
use vstd::prelude::*;

verus! {

/// The class of a reply, decided by the first character of its status code.
#[derive(Debug, Clone, Copy, PartialEq, Eq, Structural)]
pub enum ReplyStatus {
    /// `2xx`: the command was carried out.
    Positive,
    /// `4xx`: a failure that may pass.
    TempNegative,
    /// `5xx`: a failure that will not pass.
    PermNegative,
    /// `6xx`: an asynchronous notification.
    Async,
    /// Any other status code.
    Unknown,
}

/// One line of a reply: its text and, where the line opened a data block, the block.
#[derive(Debug, Clone, PartialEq, Eq)]
pub struct ReplyLine {
    pub reply: String,
    pub data: Option<String>,
}

/// A reply: the lines that one command was answered with, in order.
#[derive(Debug, Clone, PartialEq, Eq)]
pub struct Reply {
    pub lines: Vec<ReplyLine>,
}

/// The mathematical content of a [`ReplyLine`].
pub struct LineView {
    pub reply: Seq<char>,
    pub data: Option<Seq<char>>,
}

impl View for ReplyLine {
    type V = LineView;

    open spec fn view(&self) -> LineView {
        LineView { reply: self.reply@, data: self.data.deep_view() }
    }
}

impl View for Reply {
    type V = Seq<LineView>;

    open spec fn view(&self) -> Seq<LineView> {
        self.lines@.map_values(|l: ReplyLine| l@)
    }
}

/// The ways in which the raw lines of a reply can break the framing rules.
#[derive(Debug, Clone, Copy, PartialEq, Eq, Structural)]
pub enum RawReplyError {
    /// The status code of the first line is not made of three digits.
    NonNumericStatusCode,
    /// A line carries another status code than the first line.
    VaryingStatusCode,
    /// The mode character is none of `-`, space and `+`.
    InvalidReplyMode,
    /// A raw line is too short for a status code, a mode and a line terminator,
    /// or, inside a data block, for a line terminator.
    InvalidReplyLine,
    /// The status code starts with none of `2`, `4`, `5` and `6`, or the
    /// stream ended before any line.
    InvalidStatusCode,
    /// The stream ended on a failure reply before any of its lines was complete.
    InvalidReply,
}

/// The ways in which a well-framed reply can fail to be the answer to a command.
#[derive(Debug, Clone, Copy, PartialEq, Eq, Structural)]
pub enum ParseReplyError {
    /// A field of the expected line is absent.
    MissingField,
    /// A number does not fit its type.
    ParseIntError,
    /// A line does not have the expected form.
    RegexCapture,
    /// A field is not the hexadecimal notation of the expected bytes.
    FromHexError,
    /// The reply does not start with the key that was asked for.
    KeyNotFound,
}

/// A reply whose status is not positive.
#[derive(Debug, Clone, PartialEq, Eq)]
pub struct ReplyError {
    pub code: u16,
    pub status: ReplyStatus,
    pub line: String,
}

/// The ways in which the authentication handshake can fail.
#[derive(Debug, Clone, PartialEq, Eq)]
pub enum AuthError {
    /// The server did not prove that it knows the cookie.
    ServerNotVerified,
    /// The server turned the client's proof down.
    AuthFailed(ReplyError),
}

/// Everything that can go wrong between a command and its decoded reply.
#[derive(Debug, Clone, PartialEq, Eq)]
pub enum Error {
    RawReply(RawReplyError),
    ParseReply(ParseReplyError),
    Auth(AuthError),
    Reply(ReplyError),
}

/// The mathematical content of a [`ReplyError`].
pub struct ReplyErrorView {
    pub code: u16,
    pub status: ReplyStatus,
    pub line: Seq<char>,
}

/// The mathematical content of an [`AuthError`].
pub enum AuthErrorView {
    ServerNotVerified,
    AuthFailed(ReplyErrorView),
}

/// The mathematical content of an [`Error`].
pub enum ErrorView {
    RawReply(RawReplyError),
    ParseReply(ParseReplyError),
    Auth(AuthErrorView),
    Reply(ReplyErrorView),
}

impl View for ReplyError {
    type V = ReplyErrorView;

    open spec fn view(&self) -> ReplyErrorView {
        ReplyErrorView { code: self.code, status: self.status, line: self.line@ }
    }
}

impl View for AuthError {
    type V = AuthErrorView;

    open spec fn view(&self) -> AuthErrorView {
        match self {
            AuthError::ServerNotVerified => AuthErrorView::ServerNotVerified,
            AuthError::AuthFailed(e) => AuthErrorView::AuthFailed(e@),
        }
    }
}

impl View for Error {
    type V = ErrorView;

    open spec fn view(&self) -> ErrorView {
        match self {
            Error::RawReply(e) => ErrorView::RawReply(*e),
            Error::ParseReply(e) => ErrorView::ParseReply(*e),
            Error::Auth(e) => ErrorView::Auth(e@),
            Error::Reply(e) => ErrorView::Reply(e@),
        }
    }
}

/// The mathematical content of a result whose two sides have one.
pub open spec fn view_of<T: View, E: View>(r: Result<T, E>) -> Result<T::V, E::V> {
    match r {
        Ok(t) => Ok(t@),
        Err(e) => Err(e@),
    }
}

/// The line terminator of the wire.
pub open spec fn crlf() -> Seq<char> {
    seq!['\r', '\n']
}

/// The raw line that closes a data block.
pub open spec fn block_end() -> Seq<char> {
    seq!['.', '\r', '\n']
}

/// A data block that has been opened and not yet closed.
pub struct OpenBlock {
    /// The text of the line that opened the block.
    pub reply: Seq<char>,
    /// The payload so far, each line followed by a line feed.
    pub data: Seq<char>,
}

/// What has been assembled of one reply.
pub struct Assembly {
    /// The lines that are complete.
    pub lines: Seq<LineView>,
    /// The status code of the first line, once there is one.
    pub code: Option<Seq<char>>,
    /// The data block that is open, if the parser is inside one.
    pub block: Option<OpenBlock>,
}

/// What one raw line does to an assembly.
pub enum Fed {
    /// The line was taken in and the reply goes on.
    More(Assembly),
    /// The line was taken in and was the last of the reply.
    Last(Assembly),
    /// The line broke a framing rule.
    Rejected(RawReplyError),
}

impl Assembly {
    /// The assembly before any line.
    pub open spec fn start() -> Assembly {
        Assembly { lines: Seq::empty(), code: None, block: None }
    }
}

/// One raw line without its last two characters, the line terminator.
pub open spec fn unterminated(raw: Seq<char>) -> Seq<char> {
    raw.take(raw.len() - 2)
}

/// The text of a raw reply line: what stands between the mode character and
/// the line terminator.
pub open spec fn line_text(raw: Seq<char>) -> Seq<char> {
    raw.subrange(4, raw.len() - 2)
}

/// One step of the reply parser: what the raw line `raw` does to the assembly `a`.
pub open spec fn feed_line(a: Assembly, raw: Seq<char>) -> Fed {
    match a.block {
        Some(block) => {
            if raw == block_end() {
                Fed::More(
                    Assembly {
                        lines: a.lines.push(
                            LineView { reply: block.reply, data: Some(block.data) },
                        ),
                        code: a.code,
                        block: None,
                    },
                )
            } else if raw.len() < 2 {
                Fed::Rejected(RawReplyError::InvalidReplyLine)
            } else {
                Fed::More(
                    Assembly {
                        lines: a.lines,
                        code: a.code,
                        block: Some(
                            OpenBlock {
                                reply: block.reply,
                                data: block.data + unterminated(raw) + seq!['\n'],
                            },
                        ),
                    },
                )
            }
        },
        None => {
            if raw.len() < 6 {
                Fed::Rejected(RawReplyError::InvalidReplyLine)
            } else if a.code is None && !all_in(raw.take(3), CharClass::Digit) {
                Fed::Rejected(RawReplyError::NonNumericStatusCode)
            } else if a.code is Some && a.code->0 != raw.take(3) {
                Fed::Rejected(RawReplyError::VaryingStatusCode)
            } else if raw[3] == '-' {
                Fed::More(
                    Assembly {
                        lines: a.lines.push(LineView { reply: line_text(raw), data: None }),
                        code: Some(raw.take(3)),
                        block: None,
                    },
                )
            } else if raw[3] == ' ' {
                Fed::Last(
                    Assembly {
                        lines: a.lines.push(LineView { reply: line_text(raw), data: None }),
                        code: Some(raw.take(3)),
                        block: None,
                    },
                )
            } else if raw[3] == '+' {
                Fed::More(
                    Assembly {
                        lines: a.lines,
                        code: Some(raw.take(3)),
                        block: Some(OpenBlock { reply: line_text(raw), data: Seq::empty() }),
                    },
                )
            } else {
                Fed::Rejected(RawReplyError::InvalidReplyMode)
            }
        },
    }
}

/// The parser run over the raw lines `raws`, from the assembly `a`, up to the
/// first line that ends the reply or breaks a rule.
pub open spec fn feed_all(a: Assembly, raws: Seq<Seq<char>>) -> Fed
    decreases raws.len(),
{
    if raws.len() == 0 {
        Fed::More(a)
    } else {
        match feed_line(a, raws[0]) {
            Fed::More(b) => feed_all(b, raws.drop_first()),
            other => other,
        }
    }
}

/// The class that the status code `code` puts a reply in.
pub open spec fn status_of(code: Seq<char>) -> ReplyStatus {
    if code.len() == 0 {
        ReplyStatus::Unknown
    } else if code[0] == '2' {
        ReplyStatus::Positive
    } else if code[0] == '4' {
        ReplyStatus::TempNegative
    } else if code[0] == '5' {
        ReplyStatus::PermNegative
    } else if code[0] == '6' {
        ReplyStatus::Async
    } else {
        ReplyStatus::Unknown
    }
}

/// What an assembly amounts to once no further line is read: the reply where
/// the status is positive, and else the error that the status calls for.
pub open spec fn outcome(a: Assembly) -> Result<Seq<LineView>, ErrorView> {
    match a.code {
        None => Err(ErrorView::RawReply(RawReplyError::InvalidStatusCode)),
        Some(code) => match status_of(code) {
            ReplyStatus::Positive => Ok(a.lines),
            ReplyStatus::Unknown => Err(ErrorView::RawReply(RawReplyError::InvalidStatusCode)),
            status => if a.lines.len() == 0 {
                Err(ErrorView::RawReply(RawReplyError::InvalidReply))
            } else {
                Err(
                    ErrorView::Reply(
                        ReplyErrorView {
                            code: decimal_value(code) as u16,
                            status,
                            line: a.lines[0].reply,
                        },
                    ),
                )
            },
        },
    }
}

/// What the raw lines `raws` amount to as the whole answer to one command.
/// Lines after the one that ends the reply are not looked at.
pub open spec fn reply_of(raws: Seq<Seq<char>>) -> Result<Seq<LineView>, ErrorView> {
    match feed_all(Assembly::start(), raws) {
        Fed::More(a) => outcome(a),
        Fed::Last(a) => outcome(a),
        Fed::Rejected(e) => Err(ErrorView::RawReply(e)),
    }
}

struct DataBlock {
    reply: String,
    data: String,
}

/// The three digits of a status code.
struct StatusCode {
    first: char,
    second: char,
    third: char,
}

impl StatusCode {
    #[verifier::type_invariant]
    spec fn numeric(&self) -> bool {
        CharClass::Digit.has(self.first) && CharClass::Digit.has(self.second)
            && CharClass::Digit.has(self.third)
    }

    spec fn text(&self) -> Seq<char> {
        seq![self.first, self.second, self.third]
    }

    /// The number that the three digits write.
    fn value(&self) -> (v: u16)
        ensures
            v == decimal_value(self.text()),
    {
        proof {
            use_type_invariant(self);
            lemma_three_digits(self.text());
        }
        let mut cs: Vec<char> = Vec::new();
        cs.push(self.first);
        cs.push(self.second);
        cs.push(self.third);
        assert(cs@.subrange(0, 3) =~= self.text());
        match parse_decimal(cs.as_slice(), 0, 3, 999) {
            Some(v) => v,
            None => 0,
        }
    }
}

/// The reply parser: it is fed the raw lines of the stream one by one and
/// assembles the reply that they make.
pub struct ReplyParser {
    lines: Vec<ReplyLine>,
    code: Option<StatusCode>,
    block: Option<DataBlock>,
}

impl View for ReplyParser {
    type V = Assembly;

    closed spec fn view(&self) -> Assembly {
        Assembly {
            lines: self.lines@.map_values(|l: ReplyLine| l@),
            code: match self.code {
                Some(c) => Some(c.text()),
                None => None,
            },
            block: match self.block {
                Some(b) => Some(OpenBlock { reply: b.reply@, data: b.data@ }),
                None => None,
            },
        }
    }
}

impl ReplyParser {
    /// A parser that has seen no line yet.
    pub fn new() -> (p: ReplyParser)
        ensures
            p@ == Assembly::start(),
    {
        let p = ReplyParser { lines: Vec::new(), code: None, block: None };
        assert(p@.lines =~= Seq::empty());
        p
    }

    /// Takes in one raw line. `Ok(true)` says that the line was the last of
    /// the reply, `Ok(false)` that more lines are to be fed; after an error
    /// the parser is as it was before.
    pub fn feed(&mut self, raw: &str) -> (r: Result<bool, RawReplyError>)
        ensures
            match feed_line(old(self)@, raw@) {
                Fed::More(a) => r == Ok::<bool, RawReplyError>(false) && final(self)@ == a,
                Fed::Last(a) => r == Ok::<bool, RawReplyError>(true) && final(self)@ == a,
                Fed::Rejected(e) => r == Err::<bool, RawReplyError>(e) && final(self)@ == old(
                    self,
                )@,
            },
    {
        let cs = chars_of(raw);
        let n = cs.len();
        match self.block.take() {
            Some(open) => {
                if n == 3 && cs[0] == '.' && cs[1] == '\r' && cs[2] == '\n' {
                    assert(raw@ =~= block_end());
                    self.lines.push(ReplyLine { reply: open.reply, data: Some(open.data) });
                    assert(self@.lines =~= old(self)@.lines.push(
                        LineView { reply: open.reply@, data: Some(open.data@) },
                    ));
                    Ok(false)
                } else if n < 2 {
                    self.block = Some(open);
                    Err(RawReplyError::InvalidReplyLine)
                } else {
                    let payload = slice_string(raw, 0, n - 2);
                    let mut data = open.data;
                    data.append(payload.as_str());
                    data.append("\n");
                    proof {
                        reveal_strlit("\n");
                        assert("\n"@ =~= seq!['\n']);
                        assert(raw@.subrange(0, n - 2) =~= unterminated(raw@));
                    }
                    self.block = Some(DataBlock { reply: open.reply, data });
                    Ok(false)
                }
            },
            None => {
                if n < 6 {
                    return Err(RawReplyError::InvalidReplyLine);
                }
                let digits = CharClass::Digit;
                let numeric = digits.contains(cs[0]) && digits.contains(cs[1]) && digits.contains(
                    cs[2],
                );
                match &self.code {
                    None => {
                        if !numeric {
                            assert(!all_in(raw@.take(3), CharClass::Digit)) by {
                                assert(raw@.take(3)[0] == cs@[0]);
                                assert(raw@.take(3)[1] == cs@[1]);
                                assert(raw@.take(3)[2] == cs@[2]);
                            }
                            return Err(RawReplyError::NonNumericStatusCode);
                        }
                    },
                    Some(code) => {
                        if !(code.first == cs[0] && code.second == cs[1] && code.third == cs[2]) {
                            assert(code.text() != raw@.take(3)) by {
                                assert(raw@.take(3)[0] == cs@[0]);
                                assert(raw@.take(3)[1] == cs@[1]);
                                assert(raw@.take(3)[2] == cs@[2]);
                            }
                            return Err(RawReplyError::VaryingStatusCode);
                        }
                        assert(code.text() =~= raw@.take(3));
                    },
                }
                let mode = cs[3];
                if mode != '-' && mode != ' ' && mode != '+' {
                    return Err(RawReplyError::InvalidReplyMode);
                }
                if self.code.is_none() {
                    let code = StatusCode { first: cs[0], second: cs[1], third: cs[2] };
                    assert(code.text() =~= raw@.take(3));
                    self.code = Some(code);
                }
                let text = slice_string(raw, 4, n - 2);
                if mode == '+' {
                    self.block = Some(DataBlock { reply: text, data: String::new() });
                    Ok(false)
                } else {
                    self.lines.push(ReplyLine { reply: text, data: None });
                    assert(self@.lines =~= old(self)@.lines.push(
                        LineView { reply: line_text(raw@), data: None },
                    ));
                    Ok(mode == ' ')
                }
            },
        }
    }

    /// Ends the assembly: the reply if its status is positive, and else the
    /// error that its status calls for.
    pub fn finish(self) -> (r: Result<Reply, Error>)
        ensures
            view_of(r) == outcome(self@),
    {
        let ReplyParser { lines, code, block: _ } = self;
        let code = match code {
            Some(code) => code,
            None => {
                return Err(Error::RawReply(RawReplyError::InvalidStatusCode));
            },
        };
        let lead = code.first;
        let status = if lead == '2' {
            return Ok(Reply { lines });
        } else if lead == '4' {
            ReplyStatus::TempNegative
        } else if lead == '5' {
            ReplyStatus::PermNegative
        } else if lead == '6' {
            ReplyStatus::Async
        } else {
            return Err(Error::RawReply(RawReplyError::InvalidStatusCode));
        };
        if lines.len() == 0 {
            return Err(Error::RawReply(RawReplyError::InvalidReply));
        }
        Err(Error::Reply(ReplyError { code: code.value(), status, line: lines[0].reply.clone() }))
    }
}

/// Three digits write a number below a thousand.
pub proof fn lemma_three_digits(code: Seq<char>)
    requires
        code.len() == 3,
        all_in(code, CharClass::Digit),
    ensures
        decimal_value(code) < 1000,
{
    let two = code.drop_last();
    let one = two.drop_last();
    assert(decimal_value(one.drop_last()) == 0);
    assert(decimal_value(one) == digit_value(code[0]));
    assert(decimal_value(two) == decimal_value(one) * 10 + digit_value(code[1]));
    assert(decimal_value(code) == decimal_value(two) * 10 + digit_value(code[2]));
}

/// Assembles the reply that the raw lines `raws` make, as the parser does
/// when it is fed them in order up to the line that ends the reply.
pub fn parse_reply(raws: &Vec<String>) -> (r: Result<Reply, Error>)
    ensures
        view_of(r) == reply_of(raws.deep_view()),
{
    let mut parser = ReplyParser::new();
    let mut i: usize = 0;
    let ghost all = raws.deep_view();
    assert(all.skip(0) =~= all);
    while i < raws.len()
        invariant
            i <= raws.len(),
            all == raws.deep_view(),
            all.len() == raws.len(),
            feed_all(Assembly::start(), all) == feed_all(parser@, all.skip(i as int)),
        decreases raws.len() - i,
    {
        proof {
            assert(all.skip(i as int)[0] == raws[i as int]@);
            assert(all.skip(i as int).drop_first() =~= all.skip(i + 1));
        }
        match parser.feed(raws[i].as_str()) {
            Ok(true) => {
                return parser.finish();
            },
            Ok(false) => {},
            Err(e) => {
                return Err(Error::RawReply(e));
            },
        }
        i += 1;
    }
    parser.finish()
}

/// Whether `raw` is a reply line under the status code `code`: long enough,
/// with that code and with one of the three modes.
pub open spec fn is_reply_line(raw: Seq<char>, code: Seq<char>) -> bool {
    raw.len() >= 6 && raw.take(3) == code && (raw[3] == '-' || raw[3] == ' ' || raw[3] == '+')
}

/// Whether `raws` is the rest of one well-framed reply under the status code
/// `code`, read from inside a data block if `in_block` and else from outside:
/// every line outside a data block is a reply line under `code`, every data
/// block is closed, and there is one line of the last mode, which ends `raws`.
pub open spec fn is_framed(raws: Seq<Seq<char>>, code: Seq<char>, in_block: bool) -> bool
    decreases raws.len(),
{
    if raws.len() == 0 {
        false
    } else if in_block {
        if raws[0] == block_end() {
            is_framed(raws.drop_first(), code, false)
        } else {
            raws[0].len() >= 2 && is_framed(raws.drop_first(), code, true)
        }
    } else {
        is_reply_line(raws[0], code) && if raws[0][3] == ' ' {
            raws.len() == 1
        } else {
            is_framed(raws.drop_first(), code, raws[0][3] == '+')
        }
    }
}

/// The texts of the lines of `raws` that stand outside data blocks, in the
/// order of `raws`, read from inside a data block if `in_block`.
pub open spec fn texts_outside_blocks(raws: Seq<Seq<char>>, in_block: bool) -> Seq<Seq<char>>
    decreases raws.len(),
{
    if raws.len() == 0 {
        Seq::empty()
    } else if in_block {
        texts_outside_blocks(raws.drop_first(), raws[0] != block_end())
    } else {
        seq![line_text(raws[0])] + texts_outside_blocks(
            raws.drop_first(),
            raws[0].len() > 3 && raws[0][3] == '+',
        )
    }
}

/// The texts of reply lines, in order.
pub open spec fn texts_of(lines: Seq<LineView>) -> Seq<Seq<char>> {
    lines.map_values(|l: LineView| l.reply)
}

/// The text of the line that opened the data block which is open, as a
/// sequence of one text or none.
pub open spec fn open_text(a: Assembly) -> Seq<Seq<char>> {
    match a.block {
        Some(block) => seq![block.reply],
        None => Seq::empty(),
    }
}

/// From any assembly under the status code `code`, a well-framed rest of a
/// reply is taken in up to its last line, and adds one reply line for each of
/// its lines outside data blocks, in their order.
pub proof fn lemma_framed_rest(a: Assembly, raws: Seq<Seq<char>>, code: Seq<char>)
    requires
        all_in(code, CharClass::Digit),
        a.code is Some ==> a.code == Some(code),
        is_framed(raws, code, a.block is Some),
    ensures
        feed_all(a, raws) matches Fed::Last(end) && end.code == Some(code) && texts_of(end.lines)
            == texts_of(a.lines) + open_text(a) + texts_outside_blocks(raws, a.block is Some),
    decreases raws.len(),
{
    let rest = raws.drop_first();
    match feed_line(a, raws[0]) {
        Fed::More(b) => {
            lemma_framed_rest(b, rest, code);
            let end = feed_all(b, rest)->Last_0;
            assert(texts_of(b.lines) + open_text(b) + texts_outside_blocks(rest, b.block is Some)
                =~= texts_of(a.lines) + open_text(a) + texts_outside_blocks(
                raws,
                a.block is Some,
            ));
        },
        Fed::Last(b) => {
            assert(texts_outside_blocks(rest, false) =~= Seq::empty());
            assert(texts_of(b.lines) =~= texts_of(a.lines) + open_text(a) + texts_outside_blocks(
                raws,
                a.block is Some,
            ));
        },
        Fed::Rejected(_) => {},
    }
}

/// A well-framed reply whose status code is three digits of which the first
/// is `2` is parsed into one reply line for each of its raw lines outside data
/// blocks, in the order of the raw lines.
pub proof fn lemma_positive_reply_keeps_lines(raws: Seq<Seq<char>>, code: Seq<char>)
    requires
        code.len() == 3,
        all_in(code, CharClass::Digit),
        code[0] == '2',
        is_framed(raws, code, false),
    ensures
        reply_of(raws) matches Ok(lines) && texts_of(lines) == texts_outside_blocks(raws, false),
{
    lemma_framed_rest(Assembly::start(), raws, code);
    let end = feed_all(Assembly::start(), raws)->Last_0;
    assert(texts_of(Assembly::start().lines) + open_text(Assembly::start())
        + texts_outside_blocks(raws, false) =~= texts_outside_blocks(raws, false));
}

/// For each line of `raws` that stands outside data blocks, in the order of
/// `raws`, whether it opens a data block; read from inside a data block if
/// `in_block`.
pub open spec fn opens_outside_blocks(raws: Seq<Seq<char>>, in_block: bool) -> Seq<bool>
    decreases raws.len(),
{
    if raws.len() == 0 {
        Seq::empty()
    } else if in_block {
        opens_outside_blocks(raws.drop_first(), raws[0] != block_end())
    } else {
        seq![raws[0].len() > 3 && raws[0][3] == '+'] + opens_outside_blocks(
            raws.drop_first(),
            raws[0].len() > 3 && raws[0][3] == '+',
        )
    }
}

/// For each reply line, in order, whether it carries data.
pub open spec fn carries_data(lines: Seq<LineView>) -> Seq<bool> {
    lines.map_values(|l: LineView| l.data is Some)
}

/// That the data block which is open will carry data, as a sequence of one
/// mark or none.
pub open spec fn open_mark(a: Assembly) -> Seq<bool> {
    match a.block {
        Some(_) => seq![true],
        None => Seq::empty(),
    }
}

/// From any assembly under the status code `code`, a well-framed rest of a
/// reply adds reply lines that carry data exactly where their raw lines
/// opened a data block.
pub proof fn lemma_framed_rest_marks(a: Assembly, raws: Seq<Seq<char>>, code: Seq<char>)
    requires
        all_in(code, CharClass::Digit),
        a.code is Some ==> a.code == Some(code),
        is_framed(raws, code, a.block is Some),
    ensures
        feed_all(a, raws) matches Fed::Last(end) && carries_data(end.lines) == carries_data(
            a.lines,
        ) + open_mark(a) + opens_outside_blocks(raws, a.block is Some),
    decreases raws.len(),
{
    let rest = raws.drop_first();
    match feed_line(a, raws[0]) {
        Fed::More(b) => {
            lemma_framed_rest_marks(b, rest, code);
            assert(carries_data(b.lines) + open_mark(b) + opens_outside_blocks(
                rest,
                b.block is Some,
            ) =~= carries_data(a.lines) + open_mark(a) + opens_outside_blocks(
                raws,
                a.block is Some,
            ));
        },
        Fed::Last(b) => {
            assert(opens_outside_blocks(rest, false) =~= Seq::empty());
            assert(carries_data(b.lines) =~= carries_data(a.lines) + open_mark(a)
                + opens_outside_blocks(raws, a.block is Some));
        },
        Fed::Rejected(_) => {},
    }
}

/// In the parse of a well-framed reply whose status code is three digits of
/// which the first is `2`, a reply line carries data exactly where its raw
/// line opened a data block.
pub proof fn lemma_positive_reply_marks_blocks(raws: Seq<Seq<char>>, code: Seq<char>)
    requires
        code.len() == 3,
        all_in(code, CharClass::Digit),
        code[0] == '2',
        is_framed(raws, code, false),
    ensures
        reply_of(raws) matches Ok(lines) && carries_data(lines) == opens_outside_blocks(
            raws,
            false,
        ),
{
    lemma_framed_rest(Assembly::start(), raws, code);
    lemma_framed_rest_marks(Assembly::start(), raws, code);
    assert(carries_data(Assembly::start().lines) + open_mark(Assembly::start())
        + opens_outside_blocks(raws, false) =~= opens_outside_blocks(raws, false));
}

/// The payload of a data block whose raw lines are `body`: each line without
/// its line terminator and followed by a line feed.
pub open spec fn payload(body: Seq<Seq<char>>) -> Seq<char>
    decreases body.len(),
{
    if body.len() == 0 {
        Seq::empty()
    } else {
        payload(body.drop_last()) + unterminated(body.last()) + seq!['\n']
    }
}

/// Inside a data block, raw lines other than the closing one are added to
/// the payload and change nothing else.
pub proof fn lemma_block_body(a: Assembly, body: Seq<Seq<char>>)
    requires
        a.block is Some,
        forall|i: int| 0 <= i < body.len() ==> (#[trigger] body[i]).len() >= 2 && body[i]
            != block_end(),
    ensures
        feed_all(a, body) == Fed::More(
            Assembly {
                lines: a.lines,
                code: a.code,
                block: Some(
                    OpenBlock { reply: a.block->0.reply, data: a.block->0.data + payload(body) },
                ),
            },
        ),
    decreases body.len(),
{
    if body.len() == 0 {
        assert(a.block->0.data + payload(body) =~= a.block->0.data);
    } else {
        let b = feed_line(a, body[0])->More_0;
        let rest = body.drop_first();
        assert forall|i: int| 0 <= i < rest.len() implies (#[trigger] rest[i]).len() >= 2
            && rest[i] != block_end() by {
            assert(rest[i] == body[i + 1]);
        }
        lemma_block_body(b, rest);
        lemma_payload_front(body);
        assert(b.block->0.data + payload(rest) =~= a.block->0.data + payload(body));
    }
}

/// The payload of a body is the first line's share followed by the payload
/// of the other lines.
pub proof fn lemma_payload_front(body: Seq<Seq<char>>)
    requires
        body.len() > 0,
    ensures
        payload(body) == unterminated(body[0]) + seq!['\n'] + payload(body.drop_first()),
    decreases body.len(),
{
    if body.len() == 1 {
        assert(payload(body.drop_last()) =~= Seq::empty());
        assert(payload(body.drop_first()) =~= Seq::empty());
        assert(body.last() == body[0]);
        assert(payload(body) =~= unterminated(body[0]) + seq!['\n'] + payload(body.drop_first()));
    } else {
        lemma_payload_front(body.drop_last());
        assert(body.drop_last().drop_first() =~= body.drop_first().drop_last());
        assert(body.drop_last()[0] == body[0]);
        assert(body.drop_first().last() == body.last());
        assert(payload(body) =~= unterminated(body[0]) + seq!['\n'] + payload(body.drop_first()));
    }
}

/// A data block that the line `opening` opens, that holds the raw lines
/// `body` and that a line of a single `.` closes gives exactly one reply
/// line: its text is that of `opening`, and its data the lines of `body`,
/// each without its line terminator and followed by one line feed.
pub proof fn lemma_data_block_is_one_line(a: Assembly, opening: Seq<char>, body: Seq<Seq<char>>)
    requires
        a.block is None,
        opening.len() >= 6,
        opening[3] == '+',
        match a.code {
            Some(code) => code == opening.take(3),
            None => all_in(opening.take(3), CharClass::Digit),
        },
        forall|i: int| 0 <= i < body.len() ==> (#[trigger] body[i]).len() >= 2 && body[i]
            != block_end(),
    ensures
        feed_all(a, seq![opening] + body + seq![block_end()]) == Fed::More(
            Assembly {
                lines: a.lines.push(
                    LineView { reply: line_text(opening), data: Some(payload(body)) },
                ),
                code: Some(opening.take(3)),
                block: None,
            },
        ),
{
    let raws = seq![opening] + body + seq![block_end()];
    let closing = seq![block_end()];
    let opened = Assembly {
        lines: a.lines,
        code: Some(opening.take(3)),
        block: Some(OpenBlock { reply: line_text(opening), data: Seq::empty() }),
    };
    assert(feed_line(a, opening) == Fed::More(opened));
    assert(raws[0] == opening);
    assert(raws.drop_first() =~= body + closing);
    assert(feed_all(a, raws) == feed_all(opened, body + closing));
    lemma_block_body(opened, body);
    let filled = feed_all(opened, body)->More_0;
    assert(filled.block->0.data =~= payload(body));
    lemma_feed_all_append(opened, body, closing);
    assert(closing[0] == block_end());
    assert(closing.drop_first().len() == 0);
    let closed = feed_line(filled, block_end())->More_0;
    assert(feed_all(closed, closing.drop_first()) == Fed::More(closed));
    assert(feed_all(filled, closing) == Fed::More(closed));
}

/// Raw lines that are taken in without ending the reply can be fed before
/// others: the result is that of feeding the others afterwards.
pub proof fn lemma_feed_all_append(a: Assembly, first: Seq<Seq<char>>, then: Seq<Seq<char>>)
    requires
        feed_all(a, first) is More,
    ensures
        feed_all(a, first + then) == feed_all(feed_all(a, first)->More_0, then),
    decreases first.len(),
{
    if first.len() == 0 {
        assert(first + then =~= then);
    } else {
        let b = feed_line(a, first[0])->More_0;
        assert((first + then)[0] == first[0]);
        assert((first + then).drop_first() =~= first.drop_first() + then);
        lemma_feed_all_append(b, first.drop_first(), then);
    }
}

} // verus!
