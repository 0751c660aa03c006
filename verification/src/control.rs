//! The controller of one control connection, without the connection: it
//! frames the commands that are to be written to the stream and assembles the
//! replies from the raw lines that are read from it. Whoever owns the stream
//! writes what a command method returns, then hands each raw line it reads to
//! [`Controller::receive`] until that returns the outcome.

use crate::hexadecimal::{encode_hex, hex_encoding, Bytes32};
use crate::onion::{encode, AddOnion, Encode, ServiceID};
use crate::reply::{
    crlf, feed_line, outcome, view_of, Assembly, Error, ErrorView, Fed, LineView,
    ParseReplyError, Reply, ReplyParser,
};
use crate::text::{chars_of, has_at, slice_string, word_at};
use vstd::prelude::*;

pub use crate::auth::AuthChallenge;
pub use crate::onion::{AddOnionReply, KeyType, OnionClientAuth, OnionFlags, OnionKey};
pub use crate::protocol_info::{AuthMethod, ProtocolInfo};
pub use crate::reply::{AuthError, RawReplyError, ReplyError, ReplyLine, ReplyStatus};

verus! {

/// The ways in which a request for an onion service can be refused before it
/// is sent.
#[derive(Debug, Clone, Copy, PartialEq, Eq, Structural)]
pub enum OnionError {
    NoPortGiven,
}

/// The text of the command that asks for the value of `info_key`.
pub open spec fn getinfo_command(info_key: Seq<char>) -> Seq<char> {
    "GETINFO "@ + info_key
}

/// The text of the command that asks the server to prove itself, under the
/// client's nonce.
pub open spec fn authchallenge_command(client_nonce: Seq<u8>) -> Seq<char> {
    "AUTHCHALLENGE SAFECOOKIE "@ + hex_encoding(client_nonce)
}

/// The text of the command that hands the client's proof to the server.
pub open spec fn authenticate_command(pwd: Seq<u8>) -> Seq<char> {
    "AUTHENTICATE "@ + hex_encoding(pwd)
}

/// The text of the command that removes the onion service `service_id`.
pub open spec fn del_onion_command(service_id: Seq<char>) -> Seq<char> {
    "DEL_ONION "@ + service_id
}

/// The value that a reply to `GETINFO` gives for `info_key`: its first line
/// is the key and `=`, and then either the value, or nothing where the value
/// is the data block of the line.
pub open spec fn getinfo_value_of(info_key: Seq<char>, lines: Seq<LineView>) -> Result<
    Seq<char>,
    ParseReplyError,
> {
    if lines.len() == 0 {
        Err(ParseReplyError::KeyNotFound)
    } else if !(has_at(lines[0].reply, 0, info_key) && lines[0].reply.len() > info_key.len()
        && lines[0].reply[info_key.len() as int] == '=') {
        Err(ParseReplyError::KeyNotFound)
    } else {
        match lines[0].data {
            Some(data) => Ok(data),
            None => Ok(lines[0].reply.skip(info_key.len() as int + 1)),
        }
    }
}

/// Reads the value of `info_key` from the reply to the command that asked
/// for it.
pub fn getinfo_value(info_key: &str, reply: &Reply) -> (r: Result<String, ParseReplyError>)
    ensures
        match getinfo_value_of(info_key@, reply@) {
            Ok(value) => r matches Ok(v) && v@ == value,
            Err(e) => r == Err::<String, ParseReplyError>(e),
        },
{
    if reply.lines.len() == 0 {
        return Err(ParseReplyError::KeyNotFound);
    }
    let line = &reply.lines[0];
    assert(reply@[0] == line@);
    let cs = chars_of(line.reply.as_str());
    let key = chars_of(info_key);
    if !word_at(cs.as_slice(), 0, key.as_slice()) || cs.len() <= key.len() || cs[key.len()]
        != '=' {
        return Err(ParseReplyError::KeyNotFound);
    }
    match &line.data {
        Some(data) => Ok(data.clone()),
        None => {
            assert(cs@.subrange(key@.len() as int + 1, cs@.len() as int) =~= cs@.skip(
                key@.len() as int + 1,
            ));
            Ok(slice_string(line.reply.as_str(), key.len() + 1, cs.len()))
        },
    }
}

/// The controller's side of one control connection.
pub struct Controller {
    parser: ReplyParser,
}

impl View for Controller {
    type V = Assembly;

    /// What has been assembled of the reply to the command in progress.
    closed spec fn view(&self) -> Assembly {
        self.parser@
    }
}

impl Controller {
    /// A controller that has sent no command yet.
    pub fn new() -> (c: Controller)
        ensures
            c@ == Assembly::start(),
    {
        Controller { parser: ReplyParser::new() }
    }

    /// Begins the command `cmd`: returns what is to be written to the stream,
    /// the command and a line terminator, and forgets what was assembled of
    /// any earlier reply.
    pub fn raw_cmd(&mut self, cmd: &str) -> (wire: String)
        ensures
            wire@ == cmd@ + crlf(),
            final(self)@ == Assembly::start(),
    {
        self.parser = ReplyParser::new();
        let mut wire = cmd.to_owned();
        wire.append("\r\n");
        proof {
            reveal_strlit("\r\n");
            assert("\r\n"@ =~= crlf());
        }
        wire
    }

    /// Takes in one raw line of the stream. `None` says that the reply goes
    /// on; otherwise the reply has ended, by its last line or by a line that
    /// breaks the framing, and its outcome is returned.
    pub fn receive(&mut self, raw_line: &str) -> (r: Option<Result<Reply, Error>>)
        ensures
            match feed_line(old(self)@, raw_line@) {
                Fed::More(a) => r is None && final(self)@ == a,
                Fed::Last(a) => r matches Some(res) && view_of(res) == outcome(a) && final(self)@
                    == Assembly::start(),
                Fed::Rejected(e) => r matches Some(Err(x)) && x@ == ErrorView::RawReply(e)
                    && final(self)@ == Assembly::start(),
            },
    {
        match self.parser.feed(raw_line) {
            Ok(false) => None,
            Ok(true) => Some(self.end_of_stream()),
            Err(e) => {
                self.parser = ReplyParser::new();
                Some(Err(Error::RawReply(e)))
            },
        }
    }

    /// Ends the reply where the stream has ended: the outcome of what was
    /// assembled up to there.
    pub fn end_of_stream(&mut self) -> (r: Result<Reply, Error>)
        ensures
            view_of(r) == outcome(old(self)@),
            final(self)@ == Assembly::start(),
    {
        let mut parser = ReplyParser::new();
        core::mem::swap(&mut self.parser, &mut parser);
        parser.finish()
    }

    /// Begins `PROTOCOLINFO`. [`ProtocolInfo::from_reply`] decodes the reply.
    pub fn cmd_protocolinfo(&mut self) -> (wire: String)
        ensures
            wire@ == "PROTOCOLINFO"@ + crlf(),
            final(self)@ == Assembly::start(),
    {
        self.raw_cmd("PROTOCOLINFO")
    }

    /// Begins `AUTHCHALLENGE` for the safe-cookie method, under
    /// `client_nonce`. [`AuthChallenge::from_reply`] decodes the reply.
    pub fn cmd_authchallenge(&mut self, client_nonce: &Bytes32) -> (wire: String)
        ensures
            wire@ == authchallenge_command(client_nonce@) + crlf(),
            final(self)@ == Assembly::start(),
    {
        let mut cmd = "AUTHCHALLENGE SAFECOOKIE ".to_owned();
        cmd.append(encode_hex(client_nonce.as_slice()).as_str());
        self.raw_cmd(cmd.as_str())
    }

    /// Begins `GETINFO` for the one key `info_key`. [`getinfo_value`] reads
    /// the value from the reply.
    pub fn cmd_getinfo(&mut self, info_key: &str) -> (wire: String)
        ensures
            wire@ == getinfo_command(info_key@) + crlf(),
            final(self)@ == Assembly::start(),
    {
        let mut cmd = "GETINFO ".to_owned();
        cmd.append(info_key);
        self.raw_cmd(cmd.as_str())
    }

    /// Begins the query for the daemon's version: `GETINFO` for the key
    /// `version`.
    pub fn get_version(&mut self) -> (wire: String)
        ensures
            wire@ == getinfo_command("version"@) + crlf(),
            final(self)@ == Assembly::start(),
    {
        self.cmd_getinfo("version")
    }

    /// Begins `AUTHENTICATE` with the proof `pwd`.
    pub fn cmd_authenticate(&mut self, pwd: &[u8]) -> (wire: String)
        ensures
            wire@ == authenticate_command(pwd@) + crlf(),
            final(self)@ == Assembly::start(),
    {
        let mut cmd = "AUTHENTICATE ".to_owned();
        cmd.append(encode_hex(pwd).as_str());
        self.raw_cmd(cmd.as_str())
    }

    /// Begins `QUIT`.
    pub fn cmd_quit(&mut self) -> (wire: String)
        ensures
            wire@ == "QUIT"@ + crlf(),
            final(self)@ == Assembly::start(),
    {
        self.raw_cmd("QUIT")
    }

    /// Begins the `ADD_ONION` command that `add_onion` describes.
    /// [`AddOnionReply::from_reply`] decodes the reply.
    pub fn cmd_add_onion(&mut self, add_onion: &AddOnion) -> (wire: String)
        ensures
            wire@ == add_onion.text() + crlf(),
            final(self)@ == Assembly::start(),
    {
        let cmd = encode(add_onion);
        self.raw_cmd(cmd.as_str())
    }

    /// Begins `DEL_ONION` for the service `service_id`.
    pub fn cmd_del_onion(&mut self, service_id: &ServiceID) -> (wire: String)
        ensures
            wire@ == del_onion_command(service_id@) + crlf(),
            final(self)@ == Assembly::start(),
    {
        let mut cmd = "DEL_ONION ".to_owned();
        cmd.append(service_id.as_str());
        self.raw_cmd(cmd.as_str())
    }
}

} // verus!
