//! The safe-cookie handshake: the challenge that the server answers, the two
//! keyed hashes over the cookie and the nonces, and the steps from the first
//! command to the server's verdict.

use crate::control::{authchallenge_command, authenticate_command};
use crate::hexadecimal::{
    decode_hex_32, encode_hex, hex_decoding, is_hex_digit, is_hex_text, Bytes32,
};
use crate::mac::{compute_hmac_sha256, fixed_time_eq, hmac_sha256, random_nonce};
use crate::protocol_info::{protocol_info_of, ProtocolInfo, Undecoded, UndecodedView};
use crate::reply::{AuthError, Error, LineView, ParseReplyError, Reply};
use crate::text::{
    all_in, chars_of, has_at, lemma_run_reaches, scan_run, slice_string, word_at, CharClass,
};
use vstd::prelude::*;
use vstd::string::StringSliceAdditionalSpecFns;

verus! {

/// What the server answers to `AUTHCHALLENGE`: its hash over the cookie and
/// both nonces, and its nonce.
#[derive(Debug, Clone, PartialEq, Eq)]
pub struct AuthChallenge {
    pub server_hash: [u8; 32],
    pub server_nonce: [u8; 32],
}

/// The mathematical content of an [`AuthChallenge`].
pub struct AuthChallengeView {
    pub server_hash: Seq<u8>,
    pub server_nonce: Seq<u8>,
}

impl View for AuthChallenge {
    type V = AuthChallengeView;

    open spec fn view(&self) -> AuthChallengeView {
        AuthChallengeView { server_hash: self.server_hash@, server_nonce: self.server_nonce@ }
    }
}

/// The word before the server's hash.
pub open spec fn hash_word() -> Seq<char> {
    "AUTHCHALLENGE SERVERHASH="@
}

/// The word before the server's nonce.
pub open spec fn nonce_word() -> Seq<char> {
    " SERVERNONCE="@
}

/// What a reply to `AUTHCHALLENGE` holds: its first line is
/// `AUTHCHALLENGE SERVERHASH=`, 64 hexadecimal digits in upper case,
/// ` SERVERNONCE=` and 64 such digits again.
pub open spec fn challenge_of(lines: Seq<LineView>) -> Result<AuthChallengeView, ParseReplyError> {
    if lines.len() == 0 {
        Err(ParseReplyError::RegexCapture)
    } else {
        let line = lines[0].reply;
        let hash_at = hash_word().len() as int;
        let nonce_at = hash_at + 64 + nonce_word().len();
        if line.len() == nonce_at + 64 && has_at(line, 0, hash_word()) && all_in(
            line.subrange(hash_at, hash_at + 64),
            CharClass::UpperHex,
        ) && has_at(line, hash_at + 64, nonce_word()) && all_in(
            line.subrange(nonce_at, nonce_at + 64),
            CharClass::UpperHex,
        ) {
            Ok(
                AuthChallengeView {
                    server_hash: hex_decoding(line.subrange(hash_at, hash_at + 64)),
                    server_nonce: hex_decoding(line.subrange(nonce_at, nonce_at + 64)),
                },
            )
        } else {
            Err(ParseReplyError::RegexCapture)
        }
    }
}

/// Reads the 64 upper-case hexadecimal digits of `line` from `at` as 32 bytes.
fn read_hash(line: &str, cs: &[char], at: usize) -> (r: Result<Bytes32, ParseReplyError>)
    requires
        cs@ == line@,
        at + 64 <= cs@.len(),
    ensures
        match r {
            Ok(bytes) => all_in(cs@.subrange(at as int, at + 64), CharClass::UpperHex) && bytes@
                == hex_decoding(cs@.subrange(at as int, at + 64)),
            Err(e) => !all_in(cs@.subrange(at as int, at + 64), CharClass::UpperHex) && e
                == ParseReplyError::RegexCapture,
        },
{
    let n = cs.len();
    let end = scan_run(cs, at, CharClass::UpperHex);
    proof {
        lemma_run_reaches(cs@, at as int, at + 64, CharClass::UpperHex);
    }
    if end < at + 64 {
        return Err(ParseReplyError::RegexCapture);
    }
    let digits = slice_string(line, at, at + 64);
    proof {
        assert forall|i: int| 0 <= i < digits@.len() implies is_hex_digit(#[trigger] digits@[i]) by {
            assert(CharClass::UpperHex.has(digits@[i]));
        }
        assert(is_hex_text(digits@));
    }
    match decode_hex_32(digits.as_str()) {
        Ok(bytes) => Ok(bytes),
        Err(_) => Err(ParseReplyError::FromHexError),
    }
}

impl AuthChallenge {
    /// Decodes the reply to `AUTHCHALLENGE`.
    pub fn from_reply(reply: &Reply) -> (r: Result<AuthChallenge, ParseReplyError>)
        ensures
            match challenge_of(reply@) {
                Ok(v) => r matches Ok(challenge) && challenge@ == v,
                Err(e) => r == Err::<AuthChallenge, ParseReplyError>(e),
            },
    {
        if reply.lines.len() == 0 {
            return Err(ParseReplyError::RegexCapture);
        }
        assert(reply@[0].reply == reply.lines[0].reply@);
        let line = reply.lines[0].reply.as_str();
        let cs = chars_of(line);
        let head = chars_of("AUTHCHALLENGE SERVERHASH=");
        let mid = chars_of(" SERVERNONCE=");
        proof {
            reveal_strlit("AUTHCHALLENGE SERVERHASH=");
            reveal_strlit(" SERVERNONCE=");
        }
        let hash_at = head.len();
        let nonce_at = hash_at + 64 + mid.len();
        if cs.len() != nonce_at + 64 || !word_at(cs.as_slice(), 0, head.as_slice()) || !word_at(
            cs.as_slice(),
            hash_at + 64,
            mid.as_slice(),
        ) {
            return Err(ParseReplyError::RegexCapture);
        }
        let server_hash = match read_hash(line, cs.as_slice(), hash_at) {
            Ok(bytes) => bytes,
            Err(e) => {
                return Err(e);
            },
        };
        let server_nonce = match read_hash(line, cs.as_slice(), nonce_at) {
            Ok(bytes) => bytes,
            Err(e) => {
                return Err(e);
            },
        };
        Ok(AuthChallenge { server_hash, server_nonce })
    }
}

/// The key under which the server proves that it knows the cookie.
pub open spec fn server_key() -> Seq<u8> {
    "Tor safe cookie authentication server-to-controller hash".spec_bytes()
}

/// The key under which the client proves that it knows the cookie.
pub open spec fn client_key() -> Seq<u8> {
    "Tor safe cookie authentication controller-to-server hash".spec_bytes()
}

/// What both hashes of the handshake are taken over: the cookie, then the
/// client's nonce, then the server's.
pub open spec fn handshake_message(
    cookie: Seq<u8>,
    client_nonce: Seq<u8>,
    server_nonce: Seq<u8>,
) -> Seq<u8> {
    cookie + client_nonce + server_nonce
}

fn message_of(cookie: &[u8], client_nonce: &Bytes32, server_nonce: &Bytes32) -> (m: Vec<u8>)
    ensures
        m@ == handshake_message(cookie@, client_nonce@, server_nonce@),
{
    let mut m: Vec<u8> = Vec::new();
    m.extend_from_slice(cookie);
    m.extend_from_slice(client_nonce.as_slice());
    m.extend_from_slice(server_nonce.as_slice());
    assert(m@ =~= handshake_message(cookie@, client_nonce@, server_nonce@));
    m
}

/// The hash that a server which knows `cookie` answers the challenge with.
pub fn server_hash(cookie: &[u8], client_nonce: &Bytes32, server_nonce: &Bytes32) -> (code: Vec<u8>)
    ensures
        code@ == hmac_sha256(
            server_key(),
            handshake_message(cookie@, client_nonce@, server_nonce@),
        ),
        code@.len() == 32,
{
    let message = message_of(cookie, client_nonce, server_nonce);
    compute_hmac_sha256(
        "Tor safe cookie authentication server-to-controller hash".as_bytes(),
        message.as_slice(),
    )
}

/// The hash by which a client that knows `cookie` authenticates.
pub fn client_hash(cookie: &[u8], client_nonce: &Bytes32, server_nonce: &Bytes32) -> (code: Vec<u8>)
    ensures
        code@ == hmac_sha256(
            client_key(),
            handshake_message(cookie@, client_nonce@, server_nonce@),
        ),
        code@.len() == 32,
{
    let message = message_of(cookie, client_nonce, server_nonce);
    compute_hmac_sha256(
        "Tor safe cookie authentication controller-to-server hash".as_bytes(),
        message.as_slice(),
    )
}

/// Whether the server's answer to the challenge shows that it knows `cookie`.
pub open spec fn server_verified(
    cookie: Seq<u8>,
    client_nonce: Seq<u8>,
    challenge: AuthChallengeView,
) -> bool {
    challenge.server_hash == hmac_sha256(
        server_key(),
        handshake_message(cookie, client_nonce, challenge.server_nonce),
    )
}

/// Checks the server's hash and, where it is the expected one, computes the
/// client's. The hashes are compared in a time that does not depend on where
/// they differ.
pub fn client_proof(cookie: &[u8], client_nonce: &Bytes32, challenge: &AuthChallenge) -> (r: Result<
    Vec<u8>,
    AuthError,
>)
    ensures
        match r {
            Ok(proof) => server_verified(cookie@, client_nonce@, challenge@) && proof@
                == hmac_sha256(
                client_key(),
                handshake_message(cookie@, client_nonce@, challenge@.server_nonce),
            ),
            Err(e) => !server_verified(cookie@, client_nonce@, challenge@) && e
                == AuthError::ServerNotVerified,
        },
{
    let expected = server_hash(cookie, client_nonce, &challenge.server_nonce);
    if !fixed_time_eq(expected.as_slice(), challenge.server_hash.as_slice()) {
        return Err(AuthError::ServerNotVerified);
    }
    Ok(client_hash(cookie, client_nonce, &challenge.server_nonce))
}

/// The verdict on the client's proof: a reply that turns it down becomes an
/// authentication failure, any other outcome stays what it is.
pub fn verdict(outcome: Result<Reply, Error>) -> (r: Result<(), Error>)
    ensures
        match outcome {
            Ok(_) => r == Ok::<(), Error>(()),
            Err(Error::Reply(e)) => r == Err::<(), Error>(Error::Auth(AuthError::AuthFailed(e))),
            Err(e) => r == Err::<(), Error>(e),
        },
{
    match outcome {
        Ok(_) => Ok(()),
        Err(Error::Reply(e)) => Err(Error::Auth(AuthError::AuthFailed(e))),
        Err(e) => Err(e),
    }
}

/// Where a handshake stands between two steps.
#[derive(Debug, Clone, PartialEq, Eq)]
pub enum Authenticator {
    /// `PROTOCOLINFO` has been asked and its reply is awaited.
    AwaitingInfo,
    /// `AUTHCHALLENGE` has been asked under `client_nonce`; the cookie is in
    /// `cookie_file`.
    AwaitingChallenge { cookie_file: String, client_nonce: [u8; 32] },
    /// The server has answered the challenge and the cookie is awaited.
    AwaitingCookie { client_nonce: [u8; 32], challenge: AuthChallenge },
    /// The client's proof has been sent and the server's verdict is awaited.
    AwaitingVerdict,
    /// The handshake is over.
    Over,
}

/// What the owner of the stream hands to a handshake.
#[derive(Debug, PartialEq, Eq)]
pub enum AuthEvent {
    /// The outcome of the command that was asked for.
    Reply(Result<Reply, Error>),
    /// The bytes of the cookie file that was asked for.
    Cookie(Vec<u8>),
}

/// A daemon that this library does not go on with.
#[derive(Debug, Clone, PartialEq, Eq)]
pub enum Fatal {
    /// It speaks a version of the protocol other than 1.
    UnsupportedVersion(u8),
    /// It lists an authentication method that this library does not know.
    UnsupportedAuthMethod(String),
}

/// What a handshake asks of the owner of the stream.
#[derive(Debug, PartialEq, Eq)]
pub enum AuthAction {
    /// To run the command and hand back its outcome.
    Run(String),
    /// To read the file whole and hand back its bytes.
    ReadCookie(String),
    /// Nothing more: the handshake has ended in this result.
    Finished(Result<(), Error>),
    /// Nothing more: the daemon is not one to go on with.
    Abort(Fatal),
    /// Nothing more: the event was not the one that was asked for.
    Unexpected,
}

impl Authenticator {
    /// Begins a handshake: the state to go on from, and the command to run first.
    pub fn start() -> (r: (Authenticator, String))
        ensures
            r.0 is AwaitingInfo,
            r.1@ == "PROTOCOLINFO"@,
    {
        (Authenticator::AwaitingInfo, "PROTOCOLINFO".to_owned())
    }

    /// The step after the reply to `PROTOCOLINFO`: with the first cookie file
    /// that the server names, to the challenge under a nonce that is drawn here.
    fn on_info(outcome: Result<Reply, Error>) -> (r: (Authenticator, AuthAction))
        ensures
            info_step(outcome, r.0, r.1),
    {
        let reply = match outcome {
            Ok(reply) => reply,
            Err(e) => {
                return (Authenticator::Over, AuthAction::Finished(Err(e)));
            },
        };
        let info = match ProtocolInfo::examine(&reply) {
            Ok(info) => info,
            Err(Undecoded::Malformed(e)) => {
                return (Authenticator::Over, AuthAction::Finished(Err(Error::ParseReply(e))));
            },
            Err(Undecoded::UnsupportedVersion(v)) => {
                return (Authenticator::Over, AuthAction::Abort(Fatal::UnsupportedVersion(v)));
            },
            Err(Undecoded::UnsupportedAuthMethod(t)) => {
                return (Authenticator::Over, AuthAction::Abort(Fatal::UnsupportedAuthMethod(t)));
            },
        };
        if info.cookie_files.len() == 0 {
            return (
                Authenticator::Over,
                AuthAction::Finished(Err(Error::ParseReply(ParseReplyError::MissingField))),
            );
        }
        let cookie_file = info.cookie_files[0].clone();
        let client_nonce = random_nonce();
        let mut cmd = "AUTHCHALLENGE SAFECOOKIE ".to_owned();
        cmd.append(encode_hex(client_nonce.as_slice()).as_str());
        (Authenticator::AwaitingChallenge { cookie_file, client_nonce }, AuthAction::Run(cmd))
    }

    /// Takes the handshake one step on: from the state it is in and the
    /// event that came, to the state it is in next and what it asks for.
    pub fn advance(&mut self, event: AuthEvent) -> (action: AuthAction)
        ensures
            match (*old(self), event) {
                (Authenticator::AwaitingInfo, AuthEvent::Reply(outcome)) => info_step(
                    outcome,
                    *final(self),
                    action,
                ),
                (
                    Authenticator::AwaitingChallenge { cookie_file, client_nonce },
                    AuthEvent::Reply(outcome),
                ) => challenge_step(cookie_file@, client_nonce, outcome, *final(self), action),
                (
                    Authenticator::AwaitingCookie { client_nonce, challenge },
                    AuthEvent::Cookie(cookie),
                ) => cookie_step(client_nonce@, challenge@, cookie@, *final(self), action),
                (Authenticator::AwaitingVerdict, AuthEvent::Reply(outcome)) => *final(self)
                    is Over && verdict_step(outcome, action),
                _ => *final(self) is Over && action is Unexpected,
            },
    {
        let mut state = Authenticator::Over;
        core::mem::swap(self, &mut state);
        match (state, event) {
            (Authenticator::AwaitingInfo, AuthEvent::Reply(outcome)) => {
                let (next, action) = Authenticator::on_info(outcome);
                *self = next;
                action
            },
            (
                Authenticator::AwaitingChallenge { cookie_file, client_nonce },
                AuthEvent::Reply(outcome),
            ) => {
                let reply = match outcome {
                    Ok(reply) => reply,
                    Err(e) => {
                        return AuthAction::Finished(Err(e));
                    },
                };
                match AuthChallenge::from_reply(&reply) {
                    Err(e) => AuthAction::Finished(Err(Error::ParseReply(e))),
                    Ok(challenge) => {
                        *self = Authenticator::AwaitingCookie { client_nonce, challenge };
                        AuthAction::ReadCookie(cookie_file)
                    },
                }
            },
            (
                Authenticator::AwaitingCookie { client_nonce, challenge },
                AuthEvent::Cookie(cookie),
            ) => {
                match client_proof(cookie.as_slice(), &client_nonce, &challenge) {
                    Err(e) => AuthAction::Finished(Err(Error::Auth(e))),
                    Ok(proof) => {
                        let mut cmd = "AUTHENTICATE ".to_owned();
                        cmd.append(encode_hex(proof.as_slice()).as_str());
                        *self = Authenticator::AwaitingVerdict;
                        AuthAction::Run(cmd)
                    },
                }
            },
            (Authenticator::AwaitingVerdict, AuthEvent::Reply(outcome)) => {
                AuthAction::Finished(verdict(outcome))
            },
            _ => AuthAction::Unexpected,
        }
    }
}

/// The step after `PROTOCOLINFO`. A failed command or a reply of another
/// form ends the handshake in that error, and so does a reply that names no
/// cookie file, whose error is that of a missing field; a protocol version or
/// a method that is not supported makes it give up. Otherwise the
/// handshake keeps the first cookie file and a nonce, and asks for the
/// challenge under that nonce.
pub open spec fn info_step(
    outcome: Result<Reply, Error>,
    next: Authenticator,
    action: AuthAction,
) -> bool {
    match outcome {
        Err(e) => next is Over && action == AuthAction::Finished(Err(e)),
        Ok(reply) => match protocol_info_of(reply@) {
            Err(UndecodedView::Malformed(e)) => next is Over && action == AuthAction::Finished(
                Err(Error::ParseReply(e)),
            ),
            Err(UndecodedView::UnsupportedVersion(v)) => next is Over && action
                == AuthAction::Abort(Fatal::UnsupportedVersion(v)),
            Err(UndecodedView::UnsupportedAuthMethod(token)) => next is Over && (
            action matches AuthAction::Abort(Fatal::UnsupportedAuthMethod(t)) && t@ == token),
            Ok(info) => if info.cookie_files.len() == 0 {
                next is Over && action == AuthAction::Finished(
                    Err(Error::ParseReply(ParseReplyError::MissingField)),
                )
            } else {
                &&& next matches Authenticator::AwaitingChallenge { cookie_file, client_nonce }
                &&& cookie_file@ == info.cookie_files[0]
                &&& action matches AuthAction::Run(cmd)
                &&& cmd@ == authchallenge_command(client_nonce@)
            },
        },
    }
}

/// The step after `AUTHCHALLENGE`. A failed command or a reply of another
/// form ends the handshake in that error; otherwise the handshake keeps the
/// challenge and asks for the cookie.
pub open spec fn challenge_step(
    cookie_file: Seq<char>,
    client_nonce: [u8; 32],
    outcome: Result<Reply, Error>,
    next: Authenticator,
    action: AuthAction,
) -> bool {
    match outcome {
        Err(e) => next is Over && action == AuthAction::Finished(Err(e)),
        Ok(reply) => match challenge_of(reply@) {
            Err(e) => next is Over && action == AuthAction::Finished(Err(Error::ParseReply(e))),
            Ok(expected) => {
                &&& next matches Authenticator::AwaitingCookie { client_nonce: nonce, challenge }
                &&& nonce == client_nonce
                &&& challenge@ == expected
                &&& action matches AuthAction::ReadCookie(path)
                &&& path@ == cookie_file
            },
        },
    }
}

/// The step after the cookie was read. Where the server's hash is not the
/// one that the cookie gives, the handshake ends there and nothing is sent;
/// otherwise it hands the client's hash to the server.
pub open spec fn cookie_step(
    client_nonce: Seq<u8>,
    challenge: AuthChallengeView,
    cookie: Seq<u8>,
    next: Authenticator,
    action: AuthAction,
) -> bool {
    if server_verified(cookie, client_nonce, challenge) {
        &&& next is AwaitingVerdict
        &&& action matches AuthAction::Run(cmd)
        &&& cmd@ == authenticate_command(
            hmac_sha256(
                client_key(),
                handshake_message(cookie, client_nonce, challenge.server_nonce),
            ),
        )
    } else {
        next is Over && action == AuthAction::Finished(
            Err(Error::Auth(AuthError::ServerNotVerified)),
        )
    }
}

/// The step after `AUTHENTICATE`: the handshake ends in the server's verdict.
pub open spec fn verdict_step(outcome: Result<Reply, Error>, action: AuthAction) -> bool {
    match outcome {
        Ok(_) => action == AuthAction::Finished(Ok(())),
        Err(Error::Reply(e)) => action == AuthAction::Finished(
            Err(Error::Auth(AuthError::AuthFailed(e))),
        ),
        Err(e) => action == AuthAction::Finished(Err(e)),
    }
}

} // verus!
