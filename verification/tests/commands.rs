use tor_controller::auth::{
    client_hash, client_proof, server_hash, verdict, AuthAction, AuthChallenge, AuthEvent,
    Authenticator, Fatal,
};
use tor_controller::control::{getinfo_value, Controller};
use tor_controller::onion::{
    encode, AddOnion, AddOnionReply, KeyType, OnionClientAuth, OnionFlags, OnionKey, ServiceID,
};
use tor_controller::protocol_info::{AuthMethod, ProtocolInfo, Undecoded};
use tor_controller::reply::{
    AuthError, Error, ParseReplyError, Reply, ReplyError, ReplyLine, ReplyStatus,
};

fn reply(lines: &[&str]) -> Reply {
    Reply { lines: lines.iter().map(|l| ReplyLine { reply: l.to_string(), data: None }).collect() }
}

const SERVER: &str = "f56be88977c412c5d29a1fd97f02f6dc21d51e96424cbfe7f0d788cacf0fd781";
const CLIENT: &str = "9e3dc030cdfec435b2f0288799298ee5915ee95c29aedd4a4f3519b6e5976107";

fn cookie() -> Vec<u8> {
    (0u8..32).collect()
}

#[test]
fn challenge_of_zero_hash_and_ones_nonce() {
    let line = format!("AUTHCHALLENGE SERVERHASH={} SERVERNONCE={}", "0".repeat(64), "1".repeat(64));
    let c = AuthChallenge::from_reply(&reply(&[&line])).unwrap();
    assert_eq!(c.server_hash, [0u8; 32]);
    assert_eq!(c.server_nonce, [0x11u8; 32]);
}

#[test]
fn challenge_of_mixed_digits() {
    let line = format!("AUTHCHALLENGE SERVERHASH={} SERVERNONCE={}", "A9".repeat(32), "0F".repeat(32));
    let c = AuthChallenge::from_reply(&reply(&[&line])).unwrap();
    assert_eq!(c.server_hash, [0xA9u8; 32]);
    assert_eq!(c.server_nonce, [0x0Fu8; 32]);
}

#[test]
fn challenge_of_another_form_is_a_parse_error() {
    let lower = format!("AUTHCHALLENGE SERVERHASH={} SERVERNONCE={}", "a".repeat(64), "1".repeat(64));
    let short = format!("AUTHCHALLENGE SERVERHASH={} SERVERNONCE={}", "0".repeat(64), "1".repeat(63));
    for r in [reply(&[&lower]), reply(&[&short]), reply(&["OK"]), reply(&[])] {
        assert_eq!(AuthChallenge::from_reply(&r), Err(ParseReplyError::RegexCapture));
    }
}

#[test]
fn getinfo_value_of_single_line() {
    assert_eq!(getinfo_value("version", &reply(&["version=0.3.5.8", "OK"])), Ok("0.3.5.8".to_string()));
    assert_eq!(getinfo_value("k", &reply(&["k="])), Ok(String::new()));
}

#[test]
fn getinfo_value_of_data_block() {
    let r = Reply {
        lines: vec![ReplyLine { reply: "md/name/x=".to_string(), data: Some("a\nb\n".to_string()) }],
    };
    assert_eq!(getinfo_value("md/name/x", &r), Ok("a\nb\n".to_string()));
}

#[test]
fn getinfo_key_not_found() {
    for r in [reply(&["versions=1"]), reply(&["version"]), reply(&["other=1"]), reply(&[])] {
        assert_eq!(getinfo_value("version", &r), Err(ParseReplyError::KeyNotFound));
    }
}

#[test]
fn unrecognized_key_is_a_reply_error_not_a_parse_error() {
    let mut c = Controller::new();
    assert_eq!(c.cmd_getinfo("foo"), "GETINFO foo\r\n");
    match c.receive("552 Unrecognized key \"foo\"\r\n") {
        Some(Err(Error::Reply(e))) => {
            assert_eq!(e.code, 552);
            assert_eq!(e.status, ReplyStatus::PermNegative);
        }
        other => panic!("unexpected {:?}", other),
    }
    assert_eq!(c.get_version(), "GETINFO version\r\n");
}

#[test]
fn service_id_accepts_sixteen_base32_characters_only() {
    assert_eq!(ServiceID::new("abcdefghijklmnop".to_string()).unwrap().as_str(), "abcdefghijklmnop");
    assert!(ServiceID::new("ABCDEFGH234567az".to_string()).is_some());
    for bad in ["", "abcdefghijklmno", "abcdefghijklmnopq", "abcdefghijklmno1", "abcdefghijklmno8",
        "abcdefghijklmn p", "abcdefghijklmno\u{e9}"] {
        assert!(ServiceID::new(bad.to_string()).is_none(), "{:?}", bad);
    }
}

#[test]
fn add_onion_command_text() {
    let mut req = AddOnion {
        key: OnionKey::New(KeyType::Best),
        flags: vec![],
        ports: vec![(80, None)],
        client_auths: vec![],
    };
    assert_eq!(encode(&req), "ADD_ONION NEW:BEST Port=80");
    req.key = OnionKey::Rsa1024("MIIC".to_string());
    req.flags = vec![OnionFlags::DiscardPK, OnionFlags::Detach, OnionFlags::BasicAuth];
    req.ports = vec![(80, Some(8080)), (0, None), (65535, Some(7))];
    req.client_auths = vec![
        OnionClientAuth { client_name: "bob".to_string(), client_blob: None },
        OnionClientAuth { client_name: "eve".to_string(), client_blob: Some("x9".to_string()) },
    ];
    let text = "ADD_ONION EXISTING:MIIC DiscardPK,Detach,BasicAuth Port=80,8080 Port=0 \
                Port=65535,7 ClientAuth=bob ClientAuth=eve:x9";
    assert_eq!(encode(&req), text);
    assert_eq!(Controller::new().cmd_add_onion(&req), format!("{}\r\n", text));
    assert_eq!(encode(&KeyType::Rsa1024), "RSA1024");
    assert_eq!(encode(&OnionKey::Rsa1024("BLOB".to_string())), "EXISTING:BLOB");
    assert_eq!(encode(&OnionKey::New(KeyType::Rsa1024)), "NEW:RSA1024");
    let sid = ServiceID::new("abcdefghijklmnop".to_string()).unwrap();
    assert_eq!(Controller::new().cmd_del_onion(&sid), "DEL_ONION abcdefghijklmnop\r\n");
}

#[test]
fn add_onion_reply_with_key_and_clients() {
    let req = AddOnion {
        key: OnionKey::New(KeyType::Rsa1024),
        flags: vec![OnionFlags::BasicAuth],
        ports: vec![(80, None)],
        client_auths: vec![OnionClientAuth { client_name: "bob".to_string(), client_blob: None }],
    };
    let r = reply(&["ServiceID=abcdefghijklmnop", "PrivateKey=RSA1024:MII:C", "ClientAuth=bob:se:cret", "ClientAuth=x:y", "OK"]);
    let decoded = AddOnionReply::from_reply(&req, &r).unwrap();
    assert_eq!(decoded.service_id.as_str(), "abcdefghijklmnop");
    assert_eq!(decoded.sk, Some("C".to_string()));
    assert_eq!(decoded.client_auths, vec![("bob:se".to_string(), "cret".to_string())]);
}

#[test]
fn add_onion_reply_without_key() {
    let mut req = AddOnion {
        key: OnionKey::New(KeyType::Best),
        flags: vec![OnionFlags::DiscardPK],
        ports: vec![],
        client_auths: vec![],
    };
    let r = reply(&["ServiceID=abcdefghijklmnop", "OK"]);
    let decoded = AddOnionReply::from_reply(&req, &r).unwrap();
    assert_eq!((decoded.sk, decoded.client_auths.len()), (None, 0));
    req.flags = vec![];
    assert_eq!(AddOnionReply::from_reply(&req, &r), Err(ParseReplyError::RegexCapture));
    req.key = OnionKey::Rsa1024("k".to_string());
    assert!(AddOnionReply::from_reply(&req, &r).is_ok());
    for bad in [reply(&[]), reply(&["ServiceID=short"]), reply(&["ServiceId=abcdefghijklmnop"])] {
        assert_eq!(AddOnionReply::from_reply(&req, &bad), Err(ParseReplyError::RegexCapture));
    }
    req.client_auths = vec![OnionClientAuth { client_name: "a".to_string(), client_blob: None }];
    let bad = reply(&["ServiceID=abcdefghijklmnop", "ClientAuth=a:"]);
    assert_eq!(AddOnionReply::from_reply(&req, &bad), Err(ParseReplyError::RegexCapture));
}

#[test]
fn protocol_info_is_decoded() {
    let r = reply(&[
        "PROTOCOLINFO 1",
        "AUTH METHODS=COOKIE,SAFECOOKIE,HASHEDPASSWORD COOKIEFILE=\"/run/tor/control.authcookie\" COOKIEFILE=\"/b c\"",
        "VERSION Tor=\"0.3.5.8\" extra",
        "FUTURE line",
        "OK",
    ]);
    let info = ProtocolInfo::from_reply(&r).unwrap();
    assert_eq!(info.protocol_info_ver, 1);
    assert_eq!(info.tor_ver, "0.3.5.8");
    assert_eq!(info.auth_methods, vec![AuthMethod::Cookie, AuthMethod::SafeCookie, AuthMethod::HashedPassword]);
    assert_eq!(info.cookie_files, vec!["/run/tor/control.authcookie".to_string(), "/b c".to_string()]);
    let null = ProtocolInfo::examine(&reply(&["PROTOCOLINFO 001", "AUTH METHODS=NULL"])).unwrap();
    assert_eq!((null.auth_methods, null.cookie_files.len()), (vec![AuthMethod::Null], 0));
}

#[test]
fn protocol_info_refusals() {
    let malformed = |lines: &[&str], e| assert_eq!(ProtocolInfo::examine(&reply(lines)), Err(Undecoded::Malformed(e)));
    malformed(&[], ParseReplyError::RegexCapture);
    malformed(&["PROTOCOLINFO"], ParseReplyError::RegexCapture);
    malformed(&["PROTOCOLINFO 1x"], ParseReplyError::RegexCapture);
    malformed(&["PROTOCOLINFO 256"], ParseReplyError::ParseIntError);
    malformed(&["PROTOCOLINFO 1", "AUTH METHODS=null"], ParseReplyError::RegexCapture);
    malformed(&["PROTOCOLINFO 1", "VERSION Tor=\"0.3"], ParseReplyError::RegexCapture);
    assert_eq!(ProtocolInfo::examine(&reply(&["PROTOCOLINFO 2"])), Err(Undecoded::UnsupportedVersion(2)));
    assert_eq!(
        ProtocolInfo::examine(&reply(&["PROTOCOLINFO 1", "AUTH METHODS=NULL,,COOKIE"])),
        Err(Undecoded::UnsupportedAuthMethod(String::new()))
    );
    assert_eq!(
        ProtocolInfo::examine(&reply(&["PROTOCOLINFO 1", "AUTH METHODS=PLAIN"])),
        Err(Undecoded::UnsupportedAuthMethod("PLAIN".to_string()))
    );
    assert_eq!(
        ProtocolInfo::from_reply(&reply(&["PROTOCOLINFO 1", "AUTH x"])),
        Err(Error::ParseReply(ParseReplyError::RegexCapture))
    );
}

#[test]
fn both_hashes_equal_the_reference_values() {
    let (cn, sn) = ([0xAAu8; 32], [0x11u8; 32]);
    assert_eq!(hex::encode(server_hash(&cookie(), &cn, &sn)), SERVER);
    assert_eq!(hex::encode(client_hash(&cookie(), &cn, &sn)), CLIENT);
}

#[test]
fn client_proof_needs_the_server_hash() {
    let cn = [0xAAu8; 32];
    let mut challenge = AuthChallenge { server_hash: [0u8; 32], server_nonce: [0x11u8; 32] };
    assert_eq!(client_proof(&cookie(), &cn, &challenge), Err(AuthError::ServerNotVerified));
    challenge.server_hash.copy_from_slice(&hex::decode(SERVER).unwrap());
    assert_eq!(hex::encode(client_proof(&cookie(), &cn, &challenge).unwrap()), CLIENT);
}

#[test]
fn verdict_recodes_reply_errors_only() {
    let e = ReplyError { code: 515, status: ReplyStatus::PermNegative, line: "Bad".to_string() };
    assert_eq!(verdict(Ok(reply(&["OK"]))), Ok(()));
    assert_eq!(verdict(Err(Error::Reply(e.clone()))), Err(Error::Auth(AuthError::AuthFailed(e))));
    let p = Error::ParseReply(ParseReplyError::KeyNotFound);
    assert_eq!(verdict(Err(p.clone())), Err(p));
}

#[test]
fn commands_carry_hexadecimal_in_lower_case() {
    let mut c = Controller::new();
    let mut nonce = [0u8; 32];
    nonce[0] = 0xAB;
    nonce[31] = 0x0F;
    assert_eq!(
        c.cmd_authchallenge(&nonce),
        format!("AUTHCHALLENGE SAFECOOKIE ab{}0f\r\n", "00".repeat(30))
    );
    assert_eq!(c.cmd_authenticate(&[0xDE, 0xAD, 0x01]), "AUTHENTICATE dead01\r\n");
}

#[test]
fn handshake_runs_to_the_verdict() {
    let (mut auth, first) = Authenticator::start();
    assert_eq!(first, "PROTOCOLINFO");
    let info = reply(&["PROTOCOLINFO 1", "AUTH METHODS=SAFECOOKIE COOKIEFILE=\"/c\"", "OK"]);
    let cmd = match auth.advance(AuthEvent::Reply(Ok(info))) {
        AuthAction::Run(cmd) => cmd,
        other => panic!("unexpected {:?}", other),
    };
    let client_nonce = match &auth {
        Authenticator::AwaitingChallenge { cookie_file, client_nonce } => {
            assert_eq!(cookie_file, "/c");
            *client_nonce
        }
        other => panic!("unexpected {:?}", other),
    };
    assert_eq!(cmd, format!("AUTHCHALLENGE SAFECOOKIE {}", hex::encode(client_nonce)));
    let sn = [0x11u8; 32];
    let hash = hex::encode_upper(server_hash(&cookie(), &client_nonce, &sn));
    let line = format!("AUTHCHALLENGE SERVERHASH={} SERVERNONCE={}", hash, "11".repeat(32));
    assert_eq!(auth.advance(AuthEvent::Reply(Ok(reply(&[&line])))), AuthAction::ReadCookie("/c".to_string()));
    let proof = hex::encode(client_hash(&cookie(), &client_nonce, &sn));
    assert_eq!(auth.advance(AuthEvent::Cookie(cookie())), AuthAction::Run(format!("AUTHENTICATE {}", proof)));
    assert_eq!(auth.advance(AuthEvent::Reply(Ok(reply(&["OK"])))), AuthAction::Finished(Ok(())));
    assert_eq!(auth, Authenticator::Over);
    assert_eq!(auth.advance(AuthEvent::Cookie(vec![])), AuthAction::Unexpected);
}

#[test]
fn handshake_stops_at_a_wrong_server_hash() {
    let mut auth = Authenticator::AwaitingCookie {
        client_nonce: [1u8; 32],
        challenge: AuthChallenge { server_hash: [0u8; 32], server_nonce: [2u8; 32] },
    };
    assert_eq!(
        auth.advance(AuthEvent::Cookie(cookie())),
        AuthAction::Finished(Err(Error::Auth(AuthError::ServerNotVerified)))
    );
    assert_eq!(auth, Authenticator::Over);
}

#[test]
fn handshake_gives_up_and_fails() {
    let step = |lines: &[&str]| Authenticator::start().0.advance(AuthEvent::Reply(Ok(reply(lines))));
    assert_eq!(
        step(&["PROTOCOLINFO 1", "AUTH METHODS=NULL", "OK"]),
        AuthAction::Finished(Err(Error::ParseReply(ParseReplyError::MissingField)))
    );
    assert_eq!(step(&["PROTOCOLINFO 3"]), AuthAction::Abort(Fatal::UnsupportedVersion(3)));
    assert_eq!(
        step(&["PROTOCOLINFO 1", "AUTH METHODS=X"]),
        AuthAction::Abort(Fatal::UnsupportedAuthMethod("X".to_string()))
    );
    assert_eq!(step(&["nothing"]), AuthAction::Finished(Err(Error::ParseReply(ParseReplyError::RegexCapture))));
    let e = ReplyError { code: 515, status: ReplyStatus::PermNegative, line: "no".to_string() };
    let mut auth = Authenticator::AwaitingVerdict;
    assert_eq!(
        auth.advance(AuthEvent::Reply(Err(Error::Reply(e.clone())))),
        AuthAction::Finished(Err(Error::Auth(AuthError::AuthFailed(e))))
    );
}
