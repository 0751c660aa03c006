//! Onion services: the request that creates one, as the text of an
//! `ADD_ONION` command, and the reply that names the service.

use crate::reply::{LineView, ParseReplyError, Reply};
use crate::text::{
    all_in, chars_of, decimal_text, has_at, lemma_run_reaches, push_decimal, scan_run,
    slice_string, word_at, CharClass,
};
use vstd::prelude::*;

verus! {

/// A value that has a text on the wire.
pub trait Encode {
    /// The text of the value.
    spec fn text(&self) -> Seq<char>;

    /// Appends the text of the value to `out`.
    fn write_to(&self, out: &mut String)
        ensures
            final(out)@ == old(out)@ + self.text(),
    ;
}

/// The text of a value, as a string of its own.
pub fn encode<T: Encode>(value: &T) -> (r: String)
    ensures
        r@ == value.text(),
{
    let mut out = String::new();
    value.write_to(&mut out);
    assert(out@ =~= value.text());
    out
}

/// `items` put one after the other, with `sep` between each two.
pub open spec fn joined(items: Seq<Seq<char>>, sep: Seq<char>) -> Seq<char>
    decreases items.len(),
{
    if items.len() == 0 {
        Seq::empty()
    } else if items.len() == 1 {
        items[0]
    } else {
        joined(items.drop_last(), sep) + sep + items.last()
    }
}

/// `items` put one after the other.
pub open spec fn concat(items: Seq<Seq<char>>) -> Seq<char>
    decreases items.len(),
{
    if items.len() == 0 {
        Seq::empty()
    } else {
        concat(items.drop_last()) + items.last()
    }
}

/// The texts of `elems`, in order.
pub open spec fn texts<T: Encode>(elems: Seq<T>) -> Seq<Seq<char>> {
    elems.map_values(|e: T| e.text())
}

/// Appends the texts of `elems` to `out`, with `sep` between each two.
pub fn write_join<T: Encode>(out: &mut String, elems: &Vec<T>, sep: &str)
    ensures
        final(out)@ == old(out)@ + joined(texts(elems@), sep@),
{
    let mut i: usize = 0;
    assert(texts(elems@).take(0) =~= Seq::empty());
    assert(out@ =~= old(out)@ + Seq::<char>::empty());
    while i < elems.len()
        invariant
            i <= elems.len(),
            out@ == old(out)@ + joined(texts(elems@).take(i as int), sep@),
        decreases elems.len() - i,
    {
        let ghost before = out@;
        let ghost done = texts(elems@).take(i as int);
        let ghost next = texts(elems@).take(i + 1);
        proof {
            assert(next.drop_last() =~= done);
            assert(next.last() == elems@[i as int].text());
        }
        if i > 0 {
            out.append(sep);
        }
        elems[i].write_to(out);
        proof {
            if i > 0 {
                assert(out@ =~= old(out)@ + (joined(done, sep@) + sep@ + next.last()));
            } else {
                assert(joined(done, sep@) =~= Seq::<char>::empty());
                assert(out@ =~= old(out)@ + next.last());
            }
        }
        i += 1;
    }
    assert(texts(elems@).take(elems@.len() as int) =~= texts(elems@));
}

/// The kind of key that the daemon is asked to make.
#[derive(Debug, Clone, Copy, PartialEq, Eq, Structural)]
pub enum KeyType {
    Rsa1024,
    Best,
}

impl Encode for KeyType {
    open spec fn text(&self) -> Seq<char> {
        match self {
            KeyType::Rsa1024 => "RSA1024"@,
            KeyType::Best => "BEST"@,
        }
    }

    fn write_to(&self, out: &mut String) {
        match self {
            KeyType::Rsa1024 => out.append("RSA1024"),
            KeyType::Best => out.append("BEST"),
        }
    }
}

/// The key of an onion service: one that the daemon is to make, or one that
/// the caller holds.
#[derive(Debug, Clone, PartialEq, Eq)]
pub enum OnionKey {
    /// A key of the given kind, which the daemon makes: `NEW:` and the kind.
    New(KeyType),
    /// The key that the caller holds, encoded: `EXISTING:` and the key.
    Rsa1024(String),
}

impl Encode for OnionKey {
    open spec fn text(&self) -> Seq<char> {
        match self {
            OnionKey::New(key_type) => "NEW:"@ + key_type.text(),
            OnionKey::Rsa1024(key) => "EXISTING:"@ + key@,
        }
    }

    fn write_to(&self, out: &mut String) {
        match self {
            OnionKey::New(key_type) => {
                out.append("NEW:");
                key_type.write_to(out);
                assert(out@ =~= old(out)@ + self.text());
            },
            OnionKey::Rsa1024(key) => {
                out.append("EXISTING:");
                out.append(key.as_str());
                assert(out@ =~= old(out)@ + self.text());
            },
        }
    }
}

/// What a request for an onion service can ask for besides the service.
#[derive(Debug, Clone, Copy, PartialEq, Eq, Structural)]
pub enum OnionFlags {
    /// The daemon keeps the private key to itself.
    DiscardPK,
    /// The service outlives the control connection.
    Detach,
    /// Clients have to authenticate.
    BasicAuth,
}

impl Encode for OnionFlags {
    open spec fn text(&self) -> Seq<char> {
        match self {
            OnionFlags::DiscardPK => "DiscardPK"@,
            OnionFlags::Detach => "Detach"@,
            OnionFlags::BasicAuth => "BasicAuth"@,
        }
    }

    fn write_to(&self, out: &mut String) {
        match self {
            OnionFlags::DiscardPK => out.append("DiscardPK"),
            OnionFlags::Detach => out.append("Detach"),
            OnionFlags::BasicAuth => out.append("BasicAuth"),
        }
    }
}

/// A client that may reach the service, with its credential where it has one.
#[derive(Debug, Clone, PartialEq, Eq)]
pub struct OnionClientAuth {
    pub client_name: String,
    pub client_blob: Option<String>,
}

impl Encode for OnionClientAuth {
    open spec fn text(&self) -> Seq<char> {
        "ClientAuth="@ + self.client_name@ + match self.client_blob {
            Some(blob) => ":"@ + blob@,
            None => Seq::empty(),
        }
    }

    fn write_to(&self, out: &mut String) {
        out.append("ClientAuth=");
        out.append(self.client_name.as_str());
        match &self.client_blob {
            Some(blob) => {
                out.append(":");
                out.append(blob.as_str());
            },
            None => {},
        }
        assert(out@ =~= old(out)@ + self.text());
    }
}

/// The request for an onion service.
#[derive(Debug, Clone, PartialEq, Eq)]
pub struct AddOnion {
    pub key: OnionKey,
    pub flags: Vec<OnionFlags>,
    /// The ports of the service, each with the local port it leads to where
    /// that is another one.
    pub ports: Vec<(u16, Option<u16>)>,
    pub client_auths: Vec<OnionClientAuth>,
}

/// The field of one port: ` Port=` and the port, and after a comma the local
/// port where one is given.
pub open spec fn port_text(port: (u16, Option<u16>)) -> Seq<char> {
    " Port="@ + decimal_text(port.0 as nat) + match port.1 {
        Some(target) => ","@ + decimal_text(target as nat),
        None => Seq::empty(),
    }
}

/// The field of one client: a space and the text of the client.
pub open spec fn client_auth_text(auth: OnionClientAuth) -> Seq<char> {
    " "@ + auth.text()
}

impl Encode for AddOnion {
    /// `ADD_ONION`, the key, the flags separated by commas where there are
    /// any, then a field for each port and a field for each client.
    open spec fn text(&self) -> Seq<char> {
        "ADD_ONION "@ + self.key.text() + (if self.flags@.len() > 0 {
            " "@ + joined(texts(self.flags@), ","@)
        } else {
            Seq::empty()
        }) + concat(self.ports@.map_values(|p: (u16, Option<u16>)| port_text(p))) + concat(
            self.client_auths@.map_values(|a: OnionClientAuth| client_auth_text(a)),
        )
    }

    fn write_to(&self, out: &mut String) {
        out.append("ADD_ONION ");
        self.key.write_to(out);
        if self.flags.len() > 0 {
            out.append(" ");
            write_join(out, &self.flags, ",");
        }
        let ghost head = out@;
        let ghost port_texts = self.ports@.map_values(|p: (u16, Option<u16>)| port_text(p));
        let mut i: usize = 0;
        assert(port_texts.take(0) =~= Seq::empty());
        assert(out@ =~= head + Seq::<char>::empty());
        while i < self.ports.len()
            invariant
                i <= self.ports.len(),
                port_texts == self.ports@.map_values(|p: (u16, Option<u16>)| port_text(p)),
                out@ == head + concat(port_texts.take(i as int)),
            decreases self.ports.len() - i,
        {
            let ghost before = out@;
            let (port, target) = self.ports[i];
            out.append(" Port=");
            push_decimal(out, port);
            match target {
                Some(t) => {
                    out.append(",");
                    push_decimal(out, t);
                },
                None => {},
            }
            proof {
                assert(out@ =~= before + port_text(self.ports@[i as int]));
                assert(port_texts.take(i + 1).drop_last() =~= port_texts.take(i as int));
                assert(port_texts.take(i + 1).last() == port_text(self.ports@[i as int]));
                assert(out@ =~= head + (concat(port_texts.take(i as int)) + port_text(
                    self.ports@[i as int],
                )));
            }
            i += 1;
        }
        assert(port_texts.take(self.ports@.len() as int) =~= port_texts);
        let ghost middle = out@;
        let ghost auth_texts = self.client_auths@.map_values(
            |a: OnionClientAuth| client_auth_text(a),
        );
        let mut j: usize = 0;
        assert(auth_texts.take(0) =~= Seq::empty());
        assert(out@ =~= middle + Seq::<char>::empty());
        while j < self.client_auths.len()
            invariant
                j <= self.client_auths.len(),
                auth_texts == self.client_auths@.map_values(
                    |a: OnionClientAuth| client_auth_text(a),
                ),
                out@ == middle + concat(auth_texts.take(j as int)),
            decreases self.client_auths.len() - j,
        {
            let ghost before = out@;
            out.append(" ");
            self.client_auths[j].write_to(out);
            proof {
                assert(out@ =~= before + client_auth_text(self.client_auths@[j as int]));
                assert(auth_texts.take(j + 1).drop_last() =~= auth_texts.take(j as int));
                assert(auth_texts.take(j + 1).last() == client_auth_text(
                    self.client_auths@[j as int],
                ));
                assert(out@ =~= middle + (concat(auth_texts.take(j as int)) + client_auth_text(
                    self.client_auths@[j as int],
                )));
            }
            j += 1;
        }
        assert(auth_texts.take(self.client_auths@.len() as int) =~= auth_texts);
        assert(out@ =~= old(out)@ + self.text());
    }
}

/// Whether `s` names an onion service: 16 characters out of `a` to `z`, `A`
/// to `Z` and `2` to `7`.
pub open spec fn is_service_id(s: Seq<char>) -> bool {
    s.len() == 16 && all_in(s, CharClass::Base32)
}

/// The name of an onion service. Every value of this type is a name of 16
/// characters out of `a` to `z`, `A` to `Z` and `2` to `7`.
#[derive(Debug, PartialEq, Eq)]
pub struct ServiceID(String);

impl Clone for ServiceID {
    fn clone(&self) -> (r: Self)
        ensures
            r@ == self@,
    {
        proof {
            use_type_invariant(self);
        }
        ServiceID(self.0.clone())
    }
}

impl View for ServiceID {
    type V = Seq<char>;

    closed spec fn view(&self) -> Seq<char> {
        self.0@
    }
}

impl ServiceID {
    #[verifier::type_invariant]
    spec fn well_formed(&self) -> bool {
        is_service_id(self.0@)
    }

    /// The service of the name `s`, where `s` is such a name.
    pub fn new(s: String) -> (r: Option<ServiceID>)
        ensures
            r is Some <==> is_service_id(s@),
            r matches Some(id) ==> id@ == s@,
    {
        let cs = chars_of(s.as_str());
        if cs.len() != 16 {
            return None;
        }
        let end = scan_run(cs.as_slice(), 0, CharClass::Base32);
        proof {
            lemma_run_reaches(cs@, 0, 16, CharClass::Base32);
            assert(cs@.subrange(0, 16) =~= cs@);
        }
        if end == 16 {
            Some(ServiceID(s))
        } else {
            None
        }
    }

    /// The name, which is well formed.
    pub fn as_str(&self) -> (r: &str)
        ensures
            r@ == self@,
            is_service_id(self@),
    {
        proof {
            use_type_invariant(self);
        }
        self.0.as_str()
    }
}

/// What the daemon answers to a request for an onion service.
#[derive(Debug, Clone, PartialEq, Eq)]
pub struct AddOnionReply {
    pub service_id: ServiceID,
    /// The private key, where the daemon made one and was not asked to keep it.
    pub sk: Option<String>,
    /// The clients, each with the credential that the daemon gave it.
    pub client_auths: Vec<(String, String)>,
}

/// The mathematical content of an [`AddOnionReply`].
pub struct AddOnionReplyView {
    pub service_id: Seq<char>,
    pub sk: Option<Seq<char>>,
    pub client_auths: Seq<(Seq<char>, Seq<char>)>,
}

impl View for AddOnionReply {
    type V = AddOnionReplyView;

    open spec fn view(&self) -> AddOnionReplyView {
        AddOnionReplyView {
            service_id: self.service_id@,
            sk: self.sk.deep_view(),
            client_auths: self.client_auths.deep_view(),
        }
    }
}

/// The name of the service, where `line` is `ServiceID=` and such a name.
pub open spec fn service_id_of(line: Seq<char>) -> Option<Seq<char>> {
    let word = "ServiceID="@;
    if has_at(line, 0, word) && is_service_id(line.skip(word.len() as int)) {
        Some(line.skip(word.len() as int))
    } else {
        None
    }
}

/// The last position before `end` that holds `c`, or -1.
pub open spec fn last_before(s: Seq<char>, end: int, c: char) -> int
    decreases end,
{
    if end <= 0 {
        -1
    } else if s[end - 1] == c {
        end - 1
    } else {
        last_before(s, end - 1, c)
    }
}

/// The two parts of a field `word`, name, colon, value, where `line` is such
/// a field: neither part is empty or holds a space, and the value holds no
/// colon but, at most, as its last character.
pub open spec fn pair_field(line: Seq<char>, word: Seq<char>) -> Option<(Seq<char>, Seq<char>)> {
    let colon = last_before(line, line.len() - 1, ':');
    if has_at(line, 0, word) && all_in(line.skip(word.len() as int), CharClass::Except(' '))
        && colon > word.len() {
        Some((line.subrange(word.len() as int, colon), line.skip(colon + 1)))
    } else {
        None
    }
}

/// `pairs` put before what the rest of the lines gave.
pub open spec fn pairs_then(
    pairs: Seq<(Seq<char>, Seq<char>)>,
    rest: Result<Seq<(Seq<char>, Seq<char>)>, ParseReplyError>,
) -> Result<Seq<(Seq<char>, Seq<char>)>, ParseReplyError> {
    match rest {
        Ok(more) => Ok(pairs + more),
        Err(e) => Err(e),
    }
}

/// The clients that up to `count` lines from `lines[from]` on name, each as
/// `ClientAuth=`, name, colon, credential. Fewer lines give fewer clients; a
/// line of another form is an error.
pub open spec fn client_auths_from(lines: Seq<LineView>, from: int, count: int) -> Result<
    Seq<(Seq<char>, Seq<char>)>,
    ParseReplyError,
>
    decreases count,
{
    if count <= 0 || from < 0 || from >= lines.len() {
        Ok(Seq::empty())
    } else {
        match pair_field(lines[from].reply, "ClientAuth="@) {
            None => Err(ParseReplyError::RegexCapture),
            Some(pair) => pairs_then(seq![pair], client_auths_from(lines, from + 1, count - 1)),
        }
    }
}

impl AddOnion {
    /// Whether the reply is to hold the private key: the daemon makes the
    /// key and is not asked to keep it to itself.
    pub open spec fn expects_private_key(&self) -> bool {
        self.key is New && !self.flags@.contains(OnionFlags::DiscardPK)
    }

    fn private_key_expected(&self) -> (b: bool)
        ensures
            b == self.expects_private_key(),
    {
        match &self.key {
            OnionKey::New(_) => {
                let mut i: usize = 0;
                while i < self.flags.len()
                    invariant
                        i <= self.flags.len(),
                        forall|k: int| 0 <= k < i ==> self.flags@[k] != OnionFlags::DiscardPK,
                    decreases self.flags.len() - i,
                {
                    if self.flags[i] == OnionFlags::DiscardPK {
                        return false;
                    }
                    i += 1;
                }
                true
            },
            OnionKey::Rsa1024(_) => false,
        }
    }
}

/// What a reply says in answer to `request`: the first line names the
/// service; the second holds the private key where one is expected, as
/// `PrivateKey=`, kind, colon, key; the lines after that name the clients, as
/// many as `request` names at most.
pub open spec fn add_onion_reply_of(request: AddOnion, lines: Seq<LineView>) -> Result<
    AddOnionReplyView,
    ParseReplyError,
> {
    if lines.len() == 0 {
        Err(ParseReplyError::RegexCapture)
    } else {
        match service_id_of(lines[0].reply) {
            None => Err(ParseReplyError::RegexCapture),
            Some(service_id) => {
                if request.expects_private_key() {
                    if lines.len() < 2 {
                        Err(ParseReplyError::RegexCapture)
                    } else {
                        match pair_field(lines[1].reply, "PrivateKey="@) {
                            None => Err(ParseReplyError::RegexCapture),
                            Some(key) => match client_auths_from(
                                lines,
                                2,
                                request.client_auths@.len() as int,
                            ) {
                                Err(e) => Err(e),
                                Ok(client_auths) => Ok(
                                    AddOnionReplyView { service_id, sk: Some(key.1), client_auths },
                                ),
                            },
                        }
                    }
                } else {
                    match client_auths_from(lines, 1, request.client_auths@.len() as int) {
                        Err(e) => Err(e),
                        Ok(client_auths) => Ok(
                            AddOnionReplyView { service_id, sk: None, client_auths },
                        ),
                    }
                }
            },
        }
    }
}

/// Splits a field `word`, name, colon, value.
fn read_pair_field(line: &str, word: &str) -> (r: Option<(String, String)>)
    ensures
        match pair_field(line@, word@) {
            Some(pair) => r matches Some(p) && p.0@ == pair.0 && p.1@ == pair.1,
            None => r is None,
        },
{
    let cs = chars_of(line);
    let w = chars_of(word);
    let n = cs.len();
    // The last colon before the last character.
    let mut end: usize = if n == 0 {
        0
    } else {
        n - 1
    };
    while end > 0 && cs[end - 1] != ':'
        invariant
            end <= n,
            n == cs@.len(),
            last_before(cs@, n - 1, ':') == last_before(cs@, end as int, ':'),
        decreases end,
    {
        end -= 1;
    }
    if !word_at(cs.as_slice(), 0, w.as_slice()) {
        return None;
    }
    let stop = scan_run(cs.as_slice(), w.len(), CharClass::Except(' '));
    proof {
        lemma_run_reaches(cs@, w@.len() as int, n as int, CharClass::Except(' '));
        assert(cs@.subrange(w@.len() as int, n as int) =~= cs@.skip(w@.len() as int));
    }
    if stop < n {
        return None;
    }
    if end == 0 || end - 1 <= w.len() {
        return None;
    }
    let colon = end - 1;
    let name = slice_string(line, w.len(), colon);
    let value = slice_string(line, colon + 1, n);
    assert(cs@.subrange(colon + 1, n as int) =~= cs@.skip(colon + 1));
    Some((name, value))
}

impl AddOnionReply {
    /// Decodes the reply to the `ADD_ONION` command that `request` made.
    pub fn from_reply(request: &AddOnion, reply: &Reply) -> (r: Result<
        AddOnionReply,
        ParseReplyError,
    >)
        ensures
            match add_onion_reply_of(*request, reply@) {
                Ok(v) => r matches Ok(decoded) && decoded@ == v,
                Err(e) => r == Err::<AddOnionReply, ParseReplyError>(e),
            },
    {
        if reply.lines.len() == 0 {
            return Err(ParseReplyError::RegexCapture);
        }
        assert(reply@[0].reply == reply.lines[0].reply@);
        let first = reply.lines[0].reply.as_str();
        let cs = chars_of(first);
        let word = chars_of("ServiceID=");
        if !word_at(cs.as_slice(), 0, word.as_slice()) {
            return Err(ParseReplyError::RegexCapture);
        }
        let name = slice_string(first, word.len(), cs.len());
        assert(cs@.subrange(word@.len() as int, cs@.len() as int) =~= cs@.skip(word@.len() as int));
        let service_id = match ServiceID::new(name) {
            Some(id) => id,
            None => {
                return Err(ParseReplyError::RegexCapture);
            },
        };
        let mut skip: usize = 1;
        let mut sk: Option<String> = None;
        if request.private_key_expected() {
            if reply.lines.len() < 2 {
                return Err(ParseReplyError::RegexCapture);
            }
            assert(reply@[1].reply == reply.lines[1].reply@);
            match read_pair_field(reply.lines[1].reply.as_str(), "PrivateKey=") {
                None => {
                    return Err(ParseReplyError::RegexCapture);
                },
                Some(pair) => {
                    sk = Some(pair.1);
                },
            }
            skip = 2;
        }
        let count = request.client_auths.len();
        let mut client_auths: Vec<(String, String)> = Vec::new();
        let mut i: usize = 0;
        let ghost whole = client_auths_from(reply@, skip as int, count as int);
        assert(client_auths.deep_view() =~= Seq::empty());
        assert(pairs_then(client_auths.deep_view(), whole) == whole) by {
            match whole {
                Ok(more) => assert(client_auths.deep_view() + more =~= more),
                Err(_) => {},
            }
        }
        while i < count && skip + i < reply.lines.len()
            invariant
                1 <= skip <= 2,
                i <= count,
                skip + i <= reply.lines.len(),
                whole == client_auths_from(reply@, skip as int, count as int),
                add_onion_reply_of(*request, reply@) == (match whole {
                    Err(e) => Err::<AddOnionReplyView, ParseReplyError>(e),
                    Ok(auths) => Ok(
                        AddOnionReplyView {
                            service_id: service_id@,
                            sk: sk.deep_view(),
                            client_auths: auths,
                        },
                    ),
                }),
                pairs_then(
                    client_auths.deep_view(),
                    client_auths_from(reply@, skip + i, count - i),
                ) == whole,
            decreases count - i,
        {
            assert(reply@[skip + i].reply == reply.lines[skip + i].reply@);
            match read_pair_field(reply.lines[skip + i].reply.as_str(), "ClientAuth=") {
                None => {
                    assert(client_auths_from(reply@, skip + i, count - i) == Err::<
                        Seq<(Seq<char>, Seq<char>)>,
                        ParseReplyError,
                    >(ParseReplyError::RegexCapture));
                    return Err(ParseReplyError::RegexCapture);
                },
                Some(pair) => {
                    let ghost before = client_auths.deep_view();
                    let ghost p = (pair.0@, pair.1@);
                    client_auths.push(pair);
                    proof {
                        assert(client_auths.deep_view() =~= before.push(p));
                        match client_auths_from(reply@, skip + i + 1, count - i - 1) {
                            Ok(more) => assert(before + (seq![p] + more) =~= before.push(p)
                                + more),
                            Err(_) => {},
                        }
                    }
                },
            }
            i += 1;
        }
        proof {
            match whole {
                Ok(more) => assert(client_auths.deep_view() + Seq::empty()
                    =~= client_auths.deep_view()),
                Err(_) => {},
            }
        }
        Ok(AddOnionReply { service_id, sk, client_auths })
    }
}

} // verus!
