//! Identifiers: room ids, roomserver tokens and API key ids.
//!
//! Room ids and tokens are UUIDs; this crate holds them as their 128-bit
//! value and leaves their text form to `opentalk_types_common`.
use vstd::prelude::*;

use crate::text::{decimal, digit_char};

verus! {

/// A hexadecimal digit character, lower case.
pub open spec fn hex_char(d: nat) -> char {
    if d < 10 {
        digit_char(d)
    } else {
        (('a' as u32) + (d - 10)) as char
    }
}

/// The lowest `n` hexadecimal digits of `v`, most significant first.
pub open spec fn hex_fixed(v: nat, n: nat) -> Seq<char>
    decreases n,
{
    if n == 0 {
        Seq::empty()
    } else {
        hex_fixed(v / 16, (n - 1) as nat).push(hex_char(v % 16))
    }
}

/// The hyphenated lower-case form of a UUID, `8-4-4-4-12` hex digits.
pub open spec fn hyphenated(v: u128) -> Seq<char> {
    let h = hex_fixed(v as nat, 32);
    h.subrange(0, 8) + seq!['-'] + h.subrange(8, 12) + seq!['-'] + h.subrange(12, 16) + seq!['-']
        + h.subrange(16, 20) + seq!['-'] + h.subrange(20, 32)
}

/// A character that occurs in the hyphenated form of a UUID.
pub open spec fn is_uuid_char(c: char) -> bool {
    ('0' <= c && c <= '9') || ('a' <= c && c <= 'f') || c == '-'
}

pub proof fn lemma_hex_fixed_chars(v: nat, n: nat)
    ensures
        hex_fixed(v, n).len() == n,
        forall|i: int| 0 <= i < n ==> is_uuid_char(#[trigger] hex_fixed(v, n)[i]),
    decreases n,
{
    if n > 0 {
        lemma_hex_fixed_chars(v / 16, (n - 1) as nat);
        let s = hex_fixed(v, n);
        assert forall|i: int| 0 <= i < n implies is_uuid_char(#[trigger] s[i]) by {
            if i < n - 1 {
                assert(s[i] == hex_fixed(v / 16, (n - 1) as nat)[i]);
            }
        }
    }
}

/// The hyphenated form of a UUID is 36 characters of hex digits and hyphens.
pub proof fn lemma_hyphenated_chars(v: u128)
    ensures
        hyphenated(v).len() == 36,
        forall|i: int| 0 <= i < 36 ==> is_uuid_char(#[trigger] hyphenated(v)[i]),
{
    lemma_hex_fixed_chars(v as nat, 32);
    let h = hex_fixed(v as nat, 32);
    let s = hyphenated(v);
    assert forall|i: int| 0 <= i < 36 implies is_uuid_char(#[trigger] s[i]) by {
        if i < 8 {
            assert(s[i] == h[i]);
        } else if i == 8 {
        } else if i < 13 {
            assert(s[i] == h[i - 1]);
        } else if i == 13 {
        } else if i < 18 {
            assert(s[i] == h[i - 2]);
        } else if i == 18 {
        } else if i < 23 {
            assert(s[i] == h[i - 3]);
        } else if i == 23 {
        } else {
            assert(s[i] == h[i - 4]);
        }
    }
}

/// Neither a hyphenated UUID nor a decimal number contains `c` when `c` is
/// not among their characters.
pub proof fn lemma_hyphenated_has_no(v: u128, c: char)
    requires
        !is_uuid_char(c),
    ensures
        !hyphenated(v).contains(c),
{
    lemma_hyphenated_chars(v);
}

/// What `RoomId`'s `FromStr` (the UUID parser of the `uuid` crate) returns
/// for a text, as the 128-bit value of the UUID.
pub uninterp spec fn room_id_parse(text: Seq<char>) -> Option<u128>;

/// The id of a room.
#[derive(Clone, Copy, Debug, PartialEq, Eq, Hash, Structural)]
pub struct RoomId(pub u128);

impl RoomId {
    /// The all-zero room id.
    pub fn nil() -> (r: RoomId)
        ensures
            r.0 == 0,
    {
        RoomId(0)
    }

    /// The room id with the given 128-bit value.
    pub fn from_u128(v: u128) -> (r: RoomId)
        ensures
            r.0 == v,
    {
        RoomId(v)
    }

    /// The text form of this room id.
    pub fn to_text(&self) -> (s: String)
        ensures
            s@ == hyphenated(self.0),
            room_id_parse(s@) == Some(self.0),
    {
        room_id_text(self.0)
    }

    /// Parses a room id from its text form.
    pub fn parse(text: &str) -> (r: Option<RoomId>)
        ensures
            r == (match room_id_parse(text@) {
                Some(v) => Some(RoomId(v)),
                None => None,
            }),
    {
        match parse_room_id(text) {
            Some(v) => Some(RoomId(v)),
            None => None,
        }
    }
}

/// `Display` of `opentalk_types_common::rooms::RoomId`, which writes the
/// hyphenated lower-case UUID; the `uuid` crate parses that form back.
#[verifier::external_body]
fn room_id_text(v: u128) -> (s: String)
    ensures
        s@ == hyphenated(v),
        room_id_parse(s@) == Some(v),
{
    opentalk_types_common::rooms::RoomId::from_u128(v).to_string()
}

/// `FromStr` of `opentalk_types_common::rooms::RoomId`; its result is named
/// `room_id_parse`, and the error is dropped.
#[verifier::external_body]
fn parse_room_id(text: &str) -> (r: Option<u128>)
    ensures
        r == room_id_parse(text@),
{
    match text.parse::<opentalk_types_common::rooms::RoomId>() {
        Ok(id) => Some(uuid::Uuid::from(id).as_u128()),
        Err(_) => None,
    }
}

/// What `uuid::Uuid::parse_str` returns for a text, as the 128-bit value
/// of the UUID.
pub uninterp spec fn uuid_parse(text: Seq<char>) -> Option<u128>;

/// `uuid::Uuid::parse_str`; its result is named `uuid_parse`, and the
/// error is dropped.
#[verifier::external_body]
pub(crate) fn parse_uuid(text: &str) -> (r: Option<u128>)
    ensures
        r == uuid_parse(text@),
{
    match uuid::Uuid::parse_str(text) {
        Ok(id) => Some(id.as_u128()),
        Err(_) => None,
    }
}

/// `Display` of `uuid::Uuid`, which writes the hyphenated lower-case form;
/// `uuid::Uuid::parse_str` reads that form back.
#[verifier::external_body]
pub(crate) fn uuid_text(v: u128) -> (s: String)
    ensures
        s@ == hyphenated(v),
        uuid_parse(s@) == Some(v),
{
    uuid::Uuid::from_u128(v).to_string()
}

/// The token that admits a client to a roomserver signaling session.
#[derive(Clone, Copy, Debug, PartialEq, Eq, Hash, Structural)]
pub struct Token(pub u128);

impl Token {
    /// The token with the given 128-bit value.
    pub fn from_u128(v: u128) -> (r: Token)
        ensures
            r.0 == v,
    {
        Token(v)
    }

    /// Parses a token from its text form, as the UUID parser reads it.
    pub fn parse(text: &str) -> (r: Option<Token>)
        ensures
            r == (match uuid_parse(text@) {
                Some(v) => Some(Token(v)),
                None => None,
            }),
    {
        match parse_uuid(text) {
            Some(v) => Some(Token(v)),
            None => None,
        }
    }

    /// The text form of this token.
    pub fn to_text(&self) -> (s: String)
        ensures
            s@ == hyphenated(self.0),
    {
        token_text(self.0)
    }
}

/// `Display` of `opentalk_types_common::roomserver::Token`, which writes the
/// hyphenated lower-case UUID.
#[verifier::external_body]
fn token_text(v: u128) -> (s: String)
    ensures
        s@ == hyphenated(v),
{
    opentalk_types_common::roomserver::Token::from_u128(v).to_string()
}

/// The identifier of an API key.
#[derive(Clone, Debug, PartialEq, Eq, Hash)]
pub struct ApiKeyId(pub String);

impl View for ApiKeyId {
    type V = Seq<char>;

    open spec fn view(&self) -> Seq<char> {
        self.0@
    }
}

impl ApiKeyId {
    /// An API key id from its text.
    pub fn from_text(s: &str) -> (r: ApiKeyId)
        ensures
            r@ == s@,
    {
        ApiKeyId(s.to_owned())
    }

    /// A copy of this id.
    pub fn duplicate(&self) -> (r: ApiKeyId)
        ensures
            r@ == self@,
    {
        ApiKeyId(self.0.clone())
    }

    /// Whether two ids are the same.
    pub fn same(&self, other: &ApiKeyId) -> (r: bool)
        ensures
            r == (self@ == other@),
    {
        self.0 == other.0
    }
}

/// The views of a list of API key ids.
pub open spec fn key_ids_view(ids: Seq<ApiKeyId>) -> Seq<Seq<char>> {
    ids.map_values(|k: ApiKeyId| k@)
}

/// A copy of a list of API key ids.
pub fn duplicate_key_ids(ids: &Vec<ApiKeyId>) -> (r: Vec<ApiKeyId>)
    ensures
        key_ids_view(r@) == key_ids_view(ids@),
{
    let mut r: Vec<ApiKeyId> = Vec::new();
    let mut i: usize = 0;
    while i < ids.len()
        invariant
            i <= ids.len(),
            r.len() == i,
            forall|j: int| 0 <= j < i ==> r@[j]@ == ids@[j]@,
        decreases ids.len() - i,
    {
        r.push(ids[i].duplicate());
        i = i + 1;
    }
    assert(key_ids_view(r@) =~= key_ids_view(ids@));
    r
}

/// An API key: its id and its secret.
#[derive(Clone, Debug, PartialEq, Eq)]
pub struct ApiKey {
    pub id: ApiKeyId,
    pub secret: String,
}

impl ApiKey {
    /// An API key from its id and secret.
    pub fn new(id: &str, secret: &str) -> (r: ApiKey)
        ensures
            r.id@ == id@,
            r.secret@ == secret@,
    {
        ApiKey { id: ApiKeyId::from_text(id), secret: secret.to_owned() }
    }

    /// A copy of this key.
    pub fn duplicate(&self) -> (r: ApiKey)
        ensures
            r.id@ == self.id@,
            r.secret@ == self.secret@,
    {
        ApiKey { id: self.id.duplicate(), secret: self.secret.clone() }
    }
}

/// The failure to build a JSON web token from an API key.
#[derive(Clone, Debug, PartialEq, Eq)]
pub struct EncodingError {
    pub message: String,
}

/// The key id (`kid`) in the header of a JSON web token, as
/// `jsonwebtoken::decode_header` reads it from the token's text; `None`
/// where the header cannot be read or holds no key id.
pub uninterp spec fn jwt_key_id(token: Seq<char>) -> Option<Seq<char>>;

/// Whether the HS256 signature of a JSON web token verifies with the key
/// made of the bytes of `secret` (`jsonwebtoken::DecodingKey::from_secret`),
/// as `jsonwebtoken` checks it.
pub uninterp spec fn jwt_signed_with(token: Seq<char>, secret: Seq<char>) -> bool;

/// The token names the key's id in its header and is signed with the
/// key's secret.
pub open spec fn made_with_key(token: Seq<char>, key: ApiKey) -> bool {
    jwt_key_id(token) == Some(key.id@) && jwt_signed_with(token, key.secret@)
}

/// `ApiKey::generate_jwt` of `opentalk_service_auth`. Its source sets the
/// header's `kid` to the key's id and signs the token with HS256 and the
/// bytes of the key's secret (`jsonwebtoken::encode`); the time of issue
/// and a random nonce are in it too, so its text is not stated.
#[verifier::external_body]
pub(crate) fn generate_jwt(key: &ApiKey) -> (r: Result<String, EncodingError>)
    ensures
        r matches Ok(t) ==> jwt_key_id(t@) == Some(key.id@) && jwt_signed_with(t@, key.secret@),
{
    match opentalk_service_auth::ApiKey::new(key.id.0.clone(), key.secret.clone()).generate_jwt() {
        Ok(jwt) => Ok(jwt),
        Err(e) => Err(EncodingError { message: e.to_string() }),
    }
}

/// The decimal text of a breakout room number never holds a hyphenated
/// UUID separator, and neither holds a colon.
pub proof fn lemma_no_colon(v: u128, n: nat)
    ensures
        !hyphenated(v).contains(':'),
        !decimal(n).contains(':'),
{
    lemma_hyphenated_has_no(v, ':');
    crate::text::lemma_decimal_has_no(n, ':');
}

} // verus!
