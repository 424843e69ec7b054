//! Token caching in the system keyring.
//!
//! A token is stored as a JSON object with the fields `access_token`,
//! `expiration_date` (RFC 3339) and `login`, the record format that every
//! ghtkn tool reads and writes.  The storage itself is a [`KeyringBackend`]; JSON text and
//! date text are read and written by serde_json and chrono.

use vstd::prelude::*;

use crate::error::{Error, ErrorView};
use crate::json_keys::{
    find_repeated_field, json_string_literal, key_value, key_values, lemma_plain_key, lemma_scan_push,
    lemma_scan_run_append, lemma_string_value, object_keys, repeated_field, scan_run, scan_start, ScanMode,
};
use crate::time::Timestamp;

verus! {

/// The service key under which tokens are stored in the system keyring.
pub const DEFAULT_SERVICE_KEY: &'static str = "github.com/suzuki-shunsuke/ghtkn";

/// A cached GitHub access token with the login it belongs to.
#[derive(Debug, Clone, PartialEq, Eq)]
pub struct AccessToken {
    pub access_token: String,
    pub expiration_date: Timestamp,
    pub login: String,
}

/// The mathematical value of an [`AccessToken`].
pub struct AccessTokenView {
    pub access_token: Seq<char>,
    pub expiration_date: Timestamp,
    pub login: Seq<char>,
}

impl View for AccessToken {
    type V = AccessTokenView;

    open spec fn view(&self) -> AccessTokenView {
        AccessTokenView {
            access_token: self.access_token@,
            expiration_date: self.expiration_date,
            login: self.login@,
        }
    }
}

/// Storage of passwords by service and user, such as the system keyring.
///
/// Each implementation says, through `answers` and `stores`, which outcomes
/// it may give to a lookup or a write of a given service and user; what a
/// backend remembers between calls is its own affair.
pub trait KeyringBackend: Send + Sync {
    /// Whether `r` is an answer this backend may give when asked for the
    /// password of `service` and `user`; any answer, unless an
    /// implementation says more.
    open spec fn answers(&self, service: Seq<char>, user: Seq<char>, r: Result<Option<String>, Error>) -> bool {
        true
    }

    /// Whether `r` is an outcome this backend may give when asked to store
    /// `password` for `service` and `user`; any outcome, unless an
    /// implementation says more.
    open spec fn stores(&self, service: Seq<char>, user: Seq<char>, password: Seq<char>, r: Result<(), Error>) -> bool {
        true
    }

    /// The password stored for `service` and `user`: `Ok(None)` when there is
    /// no entry, `Err` on a real failure.
    fn get(&self, service: &str, user: &str) -> (r: Result<Option<String>, Error>)
        ensures
            self.answers(service@, user@, r),
    ;

    /// Store `password` for `service` and `user`.
    fn set(&self, service: &str, user: &str, password: &str) -> (r: Result<(), Error>)
        ensures
            self.stores(service@, user@, password@, r),
    ;
}

// ---------------------------------------------------------------------------
// JSON documents as plain values
// ---------------------------------------------------------------------------

/// A JSON value inside a document, as far as the record format reads it.
#[derive(Debug)]
pub enum JsonField {
    Text(String),
    NotText,
}

/// The mathematical value of a [`JsonField`].
pub enum JsonFieldView {
    Text(Seq<char>),
    NotText,
}

impl View for JsonField {
    type V = JsonFieldView;

    open spec fn view(&self) -> JsonFieldView {
        match self {
            JsonField::Text(s) => JsonFieldView::Text(s@),
            JsonField::NotText => JsonFieldView::NotText,
        }
    }
}

/// A parsed JSON document, as far as the record format reads it: an object
/// (its members in the order serde_json's map yields them), an array, or
/// anything else.
#[derive(Debug)]
pub enum JsonDoc {
    Object(Vec<(String, JsonField)>),
    Array(Vec<JsonField>),
    Other,
}

/// The mathematical value of a [`JsonDoc`].
pub enum JsonDocView {
    Object(Seq<(Seq<char>, JsonFieldView)>),
    Array(Seq<JsonFieldView>),
    Other,
}

impl View for JsonDoc {
    type V = JsonDocView;

    open spec fn view(&self) -> JsonDocView {
        match self {
            JsonDoc::Object(m) => JsonDocView::Object(
                m@.map_values(|p: (String, JsonField)| (p.0@, p.1@)),
            ),
            JsonDoc::Array(a) => JsonDocView::Array(a@.map_values(|f: JsonField| f@)),
            JsonDoc::Other => JsonDocView::Other,
        }
    }
}

/// What `serde_json::from_str::<serde_json::Value>` makes of `text`, in plain
/// values, or the text of its error.
pub uninterp spec fn spec_parse_json(text: Seq<char>) -> Result<JsonDocView, Seq<char>>;

/// What chrono makes of an RFC 3339 date text when reading it as a
/// `DateTime<Utc>`: the timestamp, or the text of its error.
pub uninterp spec fn spec_parse_rfc3339(text: Seq<char>) -> Result<(i64, u32), Seq<char>>;

/// What `DateTime::<Utc>::to_rfc3339_opts(SecondsFormat::AutoSi, true)` writes
/// for a timestamp, when chrono can represent it.
pub uninterp spec fn spec_format_rfc3339(secs: i64, nanos: u32) -> Option<Seq<char>>;

/// The text of a token record whose three fields are already JSON literals.
pub open spec fn token_frame(a: Seq<char>, d: Seq<char>, l: Seq<char>) -> Seq<char> {
    "{\"access_token\":"@ + a + ",\"expiration_date\":"@ + d + ",\"login\":"@ + l + "}"@
}

/// The members of a token record, in the order serde_json's map yields them.
pub open spec fn record_members(a: Seq<char>, d: Seq<char>, l: Seq<char>) -> Seq<(Seq<char>, JsonFieldView)> {
    seq![
        ("access_token"@, JsonFieldView::Text(a)),
        ("expiration_date"@, JsonFieldView::Text(d)),
        ("login"@, JsonFieldView::Text(l)),
    ]
}

/// A successful JSON reading.
pub open spec fn parsed_doc(d: JsonDocView) -> Result<JsonDocView, Seq<char>> {
    Ok(d)
}

/// A failed JSON reading with its message.
pub open spec fn parse_failure(m: Seq<char>) -> Result<JsonDocView, Seq<char>> {
    Err(m)
}

/// A successful date reading.
pub open spec fn parsed_date(p: (i64, u32)) -> Result<(i64, u32), Seq<char>> {
    Ok(p)
}

/// A failed date reading with its message.
pub open spec fn date_failure(m: Seq<char>) -> Result<(i64, u32), Seq<char>> {
    Err(m)
}

/// Timestamps that chrono writes with a four-digit year (years 0 to 9999) and
/// outside a leap second.
pub open spec fn is_plain_date(t: Timestamp) -> bool {
    -62_167_219_200 <= t.secs <= 253_402_300_799 && t.is_regular()
}

/// `serde_json::from_str::<serde_json::Value>`, with objects and arrays
/// reduced to their string members.  Trusted: the result is a function of the
/// text, and a token record built from serde_json's own string literals reads
/// back as those strings, in key order (serde_json's map is ordered by key).
#[verifier::external_body]
fn parse_json(text: &str) -> (r: Result<JsonDoc, String>)
    ensures
        r matches Ok(d) ==> spec_parse_json(text@) == parsed_doc(d@),
        r matches Err(m) ==> spec_parse_json(text@) == parse_failure(m@),
{
    let text_field = |v: serde_json::Value| match v {
        serde_json::Value::String(s) => JsonField::Text(s),
        _ => JsonField::NotText,
    };
    match serde_json::from_str::<serde_json::Value>(text) {
        Ok(serde_json::Value::Object(m)) => Ok(JsonDoc::Object(m.into_iter().map(|(k, v)| (k, text_field(v))).collect())),
        Ok(serde_json::Value::Array(a)) => Ok(JsonDoc::Array(a.into_iter().map(text_field).collect())),
        Ok(_) => Ok(JsonDoc::Other),
        Err(e) => Err(e.to_string()),
    }
}

/// `serde_json::to_string` of a string: its JSON literal.  Trusted: the
/// literal is the one [`json_string_literal`] spells out (serde_json's escape
/// table), and serde_json reads a token record whose `access_token` is this
/// literal back with that string.
#[verifier::external_body]
fn json_quote(s: &str) -> (r: String)
    ensures
        r@ == json_string_literal(s@),
        forall|d: Seq<char>, l: Seq<char>|
            #[trigger] spec_parse_json(token_frame(r@, json_string_literal(d), json_string_literal(l)))
                == parsed_doc(JsonDocView::Object(record_members(s@, d, l))),
{
    serde_json::to_string(s).unwrap_or_default()
}

/// chrono's reading of a date: `text.parse::<DateTime<FixedOffset>>()`
/// converted to UTC, the way `DateTime<Utc>` deserializes.
#[verifier::external_body]
fn parse_rfc3339(text: &str) -> (r: Result<Timestamp, String>)
    ensures
        r matches Ok(t) ==> spec_parse_rfc3339(text@) == parsed_date((t.secs, t.nanos)),
        r matches Err(m) ==> spec_parse_rfc3339(text@) == date_failure(m@),
{
    match text.parse::<chrono::DateTime<chrono::FixedOffset>>() {
        Ok(d) => Ok(Timestamp { secs: d.timestamp(), nanos: d.timestamp_subsec_nanos() }),
        Err(e) => Err(e.to_string()),
    }
}

/// chrono's writing of a date as a `DateTime<Utc>` serializes:
/// `to_rfc3339_opts(SecondsFormat::AutoSi, true)`, or `None` where
/// `DateTime::from_timestamp` cannot represent the timestamp.  Trusted: a
/// date in years 0 to 9999 outside a leap second is always written, and
/// chrono reads every text it writes back as the same timestamp (years
/// outside 0 to 9999 carry a sign, a leap second is written as second 60).
#[verifier::external_body]
fn format_rfc3339(t: Timestamp) -> (r: Option<String>)
    ensures
        r matches Some(s) ==> spec_format_rfc3339(t.secs, t.nanos) == Some(s@),
        r is None ==> spec_format_rfc3339(t.secs, t.nanos) is None,
        r matches Some(s) ==> spec_parse_rfc3339(s@) == parsed_date((t.secs, t.nanos)),
        r is None ==> !is_plain_date(t),
{
    let d = chrono::DateTime::from_timestamp(t.secs, t.nanos)?;
    Some(d.to_rfc3339_opts(chrono::SecondsFormat::AutoSi, true))
}


// ---------------------------------------------------------------------------
// The token record format
// ---------------------------------------------------------------------------

/// The value of the first member named `key`, if any.
pub open spec fn member_of(members: Seq<(Seq<char>, JsonFieldView)>, key: Seq<char>) -> Option<JsonFieldView>
    decreases members.len(),
{
    if members.len() == 0 {
        None
    } else if members[0].0 == key {
        Some(members[0].1)
    } else {
        member_of(members.drop_first(), key)
    }
}

/// The string member named `key`, or why there is none.
pub open spec fn text_member(members: Seq<(Seq<char>, JsonFieldView)>, key: Seq<char>) -> Result<Seq<char>, Seq<char>> {
    match member_of(members, key) {
        Some(JsonFieldView::Text(t)) => Ok(t),
        Some(JsonFieldView::NotText) => Err("invalid type: expected a string for field `"@ + key + "`"@),
        None => Err("missing field `"@ + key + "`"@),
    }
}

/// The three string fields of a token record (`access_token`,
/// `expiration_date`, `login`): the members of an object, or the elements of
/// an array of exactly three, in that order.  An object that repeats one of
/// the fields (`repeated`, read from its text) is no token record.
pub open spec fn record_fields(doc: JsonDocView, repeated: Option<Seq<char>>) -> Result<(Seq<char>, Seq<char>, Seq<char>), Seq<char>> {
    match doc {
        JsonDocView::Object(m) => match repeated {
            Some(k) => Err("duplicate field `"@ + k + "`"@),
            None => match text_member(m, "access_token"@) {
                Err(e) => Err(e),
                Ok(a) => match text_member(m, "expiration_date"@) {
                    Err(e) => Err(e),
                    Ok(d) => match text_member(m, "login"@) {
                        Err(e) => Err(e),
                        Ok(l) => Ok((a, d, l)),
                    },
                },
            },
        },
        JsonDocView::Array(items) => if items.len() != 3 {
            Err("invalid length: expected an array of 3 elements"@)
        } else {
            match (items[0], items[1], items[2]) {
                (JsonFieldView::Text(a), JsonFieldView::Text(d), JsonFieldView::Text(l)) => Ok((a, d, l)),
                _ => Err("invalid type: expected a string"@),
            }
        },
        JsonDocView::Other => Err("invalid type: expected struct AccessToken"@),
    }
}

/// The checks on a decoded token, in order: a non-empty access token, a
/// non-empty login, and an expiration date other than the Unix epoch (the
/// zero value of a date).
pub open spec fn check_token(t: AccessTokenView) -> Result<AccessTokenView, Seq<char>> {
    if t.access_token.len() == 0 {
        Err("access_token is required"@)
    } else if t.login.len() == 0 {
        Err("login is required"@)
    } else if t.expiration_date == Timestamp::spec_epoch() {
        Err("expiration_date is required"@)
    } else {
        Ok(t)
    }
}

/// Reading accepts a decoded token exactly when its access token and login
/// are non-empty and its expiration date is not the Unix epoch (the zero
/// date), and it then gives the token unchanged: no other property of a
/// token (its length, its form) decides.
pub proof fn lemma_check_token_accepts(t: AccessTokenView)
    ensures
        check_token(t) is Ok <==> (t.access_token.len() > 0 && t.login.len() > 0 && !(t.expiration_date.secs
            == 0 && t.expiration_date.nanos == 0)),
        check_token(t) matches Ok(x) ==> x == t,
{
}

/// The prefix of every decoding error.
pub open spec fn decode_error(m: Seq<char>) -> Seq<char> {
    "decode keyring value as JSON: "@ + m
}

/// The token a stored record holds, or the message of the keyring error that
/// reading it reports.
pub open spec fn token_from_json(text: Seq<char>) -> Result<AccessTokenView, Seq<char>> {
    match spec_parse_json(text) {
        Err(m) => Err(decode_error(m)),
        Ok(doc) => match record_fields(doc, repeated_field(text)) {
            Err(m) => Err(decode_error(m)),
            Ok((a, d, l)) => match spec_parse_rfc3339(d) {
                Err(m) => Err(decode_error(m)),
                Ok((secs, nanos)) => check_token(
                    AccessTokenView {
                        access_token: a,
                        expiration_date: Timestamp { secs, nanos },
                        login: l,
                    },
                ),
            },
        },
    }
}

/// The record text stored for a token, when chrono can write its date.
pub open spec fn token_to_json(t: AccessTokenView) -> Option<Seq<char>> {
    match spec_format_rfc3339(t.expiration_date.secs, t.expiration_date.nanos) {
        Some(d) => Some(
            token_frame(json_string_literal(t.access_token), json_string_literal(d), json_string_literal(t.login)),
        ),
        None => None,
    }
}

/// A token that reading a record accepts, with a date that chrono can write
/// (every date a `DateTime<Utc>` can hold).
pub open spec fn is_storable(t: AccessTokenView) -> bool {
    &&& check_token(t) is Ok
    &&& token_to_json(t) is Some
}

/// `r` holds the token `t`.
pub open spec fn token_is(r: Result<AccessToken, Error>, t: AccessTokenView) -> bool {
    r matches Ok(x) && x@ == t
}

/// `r` is the keyring error with message `m`.
pub open spec fn keyring_error_is<T>(r: Result<T, Error>, m: Seq<char>) -> bool {
    r matches Err(e) && e@ == ErrorView::Keyring(m)
}

/// The string member named `key` among `members`.
fn find_text_member(members: &Vec<(String, JsonField)>, key: &str) -> (r: Result<String, String>)
    ensures
        match text_member(members@.map_values(|p: (String, JsonField)| (p.0@, p.1@)), key@) {
            Ok(t) => r matches Ok(s) && s@ == t,
            Err(m) => r matches Err(s) && s@ == m,
        },
{
    let ghost all = members@.map_values(|p: (String, JsonField)| (p.0@, p.1@));
    let key_s = key.to_owned();
    let n = members.len();
    assert(all.subrange(0, n as int) =~= all);
    let mut i: usize = 0;
    while i < n
        invariant
            n == members.len(),
            all == members@.map_values(|p: (String, JsonField)| (p.0@, p.1@)),
            i <= n,
            key_s@ == key@,
            member_of(all, key@) == member_of(all.subrange(i as int, n as int), key@),
        decreases n - i,
    {
        let ghost rest = all.subrange(i as int, n as int);
        assert(rest[0] == all[i as int]);
        assert(rest.drop_first() == all.subrange(i + 1, n as int));
        if members[i].0 == key_s {
            return match &members[i].1 {
                JsonField::Text(t) => Ok(t.clone()),
                JsonField::NotText => Err(
                    "invalid type: expected a string for field `".to_owned().concat(key).concat("`"),
                ),
            };
        }
        i += 1;
    }
    assert(all.subrange(n as int, n as int).len() == 0);
    Err("missing field `".to_owned().concat(key).concat("`"))
}

/// The three string fields of a token record parsed from `text`.
fn record_fields_of(doc: &JsonDoc, text: &str) -> (r: Result<(String, String, String), String>)
    ensures
        match record_fields(doc@, repeated_field(text@)) {
            Ok((a, d, l)) => r matches Ok((x, y, z)) && x@ == a && y@ == d && z@ == l,
            Err(m) => r matches Err(s) && s@ == m,
        },
{
    match doc {
        JsonDoc::Object(m) => {
            if let Some(k) = find_repeated_field(text) {
                return Err("duplicate field `".to_owned().concat(k.as_str()).concat("`"));
            }
            let a = find_text_member(m, "access_token")?;
            let d = find_text_member(m, "expiration_date")?;
            let l = find_text_member(m, "login")?;
            Ok((a, d, l))
        },
        JsonDoc::Array(items) => {
            if items.len() != 3 {
                return Err("invalid length: expected an array of 3 elements".to_owned());
            }
            assert(doc@ matches JsonDocView::Array(v) && v[0] == items@[0]@ && v[1] == items@[1]@
                && v[2] == items@[2]@);
            match (&items[0], &items[1], &items[2]) {
                (JsonField::Text(a), JsonField::Text(d), JsonField::Text(l)) => Ok(
                    (a.clone(), d.clone(), l.clone()),
                ),
                _ => Err("invalid type: expected a string".to_owned()),
            }
        },
        JsonDoc::Other => Err("invalid type: expected struct AccessToken".to_owned()),
    }
}

/// Check a decoded token: non-empty access token, non-empty login, and an
/// expiration date other than the zero date.
pub fn check_token_fields(token: AccessToken) -> (r: Result<AccessToken, Error>)
    ensures
        match check_token(token@) {
            Ok(t) => token_is(r, t),
            Err(m) => keyring_error_is(r, m),
        },
{
    if token.access_token.as_str().is_empty() {
        return Err(Error::Keyring("access_token is required".to_owned()));
    }
    if token.login.as_str().is_empty() {
        return Err(Error::Keyring("login is required".to_owned()));
    }
    if token.expiration_date.is_epoch() {
        return Err(Error::Keyring("expiration_date is required".to_owned()));
    }
    Ok(token)
}

/// Read a stored token record: decode the JSON object (or three-element
/// array) with the fields `access_token`, `expiration_date` and `login`, then
/// check the token with [`check_token_fields`].  The JSON text is read by
/// serde_json as a `Value`; since its objects keep one value per key, a
/// repeated field is found by reading the member names from the text
/// ([`crate::json_keys`]) and is rejected.  The messages for a repeated,
/// missing or mistyped field are this module's own.
pub fn decode_token_record(json: &str) -> (r: Result<AccessToken, Error>)
    ensures
        match token_from_json(json@) {
            Ok(t) => token_is(r, t),
            Err(m) => keyring_error_is(r, m),
        },
{
    let doc = match parse_json(json) {
        Ok(d) => d,
        Err(m) => return Err(Error::Keyring("decode keyring value as JSON: ".to_owned().concat(m.as_str()))),
    };
    let (a, d, l) = match record_fields_of(&doc, json) {
        Ok(f) => f,
        Err(m) => return Err(Error::Keyring("decode keyring value as JSON: ".to_owned().concat(m.as_str()))),
    };
    let date = match parse_rfc3339(d.as_str()) {
        Ok(t) => t,
        Err(m) => return Err(Error::Keyring("decode keyring value as JSON: ".to_owned().concat(m.as_str()))),
    };
    check_token_fields(AccessToken { access_token: a, expiration_date: date, login: l })
}

/// Write a token as a record: the JSON object
/// `{"access_token":…,"expiration_date":…,"login":…}` with the date in
/// RFC 3339.  Reading the record back gives the token checked as reading
/// checks it: the token itself whenever reading accepts it.
pub fn encode_token_record(token: &AccessToken) -> (r: Result<String, Error>)
    ensures
        match token_to_json(token@) {
            Some(text) => r matches Ok(s) && s@ == text,
            None => keyring_error_is(r, "encode token as JSON: date out of range"@),
        },
        r matches Ok(s) ==> token_from_json(s@) == check_token(token@),
        is_storable(token@) ==> (r matches Ok(s) && token_from_json(s@) == Ok::<AccessTokenView, Seq<char>>(token@)),
{
    let date = match format_rfc3339(token.expiration_date) {
        Some(d) => d,
        None => return Err(Error::Keyring("encode token as JSON: date out of range".to_owned())),
    };
    let a = json_quote(token.access_token.as_str());
    let d = json_quote(date.as_str());
    let l = json_quote(token.login.as_str());
    let text = "{\"access_token\":".to_owned().concat(a.as_str()).concat(",\"expiration_date\":").concat(
        d.as_str(),
    ).concat(",\"login\":").concat(l.as_str()).concat("}");
    assert(text@ == token_frame(a@, d@, l@));
    proof {
        {
            lemma_record_frame_keys(token.access_token@, date@, token.login@);
            let members = record_members(token.access_token@, date@, token.login@);
            assert(spec_parse_json(text@) == parsed_doc(JsonDocView::Object(members)));
            reveal_strlit("access_token");
            reveal_strlit("expiration_date");
            reveal_strlit("login");
            reveal_with_fuel(member_of, 4);
            assert(members.drop_first()[0] == members[1]);
            assert(members.drop_first().drop_first()[0] == members[2]);
            assert("access_token"@[0] != "expiration_date"@[0]);
            assert("access_token"@[0] != "login"@[0]);
            assert("expiration_date"@[0] != "login"@[0]);
            assert(text_member(members, "access_token"@) == Ok::<Seq<char>, Seq<char>>(token.access_token@));
            assert(text_member(members, "expiration_date"@) == Ok::<Seq<char>, Seq<char>>(date@));
            assert(text_member(members, "login"@) == Ok::<Seq<char>, Seq<char>>(token.login@));
            assert(spec_parse_rfc3339(date@) == parsed_date((token.expiration_date.secs, token.expiration_date.nanos)));
        }
    }
    Ok(text)
}


/// Single characters of the record frame, scanned one at a time.
proof fn lemma_scan_one(s: crate::json_keys::KeyScan, c: char)
    ensures
        scan_run(s, seq![c]) == crate::json_keys::scan_step(s, c),
{
    assert(seq![c] =~= Seq::<char>::empty().push(c));
    lemma_scan_push(s, Seq::<char>::empty(), c);
}

/// A record written from three strings names each field once: its member
/// names are `access_token`, `expiration_date` and `login`, in that order.
pub proof fn lemma_record_frame_keys(x: Seq<char>, y: Seq<char>, z: Seq<char>)
    ensures
        object_keys(token_frame(json_string_literal(x), json_string_literal(y), json_string_literal(z)))
            == seq!["access_token"@, "expiration_date"@, "login"@],
        repeated_field(token_frame(json_string_literal(x), json_string_literal(y), json_string_literal(z)))
            is None,
{
    reveal_strlit("{\"access_token\":");
    reveal_strlit(",\"expiration_date\":");
    reveal_strlit(",\"login\":");
    reveal_strlit("}");
    reveal_strlit("access_token");
    reveal_strlit("expiration_date");
    reveal_strlit("login");
    let a = json_string_literal(x);
    let d = json_string_literal(y);
    let l = json_string_literal(z);
    let q = seq!['"'];
    let k1 = "access_token"@;
    let k2 = "expiration_date"@;
    let k3 = "login"@;
    assert(!k1.contains('"') && !k1.contains('\\'));
    assert(!k2.contains('"') && !k2.contains('\\'));
    assert(!k3.contains('"') && !k3.contains('\\'));
    let n1 = q + k1 + q;
    let n2 = q + k2 + q;
    let n3 = q + k3 + q;
    assert("{\"access_token\":"@ =~= seq!['{'] + n1 + seq![':']);
    assert(",\"expiration_date\":"@ =~= seq![','] + n2 + seq![':']);
    assert(",\"login\":"@ =~= seq![','] + n3 + seq![':']);
    assert("}"@ =~= seq!['}']);
    let p1 = seq!['{'];
    let p2 = p1 + n1;
    let p3 = p2 + seq![':'];
    let p4 = p3 + a;
    let p5 = p4 + seq![','];
    let p6 = p5 + n2;
    let p7 = p6 + seq![':'];
    let p8 = p7 + d;
    let p9 = p8 + seq![','];
    let p10 = p9 + n3;
    let p11 = p10 + seq![':'];
    let p12 = p11 + l;
    let p13 = p12 + seq!['}'];
    let text = token_frame(a, d, l);
    assert(text =~= p13);
    let s0 = scan_start();
    lemma_scan_one(s0, '{');
    let s1 = scan_run(s0, p1);
    lemma_plain_key(s1, k1);
    lemma_scan_run_append(s0, p1, n1);
    let s2 = scan_run(s0, p2);
    lemma_scan_one(s2, ':');
    lemma_scan_run_append(s0, p2, seq![':']);
    let s3 = scan_run(s0, p3);
    lemma_string_value(s3, x);
    lemma_scan_run_append(s0, p3, a);
    let s4 = scan_run(s0, p4);
    lemma_scan_one(s4, ',');
    lemma_scan_run_append(s0, p4, seq![',']);
    let s5 = scan_run(s0, p5);
    lemma_plain_key(s5, k2);
    lemma_scan_run_append(s0, p5, n2);
    let s6 = scan_run(s0, p6);
    lemma_scan_one(s6, ':');
    lemma_scan_run_append(s0, p6, seq![':']);
    let s7 = scan_run(s0, p7);
    lemma_string_value(s7, y);
    lemma_scan_run_append(s0, p7, d);
    let s8 = scan_run(s0, p8);
    lemma_scan_one(s8, ',');
    lemma_scan_run_append(s0, p8, seq![',']);
    let s9 = scan_run(s0, p9);
    lemma_plain_key(s9, k3);
    lemma_scan_run_append(s0, p9, n3);
    let s10 = scan_run(s0, p10);
    lemma_scan_one(s10, ':');
    lemma_scan_run_append(s0, p10, seq![':']);
    let s11 = scan_run(s0, p11);
    lemma_string_value(s11, z);
    lemma_scan_run_append(s0, p11, l);
    let s12 = scan_run(s0, p12);
    lemma_scan_one(s12, '}');
    lemma_scan_run_append(s0, p12, seq!['}']);
    let keys = object_keys(text);
    assert(keys =~= seq![k1, k2, k3]);
    let vals = key_values(text);
    assert(vals[0] == Some(k1));
    assert(vals[1] == Some(k2));
    assert(vals[2] == Some(k3));
    assert(k1.len() != k2.len() && k1.len() != k3.len() && k2.len() != k3.len());
    assert(!crate::json_keys::repeated_at(vals, 0));
    assert(!crate::json_keys::repeated_at(vals, 1)) by {
        assert forall|i: int| 0 <= i < 1 implies #[trigger] vals[i] != vals[1] by {}
    }
    assert(!crate::json_keys::repeated_at(vals, 2)) by {
        assert forall|i: int| 0 <= i < 2 implies #[trigger] vals[i] != vals[2] by {
            if i == 0 {
            } else {
            }
        }
    }
    reveal_with_fuel(crate::json_keys::first_repeated, 4);
}

// ---------------------------------------------------------------------------
// The keyring
// ---------------------------------------------------------------------------

/// `r` is what reading a token gives when the backend answered `raw`.
pub open spec fn lookup_outcome(raw: Result<Option<String>, Error>, r: Result<Option<AccessToken>, Error>) -> bool {
    match raw {
        Err(e) => r matches Err(x) && x == e,
        Ok(None) => r matches Ok(None),
        Ok(Some(json)) => match token_from_json(json@) {
            Ok(t) => r matches Ok(Some(x)) && x@ == t,
            Err(m) => keyring_error_is(r, m),
        },
    }
}

/// What reading a token from a backend lookup gives: nothing when the
/// backend has no entry, the decoded and checked token when it has one, and
/// the backend's own error when the lookup failed.
pub fn decode_lookup(raw: Result<Option<String>, Error>) -> (r: Result<Option<AccessToken>, Error>)
    ensures
        lookup_outcome(raw, r),
{
    match raw {
        Err(e) => Err(e),
        Ok(None) => Ok(None),
        Ok(Some(json)) => match decode_token_record(json.as_str()) {
            Ok(t) => Ok(Some(t)),
            Err(e) => Err(e),
        },
    }
}

/// Reading back a written record gives the written token: when a lookup is
/// answered with the record that [`Keyring::set`] hands the backend for a
/// token that reading accepts, [`Keyring::get`] (through [`decode_lookup`])
/// gives that token.
pub proof fn lemma_stored_record_reads_back(
    t: AccessTokenView,
    record: Seq<char>,
    raw: Result<Option<String>, Error>,
    r: Result<Option<AccessToken>, Error>,
)
    requires
        token_from_json(record) == Ok::<AccessTokenView, Seq<char>>(t),
        raw matches Ok(Some(s)) && s@ == record,
        lookup_outcome(raw, r),
    ensures
        r matches Ok(Some(x)) && x@ == t,
{
}

/// A value held exactly as it was handed over.  Being generic, it takes its
/// value with the value's own type, so a boxed trait object is kept unchanged.
struct Held<T> {
    value: T,
}

/// High-level keyring access: token records stored as JSON in a backend.
pub struct Keyring {
    backend: Held<Box<dyn KeyringBackend>>,
}

impl Keyring {
    /// Whether the keyring's backend may answer `r` to a lookup of `service` and `user`.
    pub closed spec fn backend_answers(self, service: Seq<char>, user: Seq<char>, r: Result<Option<String>, Error>) -> bool {
        self.backend.value.answers(service, user, r)
    }

    /// Whether the keyring's backend may give `r` when storing `password`
    /// for `service` and `user`.
    pub closed spec fn backend_stores(self, service: Seq<char>, user: Seq<char>, password: Seq<char>, r: Result<(), Error>) -> bool {
        self.backend.value.stores(service, user, password, r)
    }

    /// A keyring over the given backend: its lookups and writes are the backend's.
    pub fn with_backend(backend: Box<dyn KeyringBackend>) -> (r: Keyring)
        ensures
            forall|service: Seq<char>, user: Seq<char>, a: Result<Option<String>, Error>|
                #[trigger] r.backend_answers(service, user, a) == backend.answers(service, user, a),
            forall|service: Seq<char>, user: Seq<char>, password: Seq<char>, a: Result<(), Error>|
                #[trigger] r.backend_stores(service, user, password, a) == backend.stores(service, user, password, a),
    {
        let held = Held { value: backend };
        Keyring { backend: held }
    }

    /// Retrieve and check the token stored for `service` and `key`:
    /// `Ok(None)` when there is no entry; an error when the backend fails,
    /// the record is not a token record, or a required field is empty.
    /// The outcome is [`decode_lookup`]'s for the answer the backend gave.
    pub fn get(&self, service: &str, key: &str) -> (r: Result<Option<AccessToken>, Error>)
        ensures
            exists|raw: Result<Option<String>, Error>|
                #[trigger] lookup_outcome(raw, r) && self.backend_answers(service@, key@, raw),
            r matches Ok(Some(t)) ==> check_token(t@) is Ok,
    {
        let raw = self.backend.value.get(service, key);
        let r = decode_lookup(raw);
        assert(lookup_outcome(raw, r));
        r
    }

    /// Store a token for `service` and `key` as a JSON record
    /// ([`encode_token_record`]) and return the backend's outcome of the
    /// write; a record that reading accepts reads back as the token.
    pub fn set(&self, service: &str, key: &str, token: &AccessToken) -> (r: Result<(), Error>)
        ensures
            token_to_json(token@) is None ==> keyring_error_is(r, "encode token as JSON: date out of range"@),
            token_to_json(token@) matches Some(record) ==> self.backend_stores(service@, key@, record, r)
                && token_from_json(record) == check_token(token@),
    {
        let json = match encode_token_record(token) {
            Ok(j) => j,
            Err(e) => return Err(e),
        };
        self.backend.value.set(service, key, json.as_str())
    }
}

} // verus!
