use vstd::prelude::*;
use vstd::string::*;
use crate::role::Role;

verus! {

/// Why a connection is turned away before it reaches the registry.
#[derive(Clone, Copy, Debug, PartialEq, Eq, Structural)]
pub enum JoinRefusal {
    /// `room` or `role` is absent or empty.
    MissingJoinParameters,
    /// `role` is neither `sender` nor `receiver`.
    InvalidRole,
}

/// A query as key/value pairs of characters.
pub open spec fn pairs_view(pairs: Seq<(String, String)>) -> Seq<(Seq<char>, Seq<char>)> {
    pairs.map_values(|p: (String, String)| (p.0@, p.1@))
}

/// The value of the last pair whose key is `key`; empty where there is none.
pub open spec fn param_value(pairs: Seq<(Seq<char>, Seq<char>)>, key: Seq<char>) -> Seq<char>
    decreases pairs.len(),
{
    if pairs.len() == 0 {
        Seq::empty()
    } else if pairs.last().0 == key {
        pairs.last().1
    } else {
        param_value(pairs.drop_last(), key)
    }
}

/// The role that a join token names.
pub open spec fn role_of(token: Seq<char>) -> Option<Role> {
    if token == "sender"@ {
        Some(Role::Initiator)
    } else if token == "receiver"@ {
        Some(Role::Responder)
    } else {
        None
    }
}

/// What a join request with these query pairs asks for.
pub open spec fn join_outcome(pairs: Seq<(Seq<char>, Seq<char>)>) -> Result<
    (Seq<char>, Role),
    JoinRefusal,
> {
    let room = param_value(pairs, "room"@);
    let role = param_value(pairs, "role"@);
    if room.len() == 0 || role.len() == 0 {
        Err(JoinRefusal::MissingJoinParameters)
    } else {
        match role_of(role) {
            Some(r) => Ok((room, r)),
            None => Err(JoinRefusal::InvalidRole),
        }
    }
}

/// The view of a join result.
pub open spec fn outcome_view(r: Result<(String, Role), JoinRefusal>) -> Result<
    (Seq<char>, Role),
    JoinRefusal,
> {
    match r {
        Ok((room, role)) => Ok((room@, role)),
        Err(e) => Err(e),
    }
}

/// Character-wise equality of two strings.
pub fn str_eq(a: &str, b: &str) -> (r: bool)
    ensures
        r == (a@ == b@),
{
    let n = a.unicode_len();
    if n != b.unicode_len() {
        return false;
    }
    let mut i: usize = 0;
    while i < n
        invariant
            n == a@.len(),
            n == b@.len(),
            i <= n,
            forall|j: int| 0 <= j < i ==> a@[j] == b@[j],
        decreases n - i,
    {
        if a.get_char(i) != b.get_char(i) {
            return false;
        }
        i += 1;
    }
    assert(a@ =~= b@);
    true
}

/// The role that a join token names: `sender` or `receiver`.
pub fn parse_role(token: &str) -> (r: Option<Role>)
    ensures
        r == role_of(token@),
{
    if str_eq(token, "sender") {
        Some(Role::Initiator)
    } else if str_eq(token, "receiver") {
        Some(Role::Responder)
    } else {
        None
    }
}

/// Reads `room` and `role` from a request's query pairs (the last pair of
/// each key wins) and checks them.
pub fn join_from_pairs(pairs: &Vec<(String, String)>) -> (r: Result<(String, Role), JoinRefusal>)
    ensures
        outcome_view(r) == join_outcome(pairs_view(pairs@)),
{
    let mut room = String::new();
    let mut role = String::new();
    let mut i: usize = 0;
    while i < pairs.len()
        invariant
            i <= pairs.len(),
            room@ == param_value(pairs_view(pairs@.take(i as int)), "room"@),
            role@ == param_value(pairs_view(pairs@.take(i as int)), "role"@),
        decreases pairs.len() - i,
    {
        let ghost before = pairs_view(pairs@.take(i as int));
        proof {
            assert(pairs_view(pairs@.take(i + 1)).drop_last() =~= before);
            reveal_strlit("room");
            reveal_strlit("role");
            assert("room"@[2] != "role"@[2]);
        }
        let (key, value) = &pairs[i];
        if str_eq(key.as_str(), "room") {
            room = value.clone();
        } else if str_eq(key.as_str(), "role") {
            role = value.clone();
        }
        i += 1;
    }
    proof {
        assert(pairs@.take(pairs@.len() as int) =~= pairs@);
    }
    if room.unicode_len() == 0 || role.unicode_len() == 0 {
        return Err(JoinRefusal::MissingJoinParameters);
    }
    match parse_role(role.as_str()) {
        Some(r) => Ok((room, r)),
        None => Err(JoinRefusal::InvalidRole),
    }
}

/// Whether a string parses as an absolute URL.
pub uninterp spec fn url_parses(s: Seq<char>) -> bool;

/// The decoded key/value pairs of the query of the URL that a string
/// parses as, in order.
pub uninterp spec fn url_query_of(s: Seq<char>) -> Seq<(Seq<char>, Seq<char>)>;

/// Relies on `url::Url::parse` and `url::Url::query_pairs`: `None` where the
/// string is not an absolute URL, else the decoded pairs of its query in
/// order. Both depend on the string alone.
#[verifier::external_body]
fn parse_query(s: &str) -> (r: Option<Vec<(String, String)>>)
    ensures
        r is Some <==> url_parses(s@),
        r matches Some(v) ==> pairs_view(v@) == url_query_of(s@),
{
    url::Url::parse(s).ok().map(
        |u| u.query_pairs().map(|(k, v)| (k.into_owned(), v.into_owned())).collect(),
    )
}

/// The absolute URL under which a request target is read.
pub open spec fn request_url(target: Seq<char>) -> Seq<char> {
    "http://dummy"@ + target
}

/// Reads the join parameters from a request target (path and query). A
/// target that does not form a URL carries no parameters.
pub fn join_request(target: &str) -> (r: Result<(String, Role), JoinRefusal>)
    ensures
        !url_parses(request_url(target@)) ==> r == Err::<(String, Role), JoinRefusal>(
            JoinRefusal::MissingJoinParameters,
        ),
        url_parses(request_url(target@)) ==> outcome_view(r) == join_outcome(
            url_query_of(request_url(target@)),
        ),
{
    let full = String::from_str("http://dummy").concat(target);
    match parse_query(full.as_str()) {
        Some(pairs) => join_from_pairs(&pairs),
        None => Err(JoinRefusal::MissingJoinParameters),
    }
}

/// `bytes` begins with `prefix`.
pub open spec fn starts_with(bytes: Seq<u8>, prefix: Seq<u8>) -> bool {
    prefix.len() <= bytes.len() && bytes.subrange(0, prefix.len() as int) == prefix
}

/// The bytes of an ASCII string.
pub open spec fn ascii_bytes(s: Seq<char>) -> Seq<u8> {
    s.map_values(|c: char| c as u8)
}

/// The ASCII code of `A`.
pub const UPPER_A: u8 = 65;

/// The ASCII code of `Z`.
pub const UPPER_Z: u8 = 90;

/// The distance from an ASCII upper case letter to its lower case.
pub const CASE_GAP: u8 = 32;

/// A byte with ASCII upper case letters turned to lower case.
pub open spec fn lower_byte(b: u8) -> u8 {
    if UPPER_A <= b && b <= UPPER_Z {
        (b + CASE_GAP) as u8
    } else {
        b
    }
}

/// `pat` (in lower case) stands in `bytes` at position `i`, ignoring ASCII case.
pub open spec fn matches_at(bytes: Seq<u8>, pat: Seq<u8>, i: int) -> bool {
    &&& 0 <= i
    &&& i + pat.len() <= bytes.len()
    &&& forall|j: int| 0 <= j < pat.len() ==> lower_byte(bytes[i + j]) == #[trigger] pat[j]
}

/// `pat` (in lower case) stands somewhere in `bytes`, ignoring ASCII case.
pub open spec fn mentions(bytes: Seq<u8>, pat: Seq<u8>) -> bool {
    exists|i: int| matches_at(bytes, pat, i)
}

/// A request head that carries an `Upgrade` header: a protocol upgrade attempt.
pub open spec fn asks_upgrade(bytes: Seq<u8>) -> bool {
    mentions(bytes, ascii_bytes("\r\nupgrade:"@))
}

/// A plain (health check) request: it starts with `GET /`, `POST /` or
/// `HEAD /` and asks for no protocol upgrade.
pub open spec fn plain_request_head(bytes: Seq<u8>) -> bool {
    &&& starts_with(bytes, ascii_bytes("GET /"@)) || starts_with(bytes, ascii_bytes("POST /"@))
        || starts_with(bytes, ascii_bytes("HEAD /"@))
    &&& !asks_upgrade(bytes)
}

/// The bytes hold a whole request head: it ends with an empty line.
pub open spec fn complete_head(bytes: Seq<u8>) -> bool {
    mentions(bytes, ascii_bytes("\r\n\r\n"@))
}

fn lower(b: u8) -> (r: u8)
    ensures
        r == lower_byte(b),
{
    if UPPER_A <= b && b <= UPPER_Z {
        b + CASE_GAP
    } else {
        b
    }
}

fn matches_at_exec(bytes: &[u8], pat: &str, i: usize) -> (r: bool)
    requires
        pat.is_ascii(),
    ensures
        r == matches_at(bytes@, ascii_bytes(pat@), i as int),
{
    let n = pat.unicode_len();
    let ghost p = ascii_bytes(pat@);
    if n > bytes.len() || i > bytes.len() - n {
        return false;
    }
    let mut j: usize = 0;
    while j < n
        invariant
            pat.is_ascii(),
            n == pat@.len(),
            p == ascii_bytes(pat@),
            p.len() == n,
            i + n <= bytes.len(),
            j <= n,
            forall|k: int| 0 <= k < j ==> lower_byte(bytes@[i + k]) == #[trigger] p[k],
        decreases n - j,
    {
        if lower(bytes[i + j]) != pat.get_ascii(j) {
            assert(lower_byte(bytes@[i + j]) != p[j as int]);
            return false;
        }
        j += 1;
    }
    true
}

/// `pat`, written in lower case, stands somewhere in `bytes`, ignoring ASCII case.
fn mentions_ascii(bytes: &[u8], pat: &str) -> (r: bool)
    requires
        pat.is_ascii(),
    ensures
        r == mentions(bytes@, ascii_bytes(pat@)),
{
    let n = pat.unicode_len();
    let ghost p = ascii_bytes(pat@);
    if n > bytes.len() {
        assert forall|k: int| !matches_at(bytes@, p, k) by {}
        return false;
    }
    if n == 0 {
        assert(matches_at(bytes@, p, 0));
        return true;
    }
    let last = bytes.len() - n;
    let mut i: usize = 0;
    while i <= last
        invariant
            pat.is_ascii(),
            n == pat@.len(),
            p == ascii_bytes(pat@),
            n >= 1,
            last + n == bytes.len(),
            i <= last + 1,
            forall|k: int| 0 <= k < i ==> !matches_at(bytes@, p, k),
        decreases last + 1 - i,
    {
        if matches_at_exec(bytes, pat, i) {
            return true;
        }
        i += 1;
    }
    assert forall|k: int| !matches_at(bytes@, p, k) by {
        if 0 <= k < i {
        }
    }
    false
}

/// The bytes read so far hold a whole request head.
pub fn head_complete(bytes: &[u8]) -> (r: bool)
    ensures
        r == complete_head(bytes@),
{
    proof {
        reveal_strlit("\r\n\r\n");
    }
    mentions_ascii(bytes, "\r\n\r\n")
}

/// `bytes` begins with the characters of `prefix`, each one byte.
fn starts_with_ascii(bytes: &[u8], prefix: &str) -> (r: bool)
    requires
        prefix.is_ascii(),
    ensures
        r == starts_with(bytes@, ascii_bytes(prefix@)),
{
    let n = prefix.unicode_len();
    let ghost p = ascii_bytes(prefix@);
    if n > bytes.len() {
        return false;
    }
    let mut i: usize = 0;
    while i < n
        invariant
            prefix.is_ascii(),
            n == prefix@.len(),
            n <= bytes@.len(),
            p.len() == n,
            p == ascii_bytes(prefix@),
            i <= n,
            forall|j: int| 0 <= j < i ==> bytes@[j] == p[j],
        decreases n - i,
    {
        if bytes[i] != prefix.get_ascii(i) {
            assert(bytes@.subrange(0, n as int)[i as int] != p[i as int]);
            return false;
        }
        i += 1;
    }
    assert(bytes@.subrange(0, n as int) =~= p);
    true
}

/// The first bytes of a connection start a plain request (`GET /`,
/// `POST /` or `HEAD /`) rather than a protocol upgrade, which carries an
/// `Upgrade` header.
pub fn is_plain_request(head: &[u8]) -> (r: bool)
    ensures
        r == plain_request_head(head@),
{
    proof {
        reveal_strlit("GET /");
        reveal_strlit("POST /");
        reveal_strlit("HEAD /");
        reveal_strlit("\r\nupgrade:");
    }
    let line = starts_with_ascii(head, "GET /") || starts_with_ascii(head, "POST /")
        || starts_with_ascii(head, "HEAD /");
    line && !mentions_ascii(head, "\r\nupgrade:")
}

} // verus!
