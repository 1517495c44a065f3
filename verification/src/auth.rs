//! Authentication of API requests by a biscuit token in the `Authorization`
//! header.
use vstd::prelude::*;

use biscuit_auth::error::Token as TokenError;

use crate::api::{bearer, bearer_token};

verus! {

#[verifier::external_type_specification]
#[verifier::external_body]
pub struct ExTokenError(TokenError);

/// Whether a token text is a biscuit whose signatures verify under the
/// ed25519 public key with the bytes `key`.
pub uninterp spec fn spec_biscuit_accepts(token: Seq<char>, key: Seq<u8>) -> bool;

/// Whether the verified biscuit `token`, loaded into an authorizer together
/// with the Datalog code `policy`, meets that code's checks and an allow
/// policy.
pub uninterp spec fn spec_policy_allows(token: Seq<char>, key: Seq<u8>, policy: Seq<char>) -> bool;

/// Whether the rule `rule`, run over the facts of the verified biscuit
/// `token` loaded together with the Datalog code `policy`, yields the pair
/// of texts `(a, b)`.
pub uninterp spec fn spec_rule_yields(
    token: Seq<char>,
    key: Seq<u8>,
    policy: Seq<char>,
    rule: Seq<char>,
    a: Seq<char>,
    b: Seq<char>,
) -> bool;

/// Verifies a biscuit, authorizes it under Datalog code, then runs a rule
/// whose head has two text terms.
///
/// Calls `biscuit_auth::PublicKey::from_bytes` on the key bytes,
/// `Biscuit::from_base64`, then on a new `Authorizer`: `add_code(policy)`,
/// `add_token`, `authorize` and `query(rule)`. The outer `Err` is the first
/// of these steps but the query that fails; the inner result is the
/// query's.
///
/// Claimed: decoding and the signature check are deterministic, so the
/// outer result is `Err` whenever the token does not verify; an outer `Ok`
/// means the token verified and the authorizer allowed it; each pair
/// returned is one that the rule yields. The authorizer runs under a time
/// limit, so a refusal or a failed query is not tied to the inputs, and the
/// pairs come from hash sets, so their order is not stated.
#[verifier::external_body]
fn authorize_token(token: &str, key: &[u8; 32], policy: &str, rule: &str) -> (r: Result<
    Result<Vec<(String, String)>, TokenError>,
    TokenError,
>)
    ensures
        !spec_biscuit_accepts(token@, key@) ==> r is Err,
        r is Ok ==> spec_biscuit_accepts(token@, key@) && spec_policy_allows(token@, key@, policy@),
        r matches Ok(Ok(pairs)) ==> forall|i: int|
            0 <= i < pairs@.len() ==> spec_rule_yields(
                token@,
                key@,
                policy@,
                rule@,
                #[trigger] pairs@[i].0@,
                pairs@[i].1@,
            ),
{
    let key = biscuit_auth::PublicKey::from_bytes(key).map_err(TokenError::Format)?;
    let biscuit = biscuit_auth::Biscuit::from_base64(token, key)?;
    let mut authorizer = biscuit_auth::Authorizer::new();
    authorizer.add_code(policy)?;
    authorizer.add_token(&biscuit)?;
    authorizer.authorize()?;
    Ok(authorizer.query::<&str, (String, String), _>(rule))
}

/// What the uuid parser gives for a text: the id as a number, or nothing.
pub uninterp spec fn spec_parse_uuid(s: Seq<char>) -> Option<u128>;

/// Parses a uuid in any of its text forms.
///
/// Calls `uuid::Uuid::parse_str` and reads the id as a `u128`. The result is
/// named: the same text gives the same id; nothing more is claimed of the
/// parser here.
#[verifier::external_body]
pub(crate) fn parse_uuid(s: &str) -> (r: Option<u128>)
    ensures
        r == spec_parse_uuid(s@),
{
    match uuid::Uuid::parse_str(s) {
        Ok(u) => Some(u.as_u128()),
        Err(_) => None,
    }
}

/// Who made a request.
pub struct AuthContext {
    pub user: u128,
    pub username: String,
}

/// Why a request is not authenticated.
#[derive(Debug, Clone, Copy, PartialEq, Eq, Structural)]
pub enum AuthFailure {
    /// No bearer token, a token that does not verify, or one that the
    /// policy refuses: the request is answered as unauthorized.
    Unauthorized,
    /// The token was accepted but names no user and username.
    NoUserFacts,
    /// The user id of an accepted token is not a uuid.
    BadUserId,
}

/// The policy a token must meet: it names a user.
pub const POLICY: &'static str = "allow if user($u);";

/// The query for the user id and name of a token.
pub const USER_QUERY: &'static str = "data($id, $username) <- user($id), username($username)";

/// Authenticates a request by the bearer token of its `Authorization`
/// header: the token must verify against the public key with the bytes
/// `key` and meet `POLICY`; the user is the last pair that `USER_QUERY`
/// finds, its id read as a uuid.
pub fn authenticate(header: Option<&str>, key: &[u8; 32]) -> (r: Result<AuthContext, AuthFailure>)
    ensures
        header is None ==> r == Err::<AuthContext, AuthFailure>(AuthFailure::Unauthorized),
        header matches Some(h) && bearer(h@) is None ==> r == Err::<AuthContext, AuthFailure>(
            AuthFailure::Unauthorized,
        ),
        header matches Some(h) && bearer(h@) matches Some(t) && !spec_biscuit_accepts(t, key@) ==> r
            == Err::<AuthContext, AuthFailure>(AuthFailure::Unauthorized),
        r is Ok ==> (header matches Some(h) && bearer(h@) matches Some(t) && spec_biscuit_accepts(
            t,
            key@,
        ) && spec_policy_allows(t, key@, POLICY@)),
        r matches Ok(ctx) ==> exists|id: Seq<char>, name: Seq<char>|
            #[trigger] spec_rule_yields(
                bearer(header->Some_0@)->Some_0,
                key@,
                POLICY@,
                USER_QUERY@,
                id,
                name,
            ) && spec_parse_uuid(id) == Some(ctx.user) && ctx.username@ == name,
{
    let header = match header {
        Some(h) => h,
        None => return Err(AuthFailure::Unauthorized),
    };
    let token = match bearer_token(header) {
        Some(t) => t,
        None => return Err(AuthFailure::Unauthorized),
    };
    let outcome = authorize_token(token.as_str(), key, POLICY, USER_QUERY);
    let ghost o = outcome;
    let r = authorization_outcome(outcome);
    proof {
        if r is Ok {
            let pairs = o->Ok_0->Ok_0@;
            let last = pairs[pairs.len() - 1];
            assert(spec_rule_yields(token@, key@, POLICY@, USER_QUERY@, last.0@, last.1@));
        }
    }
    r
}

/// What the authentication of a verified token comes to, from the outcome
/// of its authorization and user query: a refusal is unauthorized, a failed
/// query names no user, and otherwise the user is read from the pairs
/// found.
pub fn authorization_outcome(outcome: Result<Result<Vec<(String, String)>, TokenError>, TokenError>) -> (r: Result<
    AuthContext,
    AuthFailure,
>)
    ensures
        outcome is Err ==> r == Err::<AuthContext, AuthFailure>(AuthFailure::Unauthorized),
        outcome matches Ok(Err(_)) ==> r == Err::<AuthContext, AuthFailure>(AuthFailure::NoUserFacts),
        outcome matches Ok(Ok(pairs)) ==> {
            &&& pairs@.len() == 0 ==> r == Err::<AuthContext, AuthFailure>(AuthFailure::NoUserFacts)
            &&& pairs@.len() > 0 ==> match spec_parse_uuid(pairs@.last().0@) {
                Some(id) => r matches Ok(ctx) && ctx.user == id && ctx.username@ == pairs@.last().1@,
                None => r == Err::<AuthContext, AuthFailure>(AuthFailure::BadUserId),
            }
        },
{
    match outcome {
        Err(_) => Err(AuthFailure::Unauthorized),
        Ok(Err(_)) => Err(AuthFailure::NoUserFacts),
        Ok(Ok(pairs)) => user_of_pairs(pairs),
    }
}

/// Who made a request, from the `(id, username)` pairs that the user query
/// found in an accepted token: the last pair, its id read as a uuid.
pub fn user_of_pairs(pairs: Vec<(String, String)>) -> (r: Result<AuthContext, AuthFailure>)
    ensures
        pairs@.len() == 0 ==> r == Err::<AuthContext, AuthFailure>(AuthFailure::NoUserFacts),
        pairs@.len() > 0 ==> match spec_parse_uuid(pairs@.last().0@) {
            Some(id) => r matches Ok(ctx) && ctx.user == id && ctx.username@ == pairs@.last().1@,
            None => r == Err::<AuthContext, AuthFailure>(AuthFailure::BadUserId),
        },
{
    let mut pairs = pairs;
    let (user, username) = match pairs.pop() {
        Some(p) => p,
        None => return Err(AuthFailure::NoUserFacts),
    };
    match parse_uuid(user.as_str()) {
        Some(id) => Ok(AuthContext { user: id, username }),
        None => Err(AuthFailure::BadUserId),
    }
}

} // verus!
