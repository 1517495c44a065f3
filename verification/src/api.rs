//! The rules of the HTTP API that do not depend on the transport: input
//! checks, how replies of the authentication service are read, which CORS
//! headers a response carries, and what a search does with the catalogue.
use vstd::prelude::*;
use vstd::string::StrSliceExecFns;
use vstd::string::StringExecFns;

use crate::model::{opt_text, Content, ContentInput};
use crate::provider::key_text;
use crate::params::RecommendationParametersInput;
use crate::text::{chars_of, texts_of};

verus! {

/// An error answered to an API client.
pub enum ApiError {
    PreconditionFailed(String),
    BadRequest(String),
    Internal(String),
    Unauthorized,
    NotFound(String),
}

impl ApiError {
    pub fn precondition_failed(message: String) -> (e: ApiError)
        ensures
            e matches ApiError::PreconditionFailed(m) && m == message,
    {
        ApiError::PreconditionFailed(message)
    }

    pub fn bad_request(message: String) -> (e: ApiError)
        ensures
            e matches ApiError::BadRequest(m) && m == message,
    {
        ApiError::BadRequest(message)
    }

    pub fn internal(message: &str) -> (e: ApiError)
        ensures
            e matches ApiError::Internal(m) && m@ == message@,
    {
        ApiError::Internal(message.to_owned())
    }

    pub fn unauthorized() -> (e: ApiError)
        ensures
            e is Unauthorized,
    {
        ApiError::Unauthorized
    }

    pub fn not_found(message: String) -> (e: ApiError)
        ensures
            e matches ApiError::NotFound(m) && m == message,
    {
        ApiError::NotFound(message)
    }

    /// The HTTP status of the error.
    pub fn status(&self) -> (code: u16)
        ensures
            code == match self {
                ApiError::PreconditionFailed(_) => 412u16,
                ApiError::BadRequest(_) => 400u16,
                ApiError::Internal(_) => 500u16,
                ApiError::Unauthorized => 401u16,
                ApiError::NotFound(_) => 404u16,
            },
    {
        match self {
            ApiError::PreconditionFailed(_) => 412,
            ApiError::BadRequest(_) => 400,
            ApiError::Internal(_) => 500,
            ApiError::Unauthorized => 401,
            ApiError::NotFound(_) => 404,
        }
    }

    /// The message of the error, if it has one.
    pub open spec fn message(&self) -> Option<Seq<char>> {
        match self {
            ApiError::PreconditionFailed(m) => Some(m@),
            ApiError::BadRequest(m) => Some(m@),
            ApiError::Internal(m) => Some(m@),
            ApiError::Unauthorized => None,
            ApiError::NotFound(m) => Some(m@),
        }
    }
}

/// A token handed out by the authentication service.
pub struct Token {
    pub token: String,
}

/// Credentials to log in with.
pub struct InputCredentials {
    pub username: String,
    pub password: String,
}

/// A user to register.
pub struct UserInput {
    pub username: String,
    pub password: String,
    pub avatar: Option<String>,
}

/// An avatar to upload, base64-encoded.
pub struct UploadImageRequest {
    pub image: String,
}

/// The length of a text in bytes, as `str::len` counts it.
pub open spec fn byte_len(s: Seq<char>) -> int {
    vstd::utf8::encode_utf8(s).len() as int
}

/// What is wrong with a user to register, if anything: the username must
/// have 2 to 32 bytes, the password 4 to 128, checked in that order.
pub open spec fn user_input_problem(u: UserInput) -> Option<Seq<char>> {
    if byte_len(u.username@) < 2 {
        Some("username is too short"@)
    } else if byte_len(u.username@) > 32 {
        Some("username is too long"@)
    } else if byte_len(u.password@) < 4 {
        Some("password is too short"@)
    } else if byte_len(u.password@) > 128 {
        Some("password is too long"@)
    } else {
        None
    }
}

/// A user is accepted exactly when the username has 2 to 32 bytes and the
/// password 4 to 128; each refusal names the first bound broken, the
/// username's before the password's, the lower before the upper.
pub proof fn lemma_user_input_bounds(u: UserInput)
    ensures
        user_input_problem(u) is None <==> (2 <= vstd::utf8::encode_utf8(u.username@).len() <= 32 && 4
            <= vstd::utf8::encode_utf8(u.password@).len() <= 128),
        user_input_problem(u) == Some("username is too short"@) <==> vstd::utf8::encode_utf8(
            u.username@,
        ).len() < 2,
        user_input_problem(u) == Some("username is too long"@) <==> vstd::utf8::encode_utf8(
            u.username@,
        ).len() > 32,
        user_input_problem(u) == Some("password is too short"@) <==> (2 <= vstd::utf8::encode_utf8(
            u.username@,
        ).len() <= 32 && vstd::utf8::encode_utf8(u.password@).len() < 4),
        user_input_problem(u) == Some("password is too long"@) <==> (2 <= vstd::utf8::encode_utf8(
            u.username@,
        ).len() <= 32 && vstd::utf8::encode_utf8(u.password@).len() > 128),
{
    reveal_strlit("username is too short");
    reveal_strlit("username is too long");
    reveal_strlit("password is too short");
    reveal_strlit("password is too long");
    // the four messages differ: by length, or by their first letter
    assert("username is too short"@.len() == 21 && "password is too short"@.len() == 21);
    assert("username is too long"@.len() == 20 && "password is too long"@.len() == 20);
    assert("username is too short"@[0] != "password is too short"@[0]);
    assert("username is too long"@[0] != "password is too long"@[0]);
}

/// Checks a user to register before it is sent on.
pub fn check_user_input(input: &UserInput) -> (r: Result<(), ApiError>)
    ensures
        match user_input_problem(*input) {
            None => r is Ok,
            Some(m) => r matches Err(ApiError::PreconditionFailed(e)) && e@ == m,
        },
        r is Ok <==> (2 <= vstd::utf8::encode_utf8(input.username@).len() <= 32 && 4
            <= vstd::utf8::encode_utf8(input.password@).len() <= 128),
{
    let username = input.username.as_str().as_bytes().len();
    let password = input.password.as_str().as_bytes().len();
    if username < 2 {
        return Err(ApiError::precondition_failed("username is too short".to_owned()));
    }
    if username > 32 {
        return Err(ApiError::precondition_failed("username is too long".to_owned()));
    }
    if password < 4 {
        return Err(ApiError::precondition_failed("password is too short".to_owned()));
    }
    if password > 128 {
        return Err(ApiError::precondition_failed("password is too long".to_owned()));
    }
    Ok(())
}

/// How a reply of the authentication service is read.
#[derive(Debug, Clone, Copy, PartialEq, Eq, Structural)]
pub enum AuthReply {
    /// A success: the body holds a token.
    Token,
    /// The request was refused as bad: the body says why.
    BadRequest,
    /// The credentials were refused.
    Unauthorized,
    /// Anything else.
    Failure,
}

/// How a reply to a registration is read, by its status.
pub fn register_reply(status: u16) -> (r: AuthReply)
    ensures
        r == (if 200 <= status <= 299 {
            AuthReply::Token
        } else if status == 400 {
            AuthReply::BadRequest
        } else {
            AuthReply::Failure
        }),
{
    if 200 <= status && status <= 299 {
        AuthReply::Token
    } else if status == 400 {
        AuthReply::BadRequest
    } else {
        AuthReply::Failure
    }
}

/// How a reply to a login is read, by its status.
pub fn auth_reply(status: u16) -> (r: AuthReply)
    ensures
        r == (if 200 <= status <= 299 {
            AuthReply::Token
        } else if status == 400 {
            AuthReply::BadRequest
        } else if status == 401 {
            AuthReply::Unauthorized
        } else {
            AuthReply::Failure
        }),
{
    if 200 <= status && status <= 299 {
        AuthReply::Token
    } else if status == 400 {
        AuthReply::BadRequest
    } else if status == 401 {
        AuthReply::Unauthorized
    } else {
        AuthReply::Failure
    }
}

/// The answer to a reply of the authentication service, from what its body
/// gave: the parsed token for a success, the text for a bad request.
pub fn reply_outcome(reply: AuthReply, token: Option<Token>, text: Option<String>) -> (r: Result<Token, ApiError>)
    ensures
        match reply {
            AuthReply::Token => match token {
                Some(t) => r == Ok::<Token, ApiError>(t),
                None => r matches Err(ApiError::Internal(m)) && m@ == "unable to parse auth api token"@,
            },
            AuthReply::BadRequest => r matches Err(ApiError::BadRequest(m)) && m@ == (match text {
                Some(t) => t@,
                None => "Bad request"@,
            }),
            AuthReply::Unauthorized => r matches Err(ApiError::Unauthorized),
            AuthReply::Failure => r matches Err(ApiError::Internal(m)) && m@ == "auth api is having a seizure..."@,
        },
{
    match reply {
        AuthReply::Token => match token {
            Some(t) => Ok(t),
            None => Err(ApiError::internal("unable to parse auth api token")),
        },
        AuthReply::BadRequest => {
            let message = match text {
                Some(t) => t,
                None => "Bad request".to_owned(),
            };
            Err(ApiError::bad_request(message))
        },
        AuthReply::Unauthorized => Err(ApiError::unauthorized()),
        AuthReply::Failure => Err(ApiError::internal("auth api is having a seizure...")),
    }
}

/// The token of an `Authorization` header, after `Bearer `.
pub open spec fn bearer(header: Seq<char>) -> Option<Seq<char>> {
    if "Bearer "@.is_prefix_of(header) {
        Some(header.skip(7))
    } else {
        None
    }
}

/// The token of an `Authorization` header.
pub fn bearer_token(header: &str) -> (t: Option<String>)
    ensures
        match (t, bearer(header@)) {
            (Some(t), Some(b)) => t@ == b,
            (None, None) => true,
            _ => false,
        },
{
    let h = chars_of(header);
    let p = chars_of("Bearer ");
    proof {
        reveal_strlit("Bearer ");
    }
    if h.len() < p.len() {
        return None;
    }
    let mut i: usize = 0;
    while i < p.len()
        invariant
            h@ == header@,
            p@ == "Bearer "@,
            p@.len() <= h@.len(),
            i <= p@.len(),
            forall|k: int| 0 <= k < i ==> p@[k] == h@[k],
        decreases p@.len() - i,
    {
        if h[i] != p[i] {
            return None;
        }
        i = i + 1;
    }
    Some(header.substring_char(7, h.len()).to_owned())
}

/// The `Authorization` header that carries a bearer token.
pub fn authorization_header(token: &str) -> (h: String)
    ensures
        h@ == "Bearer "@ + token@,
{
    let mut h = "Bearer ".to_owned();
    h.append(token);
    h
}

/// Reading the token of a bearer header gives back the token it carries.
pub proof fn lemma_bearer_header_round_trip(token: Seq<char>)
    ensures
        bearer("Bearer "@ + token) == Some(token),
{
    reveal_strlit("Bearer ");
    let h = "Bearer "@ + token;
    assert("Bearer "@.is_prefix_of(h)) by {
        assert(h.subrange(0, 7) =~= "Bearer "@);
    }
    assert(h.skip(7) =~= token);
}

/// The CORS treatment of a response: the headers to set, and whether the
/// status becomes 200.
pub struct CorsPlan {
    pub headers: Vec<(&'static str, &'static str)>,
    pub status_ok: bool,
}

/// The CORS headers of a response to a request: a preflight (`OPTIONS`)
/// request gets the allowed methods and headers and a one-day cache, with
/// status 200; every response allows any origin.
pub fn cors_plan(preflight: bool) -> (plan: CorsPlan)
    ensures
        plan.status_ok == preflight,
        preflight ==> plan.headers@.len() == 4,
        !preflight ==> plan.headers@.len() == 1,
        preflight ==> plan.headers@[0].0@ == "access-control-allow-methods"@ && plan.headers@[0].1@
            == "GET,POST,PUT,DELETE,OPTIONS"@ && plan.headers@[1].0@
            == "access-control-allow-headers"@ && plan.headers@[1].1@ == "*"@ && plan.headers@[2].0@
            == "access-control-max-age"@ && plan.headers@[2].1@ == "86400"@,
        plan.headers@.last().0@ == "access-control-allow-origin"@,
        plan.headers@.last().1@ == "*"@,
{
    let mut headers: Vec<(&'static str, &'static str)> = Vec::new();
    if preflight {
        headers.push(("access-control-allow-methods", "GET,POST,PUT,DELETE,OPTIONS"));
        headers.push(("access-control-allow-headers", "*"));
        headers.push(("access-control-max-age", "86400"));
    }
    headers.push(("access-control-allow-origin", "*"));
    CorsPlan { headers, status_ok: preflight }
}

/// Whether `v` holds `x`, computed.
pub fn contains_id(v: &Vec<u128>, x: u128) -> (b: bool)
    ensures
        b == v@.contains(x),
{
    let mut i: usize = 0;
    while i < v.len()
        invariant
            i <= v@.len(),
            forall|k: int| 0 <= k < i ==> v@[k] != x,
        decreases v@.len() - i,
    {
        if v[i] == x {
            return true;
        }
        i = i + 1;
    }
    false
}

/// What is wrong with starting a session with `participants` by `owner`,
/// if anything.
pub open spec fn session_start_problem(participants: Seq<u128>, owner: u128) -> Option<Seq<char>> {
    if participants.len() < 2 {
        Some("not enough users"@)
    } else if !participants.contains(owner) {
        Some("owner must be among the participants"@)
    } else {
        None
    }
}

/// A session starts exactly when at least two participants are listed and
/// the owner is one of them, wherever in the list; it is refused for too
/// few users first, and for a missing owner only when the owner is nowhere
/// in the list.
pub proof fn lemma_session_start_rule(participants: Seq<u128>, owner: u128)
    ensures
        session_start_problem(participants, owner) is None <==> (participants.len() >= 2
            && exists|i: int| 0 <= i < participants.len() && participants[i] == owner),
        session_start_problem(participants, owner) == Some("not enough users"@) <==> participants.len() < 2,
        session_start_problem(participants, owner) == Some("owner must be among the participants"@) <==> (
        participants.len() >= 2 && forall|i: int| 0 <= i < participants.len() ==> participants[i] != owner),
{
    reveal_strlit("not enough users");
    reveal_strlit("owner must be among the participants");
    assert("not enough users"@.len() != "owner must be among the participants"@.len());
}

/// Checks a request to start a session.
pub fn check_session_start(participants: &Vec<u128>, owner: u128) -> (r: Result<(), ApiError>)
    ensures
        match session_start_problem(participants@, owner) {
            None => r is Ok,
            Some(m) => r matches Err(ApiError::PreconditionFailed(e)) && e@ == m,
        },
        r is Ok <==> (participants@.len() >= 2 && participants@.contains(owner)),
{
    if participants.len() < 2 {
        return Err(ApiError::precondition_failed("not enough users".to_owned()));
    }
    if !contains_id(participants, owner) {
        return Err(ApiError::precondition_failed("owner must be among the participants".to_owned()));
    }
    Ok(())
}

/// Checks a request of `user` to join a session, given the session's
/// participants if it exists.
pub fn check_session_join(participants: Option<&Vec<u128>>, user: u128) -> (r: Result<(), ApiError>)
    ensures
        match participants {
            None => r matches Err(ApiError::PreconditionFailed(e)) && e@ == "session does not exist"@,
            Some(p) => if p@.contains(user) {
                r is Ok
            } else {
                r matches Err(ApiError::PreconditionFailed(e)) && e@
                    == "user is not invited to the session"@
            },
        },
{
    match participants {
        None => Err(ApiError::precondition_failed("session does not exist".to_owned())),
        Some(p) => if contains_id(p, user) {
            Ok(())
        } else {
            Err(ApiError::precondition_failed("user is not invited to the session".to_owned()))
        },
    }
}

/// Adds the requesting user to the users and to the users that must not
/// have seen the content, where it is not there yet.
pub fn include_requester(input: &mut RecommendationParametersInput, user: u128)
    ensures
        final(input).users_input@ == (if old(input).users_input@.contains(user) {
            old(input).users_input@
        } else {
            old(input).users_input@.push(user)
        }),
        final(input).not_seen_by@ == (if old(input).not_seen_by@.contains(user) {
            old(input).not_seen_by@
        } else {
            old(input).not_seen_by@.push(user)
        }),
        final(input).disable_content_type_filter == old(input).disable_content_type_filter,
        final(input).content_type == old(input).content_type,
        final(input).disable_genre_filter == old(input).disable_genre_filter,
        final(input).genres == old(input).genres,
{
    if !contains_id(&input.users_input, user) {
        input.users_input.push(user);
    }
    if !contains_id(&input.not_seen_by, user) {
        input.not_seen_by.push(user);
    }
}

/// The most recommendations answered at once.
pub const MAX_RECOMMENDATIONS: i64 = 100;

/// How many recommendations to answer from a list of length `len`.
pub fn recommendation_count(len: i64) -> (n: i64)
    ensures
        n == (if len < MAX_RECOMMENDATIONS {
            len
        } else {
            MAX_RECOMMENDATIONS
        }),
{
    if len < MAX_RECOMMENDATIONS {
        len
    } else {
        MAX_RECOMMENDATIONS
    }
}

/// What a search does with a result, given the stored content of the same
/// provider key.
#[derive(Debug, Clone, Copy, PartialEq, Eq, Structural)]
pub enum UpsertPlan {
    /// Not stored yet: store it.
    Insert,
    /// Stored with other data: update the stored content.
    Update { content_id: u128 },
    /// Stored as found: keep it as it is.
    Keep { content_id: u128, updated_at: i64 },
}

/// A search keeps the stored content exactly when every field of the found
/// one equals the stored one's; any difference, in the overview too, is
/// written to the catalogue.
pub proof fn lemma_keep_only_when_unchanged(found: ContentInput, stored: Content)
    ensures
        found.same_as(&stored) <==> (key_text(found.provider_id.spec_id()) == stored.provider_id@
            && found.content_type == stored.content_type && found.title@ == stored.title@
            && found.overview@ == stored.overview@ && opt_text(found.poster) == opt_text(stored.poster)
            && found.release_date == stored.release_date && texts_of(found.genres@) == texts_of(
            stored.genres@,
        )),
{
}

/// What a search does with a found content.
pub fn plan_upsert(found: &ContentInput, stored: Option<&Content>) -> (plan: UpsertPlan)
    ensures
        match stored {
            None => plan == UpsertPlan::Insert,
            Some(c) => if found.same_as(c) {
                plan == (UpsertPlan::Keep { content_id: c.content_id, updated_at: c.updated_at })
            } else {
                plan == (UpsertPlan::Update { content_id: c.content_id })
            },
        },
        plan is Keep ==> (stored matches Some(c) && key_text(found.provider_id.spec_id())
            == c.provider_id@ && found.content_type == c.content_type && found.title@ == c.title@
            && found.overview@ == c.overview@ && opt_text(found.poster) == opt_text(c.poster)
            && found.release_date == c.release_date && texts_of(found.genres@) == texts_of(c.genres@)),
{
    match stored {
        None => UpsertPlan::Insert,
        Some(c) => if found.eq(c) {
            UpsertPlan::Keep { content_id: c.content_id, updated_at: c.updated_at }
        } else {
            UpsertPlan::Update { content_id: c.content_id }
        },
    }
}

/// The avatar of a user, or the error when the user has none.
pub fn avatar_or_not_found(avatar: Option<String>) -> (r: Result<String, ApiError>)
    ensures
        match avatar {
            Some(a) => r == Ok::<String, ApiError>(a),
            None => r matches Err(ApiError::NotFound(m)) && m@ == "avatar not found"@,
        },
{
    match avatar {
        Some(a) => Ok(a),
        None => Err(ApiError::not_found("avatar not found".to_owned())),
    }
}

} // verus!
