use cinematch::api::{
    authorization_header,
    auth_reply, avatar_or_not_found, bearer_token, check_session_join, check_session_start,
    check_user_input, cors_plan, include_requester, plan_upsert, recommendation_count,
    register_reply, reply_outcome, ApiError, AuthReply, Token, UpsertPlan, UserInput,
};
use cinematch::auth::{authenticate, authorization_outcome, user_of_pairs, AuthFailure, POLICY, USER_QUERY};
use cinematch::model::{ContentInput, ContentType};
use cinematch::params::RecommendationParametersInput;
use cinematch::provider::ProviderKey;

fn message(e: &ApiError) -> Option<String> {
    match e {
        ApiError::PreconditionFailed(m) | ApiError::BadRequest(m) | ApiError::Internal(m) | ApiError::NotFound(m) => {
            Some(m.clone())
        }
        ApiError::Unauthorized => None,
    }
}

fn user(name: &str, password: &str) -> UserInput {
    UserInput { username: name.to_string(), password: password.to_string(), avatar: None }
}

#[test]
fn user_input_lengths_are_checked() {
    assert!(check_user_input(&user("bob", "secret")).is_ok());
    let e = check_user_input(&user("b", "secret")).err().unwrap();
    assert_eq!(e.status(), 412);
    assert_eq!(message(&e).unwrap(), "username is too short");
    assert_eq!(message(&check_user_input(&user(&"x".repeat(33), "secret")).err().unwrap()).unwrap(), "username is too long");
    assert!(check_user_input(&user(&"x".repeat(32), "secret")).is_ok());
    assert_eq!(message(&check_user_input(&user("bob", "abc")).err().unwrap()).unwrap(), "password is too short");
    assert_eq!(message(&check_user_input(&user("bob", &"p".repeat(129))).err().unwrap()).unwrap(), "password is too long");
    // lengths are in bytes: one two-byte character is enough for a username
    assert!(check_user_input(&user("é", "secret")).is_ok());
}

#[test]
fn auth_service_replies_are_read_by_status() {
    assert_eq!(register_reply(200), AuthReply::Token);
    assert_eq!(register_reply(201), AuthReply::Token);
    assert_eq!(register_reply(400), AuthReply::BadRequest);
    assert_eq!(register_reply(401), AuthReply::Failure);
    assert_eq!(register_reply(500), AuthReply::Failure);
    assert_eq!(auth_reply(401), AuthReply::Unauthorized);
    assert_eq!(auth_reply(299), AuthReply::Token);
    assert_eq!(auth_reply(300), AuthReply::Failure);
}

#[test]
fn reply_outcomes_become_errors() {
    let ok = reply_outcome(AuthReply::Token, Some(Token { token: "t".to_string() }), None);
    assert_eq!(ok.ok().unwrap().token, "t");
    let e = reply_outcome(AuthReply::Token, None, None).err().unwrap();
    assert_eq!((e.status(), message(&e).unwrap()), (500, "unable to parse auth api token".to_string()));
    let e = reply_outcome(AuthReply::BadRequest, None, Some("taken".to_string())).err().unwrap();
    assert_eq!((e.status(), message(&e).unwrap()), (400, "taken".to_string()));
    let e = reply_outcome(AuthReply::BadRequest, None, None).err().unwrap();
    assert_eq!(message(&e).unwrap(), "Bad request");
    assert_eq!(reply_outcome(AuthReply::Unauthorized, None, None).err().unwrap().status(), 401);
    let e = reply_outcome(AuthReply::Failure, None, None).err().unwrap();
    assert_eq!(message(&e).unwrap(), "auth api is having a seizure...");
}

#[test]
fn bearer_prefix_is_stripped() {
    assert_eq!(bearer_token("Bearer abc"), Some("abc".to_string()));
    assert_eq!(bearer_token("Bearer "), Some(String::new()));
    assert_eq!(bearer_token("bearer abc"), None);
    assert_eq!(bearer_token("Basic abc"), None);
    assert_eq!(bearer_token(""), None);
}

#[test]
fn cors_headers_for_preflight_and_others() {
    let p = cors_plan(true);
    assert!(p.status_ok);
    assert_eq!(
        p.headers,
        vec![
            ("access-control-allow-methods", "GET,POST,PUT,DELETE,OPTIONS"),
            ("access-control-allow-headers", "*"),
            ("access-control-max-age", "86400"),
            ("access-control-allow-origin", "*"),
        ]
    );
    let p = cors_plan(false);
    assert!(!p.status_ok);
    assert_eq!(p.headers, vec![("access-control-allow-origin", "*")]);
}

#[test]
fn session_start_needs_two_users_with_owner() {
    assert!(check_session_start(&vec![1, 2], 1).is_ok());
    assert_eq!(message(&check_session_start(&vec![1], 1).err().unwrap()).unwrap(), "not enough users");
    assert_eq!(message(&check_session_start(&vec![2, 3], 1).err().unwrap()).unwrap(), "owner must be among the participants");
}

#[test]
fn session_join_needs_invitation() {
    let p = vec![1, 2];
    assert!(check_session_join(Some(&p), 2).is_ok());
    assert_eq!(message(&check_session_join(Some(&p), 3).err().unwrap()).unwrap(), "user is not invited to the session");
    assert_eq!(message(&check_session_join(None, 3).err().unwrap()).unwrap(), "session does not exist");
}

#[test]
fn requester_is_added_once() {
    let mut p = RecommendationParametersInput {
        users_input: vec![1],
        not_seen_by: vec![5],
        disable_content_type_filter: true,
        content_type: ContentType::Show,
        disable_genre_filter: true,
        genres: vec![],
    };
    include_requester(&mut p, 5);
    assert_eq!(p.users_input, vec![1, 5]);
    assert_eq!(p.not_seen_by, vec![5]);
    include_requester(&mut p, 5);
    assert_eq!(p.users_input, vec![1, 5]);
}

#[test]
fn at_most_a_hundred_recommendations() {
    assert_eq!(recommendation_count(3), 3);
    assert_eq!(recommendation_count(100), 100);
    assert_eq!(recommendation_count(250), 100);
}

#[test]
fn search_results_are_upserted() {
    let found = ContentInput {
        provider_id: ProviderKey::TMDB("m|1".to_string()),
        content_type: ContentType::Movie,
        title: "T".to_string(),
        overview: "O".to_string(),
        poster: None,
        release_date: None,
        genres: vec![],
    };
    assert_eq!(plan_upsert(&found, None), UpsertPlan::Insert);
    let same = ContentInput { title: "T".to_string(), ..found_copy(&found) }.hydrate(9, 77);
    assert_eq!(plan_upsert(&found, Some(&same)), UpsertPlan::Keep { content_id: 9, updated_at: 77 });
    let changed = ContentInput { title: "U".to_string(), ..found_copy(&found) }.hydrate(9, 77);
    assert_eq!(plan_upsert(&found, Some(&changed)), UpsertPlan::Update { content_id: 9 });
}

fn found_copy(c: &ContentInput) -> ContentInput {
    ContentInput {
        provider_id: ProviderKey::TMDB(c.provider_id.id().clone()),
        content_type: c.content_type,
        title: c.title.clone(),
        overview: c.overview.clone(),
        poster: c.poster.clone(),
        release_date: c.release_date,
        genres: c.genres.clone(),
    }
}

#[test]
fn missing_avatar_is_not_found() {
    assert_eq!(avatar_or_not_found(Some("img".to_string())).ok(), Some("img".to_string()));
    let e = avatar_or_not_found(None).err().unwrap();
    assert_eq!((e.status(), message(&e).unwrap()), (404, "avatar not found".to_string()));
}

#[test]
fn uuids_parse_to_numbers() {
    let pairs = vec![("00000000-0000-0000-0000-00000000002a".to_string(), "bob".to_string())];
    assert_eq!(user_of_pairs(pairs).ok().unwrap().user, 42);
    let pairs = vec![("not a uuid".to_string(), "bob".to_string())];
    assert!(matches!(user_of_pairs(pairs), Err(AuthFailure::BadUserId)));
}

#[test]
fn requests_without_valid_token_are_refused() {
    let key = biscuit_auth::KeyPair::new().public().to_bytes();
    assert_eq!(authenticate(None, &key).err(), Some(AuthFailure::Unauthorized));
    assert_eq!(authenticate(Some("Basic x"), &key).err(), Some(AuthFailure::Unauthorized));
    assert_eq!(authenticate(Some("Bearer garbage"), &key).err(), Some(AuthFailure::Unauthorized));
}

#[test]
fn whole_header_is_not_taken_for_the_token() {
    let root = biscuit_auth::KeyPair::new();
    let t = token_with(&root, &["user(\"00000000-0000-0000-0000-000000000007\")", "username(\"bob\")"]);
    // the token verifies only once the `Bearer ` prefix is taken off
    assert_eq!(authenticate(Some(&t), &root.public().to_bytes()).err(), Some(AuthFailure::Unauthorized));
    assert_eq!(authenticate(Some(&format!("bearer {t}")), &root.public().to_bytes()).err(), Some(AuthFailure::Unauthorized));
    assert!(authenticate(Some(&format!("Bearer {t}")), &root.public().to_bytes()).is_ok());
}

#[test]
fn key_bytes_that_are_no_key_refuse_every_token() {
    let root = biscuit_auth::KeyPair::new();
    let t = token_with(&root, &["user(\"00000000-0000-0000-0000-000000000007\")", "username(\"bob\")"]);
    let mut bad = root.public().to_bytes();
    bad[0] ^= 1;
    assert_eq!(authenticate(Some(&format!("Bearer {t}")), &bad).err(), Some(AuthFailure::Unauthorized));
}

fn token_with(root: &biscuit_auth::KeyPair, facts: &[&str]) -> String {
    let mut builder = biscuit_auth::Biscuit::builder();
    for f in facts {
        builder.add_fact(*f).unwrap();
    }
    builder.build(root).unwrap().to_base64().unwrap()
}

#[test]
fn valid_token_names_the_user() {
    let root = biscuit_auth::KeyPair::new();
    let t = token_with(&root, &["user(\"00000000-0000-0000-0000-000000000007\")", "username(\"bob\")"]);
    let ctx = authenticate(Some(&format!("Bearer {t}")), &root.public().to_bytes()).ok().unwrap();
    assert_eq!(ctx.user, 7);
    assert_eq!(ctx.username, "bob");
}

#[test]
fn token_from_other_key_is_refused() {
    let root = biscuit_auth::KeyPair::new();
    let other = biscuit_auth::KeyPair::new();
    let t = token_with(&root, &["user(\"00000000-0000-0000-0000-000000000007\")", "username(\"bob\")"]);
    assert_eq!(authenticate(Some(&format!("Bearer {t}")), &other.public().to_bytes()).err(), Some(AuthFailure::Unauthorized));
}

#[test]
fn token_without_user_is_refused_and_without_name_is_broken() {
    let root = biscuit_auth::KeyPair::new();
    let t = token_with(&root, &["username(\"bob\")"]);
    assert_eq!(authenticate(Some(&format!("Bearer {t}")), &root.public().to_bytes()).err(), Some(AuthFailure::Unauthorized));
    let t = token_with(&root, &["user(\"00000000-0000-0000-0000-000000000007\")"]);
    assert_eq!(authenticate(Some(&format!("Bearer {t}")), &root.public().to_bytes()).err(), Some(AuthFailure::NoUserFacts));
    let t = token_with(&root, &["user(\"seven\")", "username(\"bob\")"]);
    assert_eq!(authenticate(Some(&format!("Bearer {t}")), &root.public().to_bytes()).err(), Some(AuthFailure::BadUserId));
}

#[test]
fn bearer_header_carries_token_back() {
    assert_eq!(authorization_header("abc"), "Bearer abc");
    assert_eq!(bearer_token(&authorization_header("xyz")), Some("xyz".to_string()));
}

#[test]
fn user_comes_from_last_pair_found() {
    let id = "67e55044-10b1-426f-9247-bb680e5fe0c8";
    let pairs = vec![
        ("not-a-uuid".to_string(), "first".to_string()),
        (id.to_string(), "alice".to_string()),
    ];
    let ctx = user_of_pairs(pairs).ok().unwrap();
    assert_eq!(ctx.user, 0x67e55044_10b1_426f_9247_bb680e5fe0c8u128);
    assert_eq!(ctx.username, "alice");
}

#[test]
fn missing_or_malformed_user_is_refused() {
    assert!(matches!(user_of_pairs(vec![]), Err(AuthFailure::NoUserFacts)));
    let pairs = vec![("67e55044-10b1-426f-9247-bb680e5fe0c8".to_string(), "a".to_string()), ("nope".to_string(), "b".to_string())];
    assert!(matches!(user_of_pairs(pairs), Err(AuthFailure::BadUserId)));
}

#[test]
fn authorization_outcomes_map_to_failures() {
    assert!(matches!(authorization_outcome(Err(biscuit_auth::error::Token::InternalError)), Err(AuthFailure::Unauthorized)));
    assert!(matches!(authorization_outcome(Ok(Err(biscuit_auth::error::Token::InternalError))), Err(AuthFailure::NoUserFacts)));
    assert!(matches!(authorization_outcome(Ok(Ok(vec![]))), Err(AuthFailure::NoUserFacts)));
    let pairs = vec![("00000000-0000-0000-0000-000000000009".to_string(), "eve".to_string())];
    let ctx = authorization_outcome(Ok(Ok(pairs))).ok().unwrap();
    assert_eq!((ctx.user, ctx.username.as_str()), (9, "eve"));
}

#[test]
fn policy_and_query_are_the_documented_ones() {
    assert_eq!(POLICY, "allow if user($u);");
    assert_eq!(USER_QUERY, "data($id, $username) <- user($id), username($username)");
}

#[test]
fn token_refused_by_a_check_is_unauthorized() {
    let root = biscuit_auth::KeyPair::new();
    let mut builder = biscuit_auth::Biscuit::builder();
    builder.add_fact("user(\"00000000-0000-0000-0000-000000000007\")").unwrap();
    builder.add_fact("username(\"bob\")").unwrap();
    builder.add_check("check if admin(true)").unwrap();
    let t = builder.build(&root).unwrap().to_base64().unwrap();
    assert_eq!(authenticate(Some(&format!("Bearer {t}")), &root.public().to_bytes()).err(), Some(AuthFailure::Unauthorized));
}
