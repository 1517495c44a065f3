use cinematch::clock::{is_due, is_still_before};
use cinematch::model::{Content, ContentInput, ContentType, ContentView, Date};
use cinematch::order::{sort_ids, sort_texts, text_le};
use cinematch::params::RecommendationParametersInput;
use cinematch::provider::ProviderKey;
use sha2::Digest;

fn input() -> ContentInput {
    ContentInput {
        provider_id: ProviderKey::TMDB("m|550".to_string()),
        content_type: ContentType::Movie,
        title: "Fight Club".to_string(),
        overview: "Overview".to_string(),
        poster: Some("p".to_string()),
        release_date: Some(Date { year: 1999, month: 10, day: 15 }),
        genres: vec!["Drama".to_string()],
    }
}

#[test]
fn hydrate_names_the_stored_content() {
    let c = input().hydrate(42, 1_000);
    assert_eq!(c.content_id, 42);
    assert_eq!(c.provider_id, "tmdb:m|550");
    assert_eq!(c.updated_at, 1_000);
    assert_eq!(c.title, "Fight Club");
    assert_eq!(c.genres, vec!["Drama"]);
}

#[test]
fn input_equals_its_hydrated_content() {
    let c = input().hydrate(42, 1_000);
    assert!(input() == c);
    let mut other = input();
    other.genres.push("Crime".to_string());
    assert!(other != c);
    let mut other = input();
    other.poster = None;
    assert!(other != c);
    let mut other = input();
    other.provider_id = ProviderKey::TMDB("m|551".to_string());
    assert!(other != c);
    let mut other = input();
    other.release_date = Some(Date { year: 1999, month: 10, day: 16 });
    assert!(other != c);
}

#[test]
fn content_view_drops_provider_and_time() {
    let c = input().hydrate(7, 5);
    let v: ContentView = c.into();
    assert_eq!(v.content_id, 7);
    assert_eq!(v.content_type, ContentType::Movie);
    assert_eq!(v.title, "Fight Club");
    assert_eq!(v.poster, Some("p".to_string()));
}

#[test]
fn content_expiry_compares_with_now() {
    let c: Content = input().hydrate(1, 0);
    // updated at 0, ttl 10 s: still after 9.999999999 s, not at 10 s
    assert!(c.is_expired_at(10, 0, 9, 999_999_999));
    assert!(!c.is_expired_at(10, 0, 10, 0));
    // a time to live below a second counts
    assert!(c.is_expired_at(0, 500_000_000, 0, 499_999_999));
    assert!(!c.is_expired_at(0, 500_000_000, 0, 500_000_000));
    // updated at 1 µs past the epoch
    let c: Content = input().hydrate(1, 1);
    assert!(c.is_expired_at(0, 1, 0, 1_000));
    assert!(!c.is_expired_at(0, 0, 0, 1_000));
    assert!(!c.is_expired(10, 0));
}

#[test]
fn content_provider_info_parses_key() {
    let c = input().hydrate(1, 0);
    assert!(c.provider_info().is_ok());
    let mut c = input().hydrate(1, 0);
    c.provider_id = "nothing".to_string();
    assert_eq!(c.provider_info().err(), Some("no id"));
}

#[test]
fn clock_comparisons() {
    assert!(is_still_before(0, 1, 0, 0, 999_999_999));
    assert!(!is_still_before(0, 1, 0, 1, 0));
    assert!(is_still_before(2, 0, 0, 0, 1_999));
    assert!(!is_still_before(2, 0, 0, 0, 2_000));
    assert!(is_due(0, 1, 1_000_001));
    assert!(!is_due(0, 1, 1_000_000));
    assert!(is_due(i64::MIN, u64::MAX, i64::MAX) == false);
}

#[test]
fn ids_and_texts_sort() {
    assert_eq!(sort_ids(&vec![3, 1, 2, 1]), vec![1, 1, 2, 3]);
    let v = vec!["b".to_string(), "a".to_string(), "ab".to_string(), "B".to_string()];
    assert_eq!(sort_texts(&v), vec!["B", "a", "ab", "b"]);
    assert!(text_le(&"a".to_string(), &"ab".to_string()));
    assert!(!text_le(&"b".to_string(), &"ab".to_string()));
    assert!(text_le(&"é".to_string(), &"ê".to_string()));
}

fn params(users: Vec<u128>, not_seen: Vec<u128>, genres: Vec<&str>) -> RecommendationParametersInput {
    RecommendationParametersInput {
        users_input: users,
        not_seen_by: not_seen,
        disable_content_type_filter: false,
        content_type: ContentType::Movie,
        disable_genre_filter: true,
        genres: genres.into_iter().map(|g| g.to_string()).collect(),
    }
}

#[test]
fn fingerprint_is_sha256_of_sorted_fields() {
    let p = params(vec![20, 3], vec![7], vec!["b", "a"]);
    let mut message: Vec<u8> = Vec::new();
    message.extend_from_slice(b"3|20");
    message.extend_from_slice(b"7");
    message.push(0);
    message.extend_from_slice(b"movie");
    message.push(1);
    message.extend_from_slice(b"a|b");
    assert_eq!(p.message_bytes(), message);
    let expected: [u8; 32] = sha2::Sha256::digest(&message).into();
    assert_eq!(p.hash(), expected);
}

#[test]
fn fingerprint_message_of_empty_lists() {
    let mut p = params(vec![], vec![], vec![]);
    p.content_type = ContentType::Show;
    p.disable_content_type_filter = true;
    p.disable_genre_filter = false;
    assert_eq!(p.message_bytes(), vec![1u8, b's', b'h', b'o', b'w', 0u8]);
}

#[test]
fn fingerprint_ignores_order() {
    let p = params(vec![1, 2, 3], vec![4, 5], vec!["x", "y"]);
    let q = params(vec![3, 1, 2], vec![5, 4], vec!["y", "x"]);
    assert_eq!(p.hash(), q.hash());
}

#[test]
fn fingerprint_tells_parameters_apart() {
    let p = params(vec![1, 2], vec![], vec![]);
    let q = params(vec![1, 3], vec![], vec![]);
    assert_ne!(p.hash(), q.hash());
    let mut r = params(vec![1, 2], vec![], vec![]);
    r.content_type = ContentType::Show;
    assert_ne!(p.hash(), r.hash());
}

#[test]
fn hydrate_keeps_parameters() {
    let p = params(vec![1], vec![2], vec!["g"]).hydrate(99);
    assert_eq!(p.recommendation_id, 99);
    assert_eq!(p.users_input, vec![1]);
    assert_eq!(p.not_seen_by, vec![2]);
    assert_eq!(p.genres, vec!["g"]);
    assert!(p.disable_genre_filter);
}

#[test]
fn content_type_names() {
    assert_eq!(ContentType::Movie.name(), "movie");
    assert_eq!(ContentType::Show.name(), "show");
}
