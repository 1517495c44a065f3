use cinematch::model::{ContentType, Date};
use cinematch::provider::{
    genre_list_path, genres_of, into_content, merge_genres, needs_genre_update, next_page, parse_tmdb_id,
    read_results,
    tmdb_kind_is_known, ProviderKey, TmdbResult,
};
use cinematch::text::{decimal_string, join_strings, split};
use std::collections::BTreeMap;

fn key_id(k: &ProviderKey) -> String {
    match k {
        ProviderKey::TMDB(id) => id.clone(),
    }
}

#[test]
fn provider_key_parses_tmdb_key() {
    let k = ProviderKey::from_str("tmdb:m|550").ok().unwrap();
    assert_eq!(key_id(&k), "m|550");
    assert_eq!(k.id(), "m|550");
}

#[test]
fn provider_key_without_id_is_refused() {
    assert_eq!(ProviderKey::from_str("tmdb").err(), Some("no id"));
    assert_eq!(ProviderKey::from_str("").err(), Some("no id"));
}

#[test]
fn provider_key_of_unknown_provider_is_refused() {
    assert_eq!(ProviderKey::from_str("imdb:tt1").err(), Some("unknown provider"));
    assert_eq!(ProviderKey::from_str(":1").err(), Some("unknown provider"));
}

#[test]
fn provider_key_ignores_text_after_second_colon() {
    let k = ProviderKey::from_str("tmdb:1:2").ok().unwrap();
    assert_eq!(key_id(&k), "1");
    let k = ProviderKey::from_str("tmdb:").ok().unwrap();
    assert_eq!(key_id(&k), "");
}

#[test]
fn provider_key_text_round_trips() {
    let k = ProviderKey::TMDB("s|1399".to_string());
    assert_eq!(k.to_string(), "tmdb:s|1399");
    let back = ProviderKey::from_str(&k.to_string()).ok().unwrap();
    assert_eq!(key_id(&back), "s|1399");
}

#[test]
fn tmdb_id_gives_number_and_path() {
    assert_eq!(parse_tmdb_id("m|550"), Ok(("550".to_string(), "movie")));
    assert_eq!(parse_tmdb_id("s|1399"), Ok(("1399".to_string(), "tv")));
    assert_eq!(parse_tmdb_id("m"), Err("Invalid TMDB ID"));
    assert_eq!(parse_tmdb_id("s|1|2"), Ok(("1".to_string(), "tv")));
}

#[test]
fn tmdb_kind_must_be_movie_or_show() {
    assert!(tmdb_kind_is_known("m|1"));
    assert!(tmdb_kind_is_known("s"));
    assert!(!tmdb_kind_is_known("x|1"));
    assert!(!tmdb_kind_is_known("movie|1"));
}

#[test]
fn next_page_stops_at_last_page() {
    assert_eq!(next_page(1, Some(3)), Some(2));
    assert_eq!(next_page(3, Some(3)), None);
    assert_eq!(next_page(1, None), None);
    assert_eq!(next_page(1, Some(0)), None);
}

#[test]
fn split_follows_str_split() {
    assert_eq!(split("Action & Adventure", " & "), vec!["Action", "Adventure"]);
    assert_eq!(split("Drama", " & "), vec!["Drama"]);
    assert_eq!(split("", ":"), vec![""]);
    assert_eq!(split("a:", ":"), vec!["a", ""]);
    assert_eq!(split("a::b", ":"), vec!["a", "", "b"]);
    assert_eq!(split("aaa", "aa"), vec!["", "a"]);
    assert_eq!(split("héllo|wörld", "|"), vec!["héllo", "wörld"]);
}

#[test]
fn decimal_string_renders_numbers() {
    assert_eq!(decimal_string(0), "0");
    assert_eq!(decimal_string(7), "7");
    assert_eq!(decimal_string(10), "10");
    assert_eq!(decimal_string(1234567890), "1234567890");
    assert_eq!(decimal_string(u128::MAX), u128::MAX.to_string());
}

#[test]
fn join_strings_puts_separator_between() {
    let v = vec!["a".to_string(), "b".to_string(), "c".to_string()];
    assert_eq!(join_strings(&v, "|"), "a|b|c");
    assert_eq!(join_strings(&vec![], "|"), "");
    assert_eq!(join_strings(&vec!["x".to_string()], "|"), "x");
}

fn genre_table() -> BTreeMap<usize, String> {
    let mut g = BTreeMap::new();
    g.insert(28, "Action".to_string());
    g.insert(10759, "Action & Adventure".to_string());
    g.insert(18, "Drama".to_string());
    g
}

#[test]
fn genres_split_and_skip_unknown_ids() {
    let g = genre_table();
    assert_eq!(genres_of(&vec![10759, 99, 18], &g), vec!["Action", "Adventure", "Drama"]);
    assert_eq!(genres_of(&vec![], &g), Vec::<String>::new());
}

fn result(media: &str) -> TmdbResult {
    TmdbResult {
        id: 550,
        title: "Fight Club".to_string(),
        overview: Some("A ticking-time-bomb insomniac...".to_string()),
        poster_path: Some("/poster.jpg".to_string()),
        media_type: media.to_string(),
        genre_ids: Some(vec![18, 28]),
        release_date: Some("1999-10-15".to_string()),
    }
}

#[test]
fn movie_result_becomes_content() {
    let c = into_content(result("movie"), &genre_table()).unwrap().ok().unwrap();
    assert_eq!(c.content_type, ContentType::Movie);
    assert_eq!(c.provider_id.to_string(), "tmdb:m|550");
    assert_eq!(c.title, "Fight Club");
    assert_eq!(c.poster, Some("https://image.tmdb.org/t/p/w500/poster.jpg".to_string()));
    assert_eq!(c.release_date, Some(Date { year: 1999, month: 10, day: 15 }));
    assert_eq!(c.genres, vec!["Drama", "Action"]);
}

#[test]
fn tv_result_becomes_show() {
    let mut r = result("tv");
    r.poster_path = None;
    r.release_date = Some("not a date".to_string());
    let c = into_content(r, &genre_table()).unwrap().ok().unwrap();
    assert_eq!(c.content_type, ContentType::Show);
    assert_eq!(c.provider_id.to_string(), "tmdb:s|550");
    assert_eq!(c.poster, None);
    assert_eq!(c.release_date, None);
}

#[test]
fn person_result_is_skipped() {
    assert!(into_content(result("person"), &genre_table()).is_none());
}

#[test]
fn incomplete_results_are_errors() {
    let mut r = result("movie");
    r.overview = None;
    assert_eq!(into_content(r, &genre_table()).unwrap().err(), Some("ResponseResult should have an overview"));
    let mut r = result("movie");
    r.release_date = None;
    assert_eq!(into_content(r, &genre_table()).unwrap().err(), Some("ResponseResult should have a release date"));
    let mut r = result("tv");
    r.genre_ids = None;
    assert_eq!(into_content(r, &genre_table()).unwrap().err(), Some("ResponseResult should have genre ids"));
}

#[test]
fn unknown_genre_asks_for_update() {
    let g = genre_table();
    assert!(!needs_genre_update(&vec![result("movie")], &g));
    let mut r = result("movie");
    r.genre_ids = Some(vec![18, 12]);
    assert!(needs_genre_update(&vec![result("movie"), r], &g));
    let mut r = result("movie");
    r.genre_ids = None;
    assert!(!needs_genre_update(&vec![r], &g));
}

#[test]
fn dates_parse_as_iso() {
    let released = |date: &str| {
        let mut r = result("movie");
        r.release_date = Some(date.to_string());
        into_content(r, &genre_table()).unwrap().ok().unwrap().release_date
    };
    assert_eq!(released("2024-02-29"), Some(Date { year: 2024, month: 2, day: 29 }));
    assert_eq!(released("2023-02-29"), None);
    assert_eq!(released(""), None);
}

#[test]
fn joining_split_fields_gives_text_back() {
    for s in ["a|b|c", "", "|", "x||y|", "no separator"] {
        assert_eq!(join_strings(&split(s, "|"), "|"), s);
    }
}

#[test]
fn key_with_single_colon_is_its_own_text() {
    let s = "tmdb:m|42";
    let k = ProviderKey::from_str(s).ok().unwrap();
    assert_eq!(k.to_string(), s);
}

#[test]
fn genre_lists_merge_into_table() {
    let mut g = genre_table();
    merge_genres(&mut g, vec![(28, "Action!".to_string()), (99, "Documentary".to_string()), (99, "Docs".to_string())]);
    assert_eq!(g.get(&28).unwrap(), "Action!");
    assert_eq!(g.get(&99).unwrap(), "Docs");
    assert_eq!(g.get(&18).unwrap(), "Drama");
    assert_eq!(genre_list_path(ContentType::Movie), "movie");
    assert_eq!(genre_list_path(ContentType::Show), "tv");
}

#[test]
fn result_list_skips_other_media_and_keeps_order() {
    let mut show = result("tv");
    show.id = 1399;
    let list = vec![result("movie"), result("person"), show];
    let contents = read_results(list, &genre_table()).ok().unwrap();
    assert_eq!(contents.len(), 2);
    assert_eq!(contents[0].provider_id.to_string(), "tmdb:m|550");
    assert_eq!(contents[1].provider_id.to_string(), "tmdb:s|1399");
    assert_eq!(read_results(vec![], &genre_table()).ok().unwrap().len(), 0);
}

#[test]
fn result_list_is_refused_by_first_incomplete_result() {
    let mut no_date = result("movie");
    no_date.release_date = None;
    let mut no_overview = result("tv");
    no_overview.overview = None;
    let list = vec![result("person"), result("movie"), no_date, no_overview];
    assert_eq!(read_results(list, &genre_table()).err(), Some("ResponseResult should have a release date"));
}
