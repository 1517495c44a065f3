//! Keys that identify content at a provider, and the rules that turn a
//! provider's search or recommendation results into content.
use vstd::prelude::*;
use vstd::string::StringExecFns;
use std::collections::BTreeMap;
use chrono::Datelike;

use crate::model::{ContentInput, ContentType, Date, opt_text};
use crate::text::{texts_of, decimal, decimal_string, split_on, joined, lemma_join_split, lemma_split_char_absent, lemma_split_char_around, lemma_split_nonempty, split, split_char};

verus! {

/// The identifier of a piece of content at a content provider.
pub enum ProviderKey {
    TMDB(String),
}

/// The fields of a key's text, separated by `:`.
pub open spec fn key_fields(s: Seq<char>) -> Seq<Seq<char>> {
    split_char(s, ':')
}

/// What parsing a key's text gives: the provider's id on success, the
/// error message otherwise.
pub open spec fn parse_key(s: Seq<char>) -> Result<Seq<char>, Seq<char>> {
    let f = key_fields(s);
    if f.len() < 2 {
        Err("no id"@)
    } else if f[0] == "tmdb"@ {
        Ok(f[1])
    } else {
        Err("unknown provider"@)
    }
}

/// The text of a TMDB key whose id is `id`.
pub open spec fn key_text(id: Seq<char>) -> Seq<char> {
    "tmdb"@ + seq![':'] + id
}

impl ProviderKey {
    /// The id at the provider.
    pub open spec fn spec_id(&self) -> Seq<char> {
        match self {
            ProviderKey::TMDB(id) => id@,
        }
    }

    /// Parses `provider:id`; the text after a second `:` is ignored.
    pub fn from_str(s: &str) -> (r: Result<ProviderKey, &'static str>)
        ensures
            match (r, parse_key(s@)) {
                (Ok(k), Ok(id)) => k.spec_id() == id,
                (Err(e), Err(m)) => e@ == m,
                _ => false,
            },
    {
        proof {
            reveal_strlit(":");
            assert(":"@ =~= seq![':']);
            lemma_split_nonempty(s@, seq![':']);
        }
        let fields = split(s, ":");
        proof {
            assert(fields@.len() == key_fields(s@).len());
            if fields@.len() >= 2 {
                assert(fields@[0]@ == key_fields(s@)[0]);
                assert(fields@[1]@ == key_fields(s@)[1]);
            }
        }
        if fields.len() < 2 {
            return Err("no id");
        }
        let tmdb = "tmdb".to_owned();
        if fields[0] == tmdb {
            Ok(ProviderKey::TMDB(fields[1].clone()))
        } else {
            Err("unknown provider")
        }
    }

    /// The key's text, `provider:id`.
    pub fn to_string(&self) -> (s: String)
        ensures
            s@ == key_text(self.spec_id()),
    {
        proof {
            reveal_strlit("tmdb:");
            assert("tmdb:"@ =~= "tmdb"@ + seq![':']) by {
                reveal_strlit("tmdb");
            }
        }
        match self {
            ProviderKey::TMDB(id) => {
                let mut s = "tmdb:".to_owned();
                s.append(id.as_str());
                s
            },
        }
    }

    /// The id at the provider.
    pub fn id(&self) -> (id: &String)
        ensures
            id@ == self.spec_id(),
    {
        match self {
            ProviderKey::TMDB(id) => id,
        }
    }
}

/// Rendering a key and parsing the text back gives the same key, for any id
/// without a `:`.
pub proof fn lemma_key_text_parses_back(id: Seq<char>)
    requires
        !id.contains(':'),
    ensures
        parse_key(key_text(id)) == Ok::<Seq<char>, Seq<char>>(id),
{
    reveal_strlit("tmdb");
    assert(!"tmdb"@.contains(':')) by {
        if "tmdb"@.contains(':') {
            let i = choose|i: int| 0 <= i < "tmdb"@.len() && "tmdb"@[i] == ':';
            assert(false);
        }
    }
    lemma_split_char_around("tmdb"@, ':', id);
    lemma_split_char_absent(id, ':');
}

/// A text that parses to a key and holds a single `:` is exactly the text
/// of that key.
pub proof fn lemma_parsed_key_text(s: Seq<char>)
    requires
        parse_key(s) is Ok,
        key_fields(s).len() == 2,
    ensures
        key_text(parse_key(s)->Ok_0) == s,
{
    let f = key_fields(s);
    lemma_join_split(s, seq![':']);
    assert(f.drop_first() =~= seq![f[1]]);
    assert(joined(f.drop_first(), seq![':']) == f[1]);
}

/// The fields of a TMDB id, separated by `|`: the media kind, then the
/// number.
pub open spec fn tmdb_id_fields(id: Seq<char>) -> Seq<Seq<char>> {
    split_char(id, '|')
}

/// Whether the media kind of a TMDB id is one the provider handles: `m` for
/// a movie, `s` for a show.
pub open spec fn tmdb_kind_known(id: Seq<char>) -> bool {
    tmdb_id_fields(id)[0] == "m"@ || tmdb_id_fields(id)[0] == "s"@
}

/// The path segment of the TMDB API for a media kind.
pub open spec fn tmdb_kind_path(kind: Seq<char>) -> Seq<char> {
    if kind == "m"@ {
        "movie"@
    } else {
        "tv"@
    }
}

/// Whether the media kind of a TMDB id is one the provider handles.
pub fn tmdb_kind_is_known(id: &str) -> (b: bool)
    ensures
        b == tmdb_kind_known(id@),
{
    proof {
        reveal_strlit("|");
        assert("|"@ =~= seq!['|']);
    }
    let fields = split(id, "|");
    proof {
        lemma_split_nonempty(id@, seq!['|']);
        assert(fields@[0]@ == tmdb_id_fields(id@)[0]);
    }
    let m = "m".to_owned();
    let s = "s".to_owned();
    fields[0] == m || fields[0] == s
}

/// Splits a TMDB id into its number and the API path segment of its media
/// kind; an id without a number is refused.
pub fn parse_tmdb_id(id: &str) -> (r: Result<(String, &'static str), &'static str>)
    requires
        tmdb_kind_known(id@),
    ensures
        tmdb_id_fields(id@).len() < 2 ==> r == Err::<(String, &'static str), &'static str>(
            "Invalid TMDB ID",
        ),
        tmdb_id_fields(id@).len() >= 2 ==> (r matches Ok((number, path)) && number@ == tmdb_id_fields(
            id@,
        )[1] && path@ == tmdb_kind_path(tmdb_id_fields(id@)[0])),
{
    proof {
        reveal_strlit("|");
        assert("|"@ =~= seq!['|']);
    }
    let fields = split(id, "|");
    proof {
        lemma_split_nonempty(id@, seq!['|']);
        assert(fields@[0]@ == tmdb_id_fields(id@)[0]);
        if fields@.len() >= 2 {
            assert(fields@[1]@ == tmdb_id_fields(id@)[1]);
        }
    }
    let m = "m".to_owned();
    let path = if fields[0] == m {
        "movie"
    } else {
        "tv"
    };
    if fields.len() < 2 {
        return Err("Invalid TMDB ID");
    }
    Ok((fields[1].clone(), path))
}

/// The next page of results to ask for, if the last page was not reached;
/// a response without a page count counts as having none.
pub fn next_page(page: usize, total_pages: Option<usize>) -> (next: Option<usize>)
    requires
        page < usize::MAX,
    ensures
        next == (if page < total_pages.unwrap_or(0) {
            Some((page + 1) as usize)
        } else {
            None::<usize>
        }),
{
    let total = match total_pages {
        Some(t) => t,
        None => 0,
    };
    if page < total {
        Some(page + 1)
    } else {
        None
    }
}

/// What the date parser gives for a text: the year, month and day of a
/// `YYYY-MM-DD` date, or nothing.
pub uninterp spec fn spec_parse_date(s: Seq<char>) -> Option<(i32, u32, u32)>;

/// Parses a `YYYY-MM-DD` date.
///
/// Calls `<chrono::NaiveDate as FromStr>::from_str` and reads the year,
/// month and day of the date it returns. The result is named: the same text
/// gives the same date; nothing more is claimed of the parser here.
#[verifier::external_body]
pub(crate) fn parse_date(s: &str) -> (d: Option<Date>)
    ensures
        match d {
            Some(d) => spec_parse_date(s@) == Some((d.year, d.month, d.day)),
            None => spec_parse_date(s@) is None,
        },
{
    match <chrono::NaiveDate as std::str::FromStr>::from_str(s) {
        Ok(date) => Some(Date { year: date.year(), month: date.month(), day: date.day() }),
        Err(_) => None,
    }
}

/// The date a parsed text stands for.
pub open spec fn parsed_date(s: Seq<char>) -> Option<Date> {
    match spec_parse_date(s) {
        Some((y, m, d)) => Some(Date { year: y, month: m, day: d }),
        None => None,
    }
}

/// One result of a TMDB search or recommendation list, as the content logic
/// reads it.
pub struct TmdbResult {
    pub id: usize,
    pub title: String,
    pub overview: Option<String>,
    pub poster_path: Option<String>,
    pub media_type: String,
    pub genre_ids: Option<Vec<usize>>,
    pub release_date: Option<String>,
}

/// The genre names that a genre id stands for: its name split on ` & `, or
/// nothing for an unknown id.
pub open spec fn genre_parts(id: usize, genres: Map<usize, String>) -> Seq<Seq<char>> {
    if genres.contains_key(id) {
        split_on(genres[id]@, " & "@)
    } else {
        Seq::empty()
    }
}

/// The genre names of a list of genre ids, in order.
pub open spec fn genre_names(ids: Seq<usize>, genres: Map<usize, String>) -> Seq<Seq<char>>
    decreases ids.len(),
{
    if ids.len() == 0 {
        Seq::empty()
    } else {
        genre_names(ids.drop_last(), genres) + genre_parts(ids.last(), genres)
    }
}

/// The genre names of a list of genre ids.
pub fn genres_of(ids: &Vec<usize>, genres: &BTreeMap<usize, String>) -> (names: Vec<String>)
    ensures
        texts_of(names@) == genre_names(ids@, genres@),
{
    broadcast use vstd::std_specs::btree::group_btree_axioms;
    let mut names: Vec<String> = Vec::new();
    let mut i: usize = 0;
    while i < ids.len()
        invariant
            i <= ids@.len(),
            texts_of(names@) == genre_names(ids@.take(i as int), genres@),
        decreases ids@.len() - i,
    {
        let id = ids[i];
        let ghost before = texts_of(names@);
        proof {
            assert(ids@.take(i + 1).drop_last() =~= ids@.take(i as int));
            assert(ids@.take(i + 1).last() == id);
        }
        match genres.get(&id) {
            Some(name) => {
                proof {
                    reveal_strlit(" & ");
                }
                let parts = split(name.as_str(), " & ");
                let mut k: usize = 0;
                while k < parts.len()
                    invariant
                        k <= parts@.len(),
                        texts_of(parts@) == genre_parts(id, genres@),
                        texts_of(names@) == before + texts_of(parts@).take(k as int),
                    decreases parts@.len() - k,
                {
                    let ghost prev = names@;
                    names.push(parts[k].clone());
                    proof {
                        assert(texts_of(names@) =~= texts_of(prev).push(parts@[k as int]@));
                        assert(texts_of(parts@).take(k + 1) =~= texts_of(parts@).take(k as int).push(parts@[k as int]@));
                        assert(texts_of(names@) =~= before + texts_of(parts@).take(k + 1));
                    }
                    k = k + 1;
                }
                proof {
                    assert(texts_of(parts@).take(k as int) =~= texts_of(parts@));
                }
            },
            None => {
                proof {
                    assert(before + genre_parts(id, genres@) =~= before);
                }
            },
        }
        i = i + 1;
    }
    proof {
        assert(ids@.take(i as int) =~= ids@);
    }
    names
}

/// The genre ids of a result, none when it has no list.
pub open spec fn result_genre_ids(r: TmdbResult) -> Seq<usize> {
    match r.genre_ids {
        Some(ids) => ids@,
        None => Seq::empty(),
    }
}

/// Whether some result names a genre id that the genre table lacks.
pub open spec fn has_unknown_genre(results: Seq<TmdbResult>, genres: Map<usize, String>) -> bool {
    exists|i: int, j: int|
        0 <= i < results.len() && 0 <= j < result_genre_ids(results[i]).len()
            && !genres.contains_key(#[trigger] result_genre_ids(results[i])[j])
}

/// Whether the genre table must be refreshed before the results can be read.
pub fn needs_genre_update(results: &Vec<TmdbResult>, genres: &BTreeMap<usize, String>) -> (b: bool)
    ensures
        b == has_unknown_genre(results@, genres@),
{
    broadcast use vstd::std_specs::btree::group_btree_axioms;
    let mut i: usize = 0;
    while i < results.len()
        invariant
            i <= results@.len(),
            forall|a: int, j: int|
                0 <= a < i && 0 <= j < result_genre_ids(results@[a]).len()
                    ==> genres@.contains_key(#[trigger] result_genre_ids(results@[a])[j]),
        decreases results@.len() - i,
    {
        match &results[i].genre_ids {
            Some(ids) => {
                proof {
                    assert(result_genre_ids(results@[i as int]) == ids@);
                }
                let mut j: usize = 0;
                while j < ids.len()
                    invariant
                        i < results@.len(),
                        result_genre_ids(results@[i as int]) == ids@,
                        forall|a: int, j: int|
                            0 <= a < i && 0 <= j < result_genre_ids(results@[a]).len()
                                ==> genres@.contains_key(#[trigger] result_genre_ids(results@[a])[j]),
                        j <= ids@.len(),
                        forall|k: int| 0 <= k < j ==> genres@.contains_key(#[trigger] ids@[k]),
                    decreases ids@.len() - j,
                {
                    if !genres.contains_key(&ids[j]) {
                        proof {
                            assert(result_genre_ids(results@[i as int])[j as int] == ids@[j as int]);
                        }
                        return true;
                    }
                    j = j + 1;
                }
                proof {
                    assert(result_genre_ids(results@[i as int]) == ids@);
                }
            },
            None => {},
        }
        i = i + 1;
    }
    false
}

/// The TMDB id of a result: its media kind and its number.
pub open spec fn tmdb_result_id(kind: ContentType, id: usize) -> Seq<char> {
    (if kind == ContentType::Movie { "m"@ } else { "s"@ }) + seq!['|'] + decimal(id as nat)
}

/// The poster address of a TMDB poster path.
pub open spec fn poster_url(path: Seq<char>) -> Seq<char> {
    "https://image.tmdb.org/t/p/w500"@ + path
}

/// What a TMDB result becomes: nothing for a media kind other than a movie
/// or a show, an error when the overview, the release date or the genre ids
/// are missing, and otherwise the content it describes.
pub open spec fn result_outcome(r: TmdbResult, genres: Map<usize, String>) -> Option<Result<(), Seq<char>>> {
    if r.media_type@ != "movie"@ && r.media_type@ != "tv"@ {
        None
    } else if r.overview is None {
        Some(Err("ResponseResult should have an overview"@))
    } else if r.release_date is None {
        Some(Err("ResponseResult should have a release date"@))
    } else if r.genre_ids is None {
        Some(Err("ResponseResult should have genre ids"@))
    } else {
        Some(Ok(()))
    }
}

/// Whether `c` is the content that the TMDB result `r` describes.
pub open spec fn describes(r: TmdbResult, genres: Map<usize, String>, c: ContentInput) -> bool {
    let kind = if r.media_type@ == "movie"@ { ContentType::Movie } else { ContentType::Show };
    &&& c.content_type == kind
    &&& c.provider_id.spec_id() == tmdb_result_id(kind, r.id)
    &&& c.title@ == r.title@
    &&& c.overview@ == r.overview->Some_0@
    &&& opt_text(c.poster) == (match r.poster_path {
        Some(p) => Some(poster_url(p@)),
        None => None,
    })
    &&& c.release_date == parsed_date(r.release_date->Some_0@)
    &&& texts_of(c.genres@) == genre_names(r.genre_ids->Some_0@, genres)
}

/// Turns a TMDB result into content.
pub fn into_content(r: TmdbResult, genres: &BTreeMap<usize, String>) -> (out: Option<
    Result<ContentInput, &'static str>,
>)
    ensures
        match (out, result_outcome(r, genres@)) {
            (None, None) => true,
            (Some(Err(e)), Some(Err(m))) => e@ == m,
            (Some(Ok(c)), Some(Ok(()))) => describes(r, genres@, c),
            _ => false,
        },
{
    let movie = "movie".to_owned();
    let tv = "tv".to_owned();
    let content_type = if r.media_type == movie {
        ContentType::Movie
    } else if r.media_type == tv {
        ContentType::Show
    } else {
        return None;
    };
    let overview = match r.overview {
        Some(o) => o,
        None => return Some(Err("ResponseResult should have an overview")),
    };
    let release_date = match r.release_date {
        Some(d) => d,
        None => return Some(Err("ResponseResult should have a release date")),
    };
    let genre_ids = match r.genre_ids {
        Some(g) => g,
        None => return Some(Err("ResponseResult should have genre ids")),
    };
    proof {
        reveal_strlit("m|");
        reveal_strlit("s|");
        reveal_strlit("m");
        reveal_strlit("s");
        assert("m|"@ =~= "m"@ + seq!['|']);
        assert("s|"@ =~= "s"@ + seq!['|']);
    }
    let mut id_text = match content_type {
        ContentType::Movie => "m|".to_owned(),
        ContentType::Show => "s|".to_owned(),
    };
    let number = decimal_string(r.id as u128);
    id_text.append(number.as_str());
    let poster = match r.poster_path {
        Some(p) => {
            let mut url = "https://image.tmdb.org/t/p/w500".to_owned();
            url.append(p.as_str());
            Some(url)
        },
        None => None,
    };
    let date = parse_date(release_date.as_str());
    let names = genres_of(&genre_ids, genres);
    Some(
        Ok(
            ContentInput {
                provider_id: ProviderKey::TMDB(id_text),
                content_type,
                title: r.title,
                overview,
                poster,
                release_date: date,
                genres: names,
            },
        ),
    )
}

/// Whether a result is read as content or as an error, rather than skipped.
pub open spec fn is_read(r: TmdbResult, genres: Map<usize, String>) -> bool {
    result_outcome(r, genres) is Some
}

/// Whether a result is refused with an error.
pub open spec fn is_refused(r: TmdbResult, genres: Map<usize, String>) -> bool {
    result_outcome(r, genres) matches Some(Err(_))
}

/// The results of a list that are read, in order.
pub open spec fn read_ones(rs: Seq<TmdbResult>, genres: Map<usize, String>) -> Seq<TmdbResult> {
    rs.filter(|r: TmdbResult| is_read(r, genres))
}

/// Turns a list of TMDB results into content: results of another media kind
/// are skipped, and the first result refused with an error refuses the
/// whole list.
pub fn read_results(results: Vec<TmdbResult>, genres: &BTreeMap<usize, String>) -> (r: Result<
    Vec<ContentInput>,
    &'static str,
>)
    ensures
        (forall|i: int| 0 <= i < results@.len() ==> !is_refused(#[trigger] results@[i], genres@))
            <==> r is Ok,
        r matches Ok(v) ==> v@.len() == read_ones(results@, genres@).len() && forall|k: int|
            0 <= k < v@.len() ==> describes(read_ones(results@, genres@)[k], genres@, #[trigger] v@[k]),
        r matches Err(e) ==> exists|i: int|
            0 <= i < results@.len() && result_outcome(#[trigger] results@[i], genres@) == Some(
                Err::<(), Seq<char>>(e@),
            ) && forall|j: int| 0 <= j < i ==> !is_refused(#[trigger] results@[j], genres@),
{
    let ghost all = results@;
    let ghost g = genres@;
    let ghost pred = |x: TmdbResult| is_read(x, g);
    let mut out: Vec<ContentInput> = Vec::new();
    for x in it: results.into_iter()
        invariant
            it.seq() == all,
            g == genres@,
            pred == (|x: TmdbResult| is_read(x, g)),
            out@.len() == all.take(it.index() as int).filter(pred).len(),
            forall|k: int|
                0 <= k < out@.len() ==> describes(
                    all.take(it.index() as int).filter(pred)[k],
                    g,
                    #[trigger] out@[k],
                ),
            forall|j: int| 0 <= j < it.index() ==> !is_refused(#[trigger] all[j], g),
    {
        let ghost i = it.index() as int;
        let ghost before = all.take(i);
        proof {
            assert(all[i] == x);
            assert(all.take(i + 1) =~= before.push(x));
            reveal_with_fuel(Seq::<_>::filter, 1);
            assert(all.take(i + 1).drop_last() =~= before);
        }
        match into_content(x, genres) {
            None => {
                proof {
                    assert(all.take(i + 1).filter(pred) =~= before.filter(pred));
                }
            },
            Some(Err(e)) => {
                proof {
                    assert(result_outcome(all[i], g) == Some(Err::<(), Seq<char>>(e@)));
                }
                return Err(e);
            },
            Some(Ok(c)) => {
                let ghost prev = out@;
                out.push(c);
                proof {
                    assert(all.take(i + 1).filter(pred) =~= before.filter(pred).push(x));
                    assert forall|k: int| 0 <= k < out@.len() implies describes(
                        all.take(i + 1).filter(pred)[k],
                        g,
                        #[trigger] out@[k],
                    ) by {
                        if k < prev.len() {
                            assert(out@[k] == prev[k]);
                        }
                    }
                }
            },
        }
    }
    proof {
        assert(all.take(all.len() as int) =~= all);
    }
    Ok(out)
}

/// The path segment of the TMDB API for the genres of a content type.
pub fn genre_list_path(content_type: ContentType) -> (p: &'static str)
    ensures
        p@ == (if content_type == ContentType::Movie {
            "movie"@
        } else {
            "tv"@
        }),
{
    match content_type {
        ContentType::Movie => "movie",
        ContentType::Show => "tv",
    }
}

/// Adds a genre list to the genre table, later entries winning.
pub fn merge_genres(genres: &mut BTreeMap<usize, String>, list: Vec<(usize, String)>)
    ensures
        forall|id: usize|
            #![trigger final(genres)@.contains_key(id)]
            final(genres)@.contains_key(id) <==> (old(genres)@.contains_key(id) || exists|i: int|
                0 <= i < list@.len() && list@[i].0 == id),
        forall|i: int|
            0 <= i < list@.len() && (forall|j: int| i < j < list@.len() ==> list@[j].0 != list@[i].0)
                ==> final(genres)@[list@[i].0] == list@[i].1,
        forall|id: usize|
            old(genres)@.contains_key(id) && (forall|i: int| 0 <= i < list@.len() ==> list@[i].0 != id)
                ==> final(genres)@[id] == old(genres)@[id],
{
    broadcast use vstd::std_specs::btree::group_btree_axioms;
    let ghost all = list@;
    let ghost start = genres@;
    for entry in it: list.into_iter()
        invariant
            it.seq() == all,
            start == old(genres)@,
            forall|id: usize|
                #![trigger genres@.contains_key(id)]
                genres@.contains_key(id) <==> (start.contains_key(id) || exists|i: int|
                    0 <= i < it.index() && all[i].0 == id),
            forall|i: int|
                0 <= i < it.index() && (forall|j: int| i < j < it.index() ==> all[j].0 != all[i].0)
                    ==> genres@[all[i].0] == all[i].1,
            forall|id: usize|
                start.contains_key(id) && (forall|i: int| 0 <= i < it.index() ==> all[i].0 != id)
                    ==> genres@[id] == start[id],
    {
        let (id, name) = entry;
        genres.insert(id, name);
        proof {
            let k = it.index() as int;
            assert(all[k] == entry);
            assert forall|x: usize| #![trigger genres@.contains_key(x)]
                genres@.contains_key(x) <==> (start.contains_key(x) || exists|i: int| 0 <= i < k + 1 && all[i].0 == x) by {
                if x == id {
                    assert(all[k].0 == x);
                }
            }
        }
    }
}

} // verus!
