//! The content catalogue: content types, content as stored, as shown and as
//! received from a provider.
use vstd::prelude::*;

use crate::clock::{is_still_before, now_utc, span_fits, still_before};
use crate::provider::{key_text, parse_key, ProviderKey};
use crate::text::texts_of;

verus! {

/// The kind of a piece of content.
#[derive(Debug, Copy, Clone, PartialEq, Eq, Structural)]
pub enum ContentType {
    Movie,
    Show,
}

impl ContentType {
    /// The lowercase name under which the content type is stored.
    pub open spec fn spec_name(self) -> Seq<char> {
        match self {
            ContentType::Movie => "movie"@,
            ContentType::Show => "show"@,
        }
    }

    /// The lowercase name under which the content type is stored.
    pub fn name(&self) -> (s: &'static str)
        ensures
            s@ == self.spec_name(),
    {
        match self {
            ContentType::Movie => "movie",
            ContentType::Show => "show",
        }
    }
}

/// A calendar date.
#[derive(Debug, Copy, Clone, PartialEq, Eq, Structural)]
pub struct Date {
    pub year: i32,
    pub month: u32,
    pub day: u32,
}

/// The views of an optional text.
pub open spec fn opt_text(o: Option<String>) -> Option<Seq<char>> {
    match o {
        Some(s) => Some(s@),
        None => None,
    }
}

/// Whether two optional texts are equal.
pub fn opt_text_eq(a: &Option<String>, b: &Option<String>) -> (r: bool)
    ensures
        r == (opt_text(*a) == opt_text(*b)),
{
    match (a, b) {
        (Some(x), Some(y)) => *x == *y,
        (None, None) => true,
        _ => false,
    }
}

/// Whether two optional dates are equal.
pub fn opt_date_eq(a: &Option<Date>, b: &Option<Date>) -> (r: bool)
    ensures
        r == (*a == *b),
{
    match (a, b) {
        (Some(x), Some(y)) => x.year == y.year && x.month == y.month && x.day == y.day,
        (None, None) => true,
        _ => false,
    }
}

/// Whether two lists of texts are equal.
pub fn texts_eq(a: &Vec<String>, b: &Vec<String>) -> (r: bool)
    ensures
        r == (texts_of(a@) == texts_of(b@)),
{
    if a.len() != b.len() {
        proof {
            assert(texts_of(a@).len() != texts_of(b@).len());
        }
        return false;
    }
    let mut i: usize = 0;
    while i < a.len()
        invariant
            a@.len() == b@.len(),
            i <= a@.len(),
            forall|j: int| 0 <= j < i ==> a@[j]@ == b@[j]@,
        decreases a@.len() - i,
    {
        if a[i] != b[i] {
            proof {
                assert(texts_of(a@)[i as int] != texts_of(b@)[i as int]);
            }
            return false;
        }
        i = i + 1;
    }
    proof {
        assert(texts_of(a@) =~= texts_of(b@));
    }
    true
}

/// A piece of content as stored in the catalogue.
pub struct Content {
    pub content_id: u128,
    pub provider_id: String,
    /// Last update, in microseconds since the Unix epoch.
    pub updated_at: i64,
    pub content_type: ContentType,
    pub title: String,
    pub overview: String,
    pub poster: Option<String>,
    pub release_date: Option<Date>,
    pub genres: Vec<String>,
}

impl Content {
    /// Whether the content's last update, moved by a time to live of
    /// `ttl_secs` seconds and `ttl_nanos` nanoseconds, is still after `now`
    /// (`now_secs` seconds since the epoch and `now_nanos` past them).
    pub fn is_expired_at(&self, ttl_secs: u64, ttl_nanos: u32, now_secs: i64, now_nanos: u32) -> (b: bool)
        requires
            span_fits(self.updated_at, ttl_secs, ttl_nanos),
        ensures
            b == still_before(self.updated_at, ttl_secs, ttl_nanos, now_secs, now_nanos),
    {
        is_still_before(self.updated_at, ttl_secs, ttl_nanos, now_secs, now_nanos)
    }

    /// Whether the content's last update, moved by a time to live of
    /// `ttl_secs` seconds and `ttl_nanos` nanoseconds, is still after the
    /// time the system clock reads.
    pub fn is_expired(&self, ttl_secs: u64, ttl_nanos: u32) -> (b: bool)
        requires
            span_fits(self.updated_at, ttl_secs, ttl_nanos),
        ensures
            exists|now_secs: i64, now_nanos: u32| b == still_before(
                self.updated_at,
                ttl_secs,
                ttl_nanos,
                now_secs,
                now_nanos,
            ),
    {
        let (now_secs, now_nanos) = now_utc();
        self.is_expired_at(ttl_secs, ttl_nanos, now_secs, now_nanos)
    }

    /// The provider key that the content's provider id names.
    pub fn provider_info(&self) -> (r: Result<ProviderKey, &'static str>)
        ensures
            match (r, parse_key(self.provider_id@)) {
                (Ok(k), Ok(id)) => k.spec_id() == id,
                (Err(e), Err(m)) => e@ == m,
                _ => false,
            },
    {
        ProviderKey::from_str(self.provider_id.as_str())
    }
}

/// A piece of content as shown to users.
pub struct ContentView {
    pub content_id: u128,
    pub content_type: ContentType,
    pub title: String,
    pub overview: String,
    pub poster: Option<String>,
    pub release_date: Option<Date>,
    pub genres: Vec<String>,
}

impl From<Content> for ContentView {
    /// The view of a piece of content: all but its provider id and update
    /// time.
    fn from(value: Content) -> (v: ContentView) {
        ContentView {
            content_id: value.content_id,
            content_type: value.content_type,
            title: value.title,
            overview: value.overview,
            poster: value.poster,
            release_date: value.release_date,
            genres: value.genres,
        }
    }
}

impl vstd::std_specs::convert::FromSpecImpl<Content> for ContentView {
    open spec fn obeys_from_spec() -> bool {
        true
    }

    open spec fn from_spec(value: Content) -> ContentView {
        ContentView {
            content_id: value.content_id,
            content_type: value.content_type,
            title: value.title,
            overview: value.overview,
            poster: value.poster,
            release_date: value.release_date,
            genres: value.genres,
        }
    }
}

/// A piece of content as received from a provider, before it is stored.
pub struct ContentInput {
    pub provider_id: ProviderKey,
    pub content_type: ContentType,
    pub title: String,
    pub overview: String,
    pub poster: Option<String>,
    pub release_date: Option<Date>,
    pub genres: Vec<String>,
}

impl ContentInput {
    /// The stored content, once the catalogue gave it an id and an update
    /// time; it holds what the input holds, so the two compare equal.
    pub fn hydrate(self, content_id: u128, updated_at: i64) -> (c: Content)
        ensures
            c.content_id == content_id,
            c.provider_id@ == key_text(self.provider_id.spec_id()),
            c.updated_at == updated_at,
            c.content_type == self.content_type,
            c.title == self.title,
            c.overview == self.overview,
            c.poster == self.poster,
            c.release_date == self.release_date,
            c.genres == self.genres,
            self.same_as(&c),
    {
        let provider_id = self.provider_id.to_string();
        Content {
            content_id,
            provider_id,
            updated_at,
            content_type: self.content_type,
            title: self.title,
            overview: self.overview,
            poster: self.poster,
            release_date: self.release_date,
            genres: self.genres,
        }
    }

    /// Whether the input holds what the stored content holds: same provider
    /// key text, type, title, overview, poster, release date and genres.
    pub open spec fn same_as(&self, other: &Content) -> bool {
        &&& key_text(self.provider_id.spec_id()) == other.provider_id@
        &&& self.content_type == other.content_type
        &&& self.title@ == other.title@
        &&& self.overview@ == other.overview@
        &&& opt_text(self.poster) == opt_text(other.poster)
        &&& self.release_date == other.release_date
        &&& texts_of(self.genres@) == texts_of(other.genres@)
    }

}

impl PartialEq<Content> for ContentInput {
    /// Whether the input holds what the stored content holds.
    fn eq(&self, other: &Content) -> (r: bool) {
        let key = self.provider_id.to_string();
        key == other.provider_id && self.content_type == other.content_type && self.title
            == other.title && self.overview == other.overview && opt_text_eq(
            &self.poster,
            &other.poster,
        ) && opt_date_eq(&self.release_date, &other.release_date) && texts_eq(
            &self.genres,
            &other.genres,
        )
    }
}

impl vstd::std_specs::cmp::PartialEqSpecImpl<Content> for ContentInput {
    open spec fn obeys_eq_spec() -> bool {
        true
    }

    open spec fn eq_spec(&self, other: &Content) -> bool {
        self.same_as(other)
    }
}

} // verus!
