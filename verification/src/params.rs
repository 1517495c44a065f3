//! Recommendation parameters and their fingerprint, by which computed
//! recommendations are found again.
use vstd::prelude::*;
use vstd::utf8::encode_utf8;
use sha2::Digest;

use crate::model::ContentType;
use crate::order::{id_leq, sort_ids, sort_texts, text_leq};
use crate::text::{decimal, decimal_string, joined, join_strings, texts_of};

verus! {

/// What SHA-256 gives for a message.
pub uninterp spec fn spec_sha256(data: Seq<u8>) -> Seq<u8>;

/// The SHA-256 digest of `data`.
///
/// Calls `<sha2::Sha256 as Digest>::digest` and returns the digest as an
/// array. The result is named: the same bytes give the same digest; nothing
/// more is claimed of the hash here.
#[verifier::external_body]
fn sha256(data: &[u8]) -> (d: [u8; 32])
    ensures
        d@ == spec_sha256(data@),
{
    sha2::Sha256::digest(data).into()
}

/// What users want recommendations for.
#[derive(Clone)]
pub struct RecommendationParametersInput {
    pub users_input: Vec<u128>,
    pub not_seen_by: Vec<u128>,
    pub disable_content_type_filter: bool,
    pub content_type: ContentType,
    pub disable_genre_filter: bool,
    pub genres: Vec<String>,
}

/// Recommendation parameters under the id of their computed list.
pub struct RecommendationParameters {
    pub recommendation_id: u128,
    pub users_input: Vec<u128>,
    pub not_seen_by: Vec<u128>,
    pub disable_content_type_filter: bool,
    pub content_type: ContentType,
    pub disable_genre_filter: bool,
    pub genres: Vec<String>,
}

/// The text of a list of ids: their decimal numbers joined by `|`.
pub open spec fn ids_text(ids: Seq<u128>) -> Seq<char> {
    joined(ids.map_values(|x: u128| decimal(x as nat)), "|"@)
}

/// The ids in increasing order.
pub open spec fn sorted_ids(ids: Seq<u128>) -> Seq<u128> {
    ids.sort_by(|a: u128, b: u128| id_leq(a, b))
}

/// The texts in the order of `String` comparison.
pub open spec fn sorted_texts(t: Seq<Seq<char>>) -> Seq<Seq<char>> {
    t.sort_by(|a: Seq<char>, b: Seq<char>| text_leq(a, b))
}

/// The byte of a flag.
pub open spec fn flag_byte(b: bool) -> u8 {
    if b { 1 } else { 0 }
}

/// The bytes that identify a set of parameters: the users, the users that
/// must not have seen the content, the type filter and the genre filter,
/// each list in sorted order.
pub open spec fn fingerprint_message(
    users: Seq<u128>,
    not_seen_by: Seq<u128>,
    disable_content_type_filter: bool,
    content_type: ContentType,
    disable_genre_filter: bool,
    genres: Seq<Seq<char>>,
) -> Seq<u8> {
    encode_utf8(ids_text(sorted_ids(users))) + encode_utf8(ids_text(sorted_ids(not_seen_by)))
        + seq![flag_byte(disable_content_type_filter)] + encode_utf8(content_type.spec_name())
        + seq![flag_byte(disable_genre_filter)] + encode_utf8(joined(sorted_texts(genres), "|"@))
}

impl RecommendationParametersInput {
    /// The bytes that identify these parameters.
    pub open spec fn message(&self) -> Seq<u8> {
        fingerprint_message(
            self.users_input@,
            self.not_seen_by@,
            self.disable_content_type_filter,
            self.content_type,
            self.disable_genre_filter,
            texts_of(self.genres@),
        )
    }

    /// The fingerprint of the parameters: the SHA-256 digest of their
    /// message, in which the order of users and genres does not count.
    pub fn hash(&self) -> (h: [u8; 32])
        ensures
            h@ == spec_sha256(self.message()),
    {
        let data = self.message_bytes();
        sha256(data.as_slice())
    }

    /// The bytes that identify these parameters, computed.
    pub fn message_bytes(&self) -> (data: Vec<u8>)
        ensures
            data@ == self.message(),
    {
        let mut data: Vec<u8> = Vec::new();
        append_text(&mut data, &ids_string(&sort_ids(&self.users_input)));
        append_text(&mut data, &ids_string(&sort_ids(&self.not_seen_by)));
        data.push(if self.disable_content_type_filter { 1u8 } else { 0u8 });
        let name = self.content_type.name().to_owned();
        append_text(&mut data, &name);
        data.push(if self.disable_genre_filter { 1u8 } else { 0u8 });
        let genres = join_strings(&sort_texts(&self.genres), "|");
        append_text(&mut data, &genres);
        proof {
            reveal_strlit("|");
            assert(data@ =~= self.message());
        }
        data
    }

    /// The parameters under the id of their computed list.
    pub fn hydrate(self, recommendation_id: u128) -> (p: RecommendationParameters)
        ensures
            p.recommendation_id == recommendation_id,
            p.users_input == self.users_input,
            p.not_seen_by == self.not_seen_by,
            p.disable_content_type_filter == self.disable_content_type_filter,
            p.content_type == self.content_type,
            p.disable_genre_filter == self.disable_genre_filter,
            p.genres == self.genres,
    {
        RecommendationParameters {
            recommendation_id,
            users_input: self.users_input,
            not_seen_by: self.not_seen_by,
            disable_content_type_filter: self.disable_content_type_filter,
            content_type: self.content_type,
            disable_genre_filter: self.disable_genre_filter,
            genres: self.genres,
        }
    }
}

/// The text of a list of ids, computed.
fn ids_string(ids: &Vec<u128>) -> (s: String)
    ensures
        s@ == ids_text(ids@),
{
    let mut parts: Vec<String> = Vec::new();
    let mut i: usize = 0;
    while i < ids.len()
        invariant
            i <= ids@.len(),
            texts_of(parts@) == ids@.take(i as int).map_values(|x: u128| decimal(x as nat)),
        decreases ids@.len() - i,
    {
        let ghost before = parts@;
        parts.push(decimal_string(ids[i]));
        proof {
            assert(texts_of(parts@) =~= texts_of(before).push(decimal(ids@[i as int] as nat)));
            assert(ids@.take(i + 1).map_values(|x: u128| decimal(x as nat)) =~= ids@.take(
                i as int,
            ).map_values(|x: u128| decimal(x as nat)).push(decimal(ids@[i as int] as nat)));
        }
        i = i + 1;
    }
    proof {
        assert(ids@.take(i as int) =~= ids@);
    }
    join_strings(&parts, "|")
}

/// Appends the UTF-8 bytes of `s` to `data`.
fn append_text(data: &mut Vec<u8>, s: &String)
    ensures
        final(data)@ == old(data)@ + encode_utf8(s@),
{
    let bytes = s.as_str().as_bytes();
    let mut i: usize = 0;
    while i < bytes.len()
        invariant
            i <= bytes@.len(),
            bytes@ == encode_utf8(s@),
            data@ == old(data)@ + bytes@.take(i as int),
        decreases bytes@.len() - i,
    {
        data.push(bytes[i]);
        proof {
            assert(bytes@.take(i + 1) =~= bytes@.take(i as int).push(bytes@[i as int]));
        }
        i = i + 1;
    }
    proof {
        assert(bytes@.take(i as int) =~= bytes@);
    }
}

/// The genre bytes of a parameter set: its genres in `String` order, joined
/// by `|`, in UTF-8.
pub open spec fn genre_bytes(p: RecommendationParametersInput) -> Seq<u8> {
    encode_utf8(joined(sorted_texts(texts_of(p.genres@)), "|"@))
}

/// The message of a parameter set always ends with the genre filter's flag
/// byte followed by its genre bytes, whether the genre filter is on or off.
pub proof fn lemma_message_ends_with_genres(p: RecommendationParametersInput)
    ensures
        p.message().len() > genre_bytes(p).len(),
        p.message()[p.message().len() - genre_bytes(p).len() - 1] == (if p.disable_genre_filter {
            1u8
        } else {
            0u8
        }),
        p.message().skip(p.message().len() - genre_bytes(p).len()) == genre_bytes(p),
{
    let g = genre_bytes(p);
    let m = p.message();
    let pre = m.take(m.len() - g.len());
    assert(m =~= pre + g);
    assert(m.skip(m.len() - g.len()) =~= g);
}

/// Parameter sets that agree on everything but their genres, and whose
/// genres, sorted and joined by `|`, differ, have different messages, so
/// their recommendation lists are kept apart.
pub proof fn lemma_genres_tell_messages_apart(p: RecommendationParametersInput, q: RecommendationParametersInput)
    requires
        p.users_input@ == q.users_input@,
        p.not_seen_by@ == q.not_seen_by@,
        p.disable_content_type_filter == q.disable_content_type_filter,
        p.content_type == q.content_type,
        p.disable_genre_filter == q.disable_genre_filter,
        joined(sorted_texts(texts_of(p.genres@)), "|"@) != joined(sorted_texts(texts_of(q.genres@)), "|"@),
    ensures
        p.message() != q.message(),
{
    lemma_message_ends_with_genres(p);
    lemma_message_ends_with_genres(q);
    let gp = joined(sorted_texts(texts_of(p.genres@)), "|"@);
    let gq = joined(sorted_texts(texts_of(q.genres@)), "|"@);
    vstd::utf8::encode_utf8_decode_utf8(gp);
    vstd::utf8::encode_utf8_decode_utf8(gq);
    if p.message() == q.message() {
        let pre_p = p.message().len() - genre_bytes(p).len();
        let pre_q = q.message().len() - genre_bytes(q).len();
        // the parts before the genre bytes are the same text
        let head = p.message().take(pre_p);
        assert(head =~= q.message().take(pre_q)) by {
            let u = encode_utf8(ids_text(sorted_ids(p.users_input@))) + encode_utf8(ids_text(sorted_ids(p.not_seen_by@)))
                + seq![flag_byte(p.disable_content_type_filter)] + encode_utf8(p.content_type.spec_name())
                + seq![flag_byte(p.disable_genre_filter)];
            assert(p.message() =~= u + genre_bytes(p));
            assert(q.message() =~= u + genre_bytes(q));
            assert(head =~= u);
            assert(q.message().take(pre_q) =~= u);
        }
        assert(genre_bytes(p) == genre_bytes(q));
        assert(gp == gq);
    }
}

/// Parameters that differ only in the order of their users, of the users
/// that must not have seen the content, or of their genres have the same
/// fingerprint.
pub proof fn lemma_fingerprint_ignores_order(p: RecommendationParametersInput, q: RecommendationParametersInput)
    requires
        p.users_input@.to_multiset() == q.users_input@.to_multiset(),
        p.not_seen_by@.to_multiset() == q.not_seen_by@.to_multiset(),
        texts_of(p.genres@).to_multiset() == texts_of(q.genres@).to_multiset(),
        p.disable_content_type_filter == q.disable_content_type_filter,
        p.content_type == q.content_type,
        p.disable_genre_filter == q.disable_genre_filter,
    ensures
        p.message() == q.message(),
        spec_sha256(p.message()) == spec_sha256(q.message()),
{
    let il = |a: u128, b: u128| id_leq(a, b);
    let tl = |a: Seq<char>, b: Seq<char>| text_leq(a, b);
    crate::order::lemma_id_leq_total();
    crate::order::lemma_text_leq_total();
    p.users_input@.lemma_sort_by_ensures(il);
    q.users_input@.lemma_sort_by_ensures(il);
    vstd::seq_lib::lemma_sorted_unique(p.users_input@.sort_by(il), q.users_input@.sort_by(il), il);
    p.not_seen_by@.lemma_sort_by_ensures(il);
    q.not_seen_by@.lemma_sort_by_ensures(il);
    vstd::seq_lib::lemma_sorted_unique(p.not_seen_by@.sort_by(il), q.not_seen_by@.sort_by(il), il);
    texts_of(p.genres@).lemma_sort_by_ensures(tl);
    texts_of(q.genres@).lemma_sort_by_ensures(tl);
    vstd::seq_lib::lemma_sorted_unique(texts_of(p.genres@).sort_by(tl), texts_of(q.genres@).sort_by(tl), tl);
}

} // verus!
