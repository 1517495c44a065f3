//! The voting session: participants join, then vote on proposed movies one
//! after the other until all of them like the same one.
//!
//! The session reacts to one event at a time; `SessionState::step` turns the
//! state and an event into the next state and the messages to send. The
//! caller owns the channels: it performs the actions that a step returns.
use vstd::prelude::*;
use vstd::pervasive::VecAdditionalExecFns;
use std::collections::HashMap;
use std::collections::VecDeque;

verus! {

broadcast use {vstd::std_specs::hash::group_hash_axioms, vstd::std_specs::vecdeque::group_vec_dequeue_axioms};

/// What a participant sends to the session.
#[derive(Debug, Clone, Copy, PartialEq, Eq, Structural)]
pub enum MessageParticipantTask {
    /// Likes (`true`) or dislikes (`false`) the movie on screen.
    Vote(bool),
    /// Asks to start over.
    Restart,
}

/// What the session sends to participants.
pub enum MessageTaskParticipant {
    /// The result, once every participant liked the movie they voted on:
    /// the session names the movie proposed right after that one.
    Result(u128),
    UserJoined(u128),
    UserLeaved(u128),
    Restarted,
    /// Movies to show next.
    Content(Vec<u128>),
}

/// The meaning of a message to participants.
pub ghost enum Notice {
    Result(u128),
    UserJoined(u128),
    UserLeaved(u128),
    Restarted,
    Content(Seq<u128>),
}

impl MessageTaskParticipant {
    pub open spec fn notice(&self) -> Notice {
        match self {
            MessageTaskParticipant::Result(m) => Notice::Result(*m),
            MessageTaskParticipant::UserJoined(u) => Notice::UserJoined(*u),
            MessageTaskParticipant::UserLeaved(u) => Notice::UserLeaved(*u),
            MessageTaskParticipant::Restarted => Notice::Restarted,
            MessageTaskParticipant::Content(v) => Notice::Content(v@),
        }
    }
}

/// An event the session reacts to.
#[derive(Debug, Clone, Copy, PartialEq, Eq, Structural)]
pub enum SessionEvent {
    /// A user opened a connection to the session.
    Join(u128),
    /// A user's connection closed.
    Leave(u128),
    /// A connected user sent a message.
    Participant { user_id: u128, message: MessageParticipantTask },
}

/// What the caller must do after a step.
pub enum SessionAction {
    /// Keep the channel of the user that just joined, to send to it later.
    KeepSender(u128),
    /// Forget the channel of a user.
    DropSender(u128),
    /// Send to every connected participant.
    Broadcast(MessageTaskParticipant),
    /// Send to one participant, on the channel kept for it.
    SendTo(u128, MessageTaskParticipant),
    /// Send on the channel that came with the join event being handled.
    ReplyToJoiner(MessageTaskParticipant),
    /// The session is over: stop handling events.
    Stop,
}

/// The meaning of an action.
pub ghost enum Act {
    KeepSender(u128),
    DropSender(u128),
    Broadcast(Notice),
    SendTo(u128, Notice),
    ReplyToJoiner(Notice),
    Stop,
}

impl SessionAction {
    pub open spec fn act(&self) -> Act {
        match self {
            SessionAction::KeepSender(u) => Act::KeepSender(*u),
            SessionAction::DropSender(u) => Act::DropSender(*u),
            SessionAction::Broadcast(m) => Act::Broadcast(m.notice()),
            SessionAction::SendTo(u, m) => Act::SendTo(*u, m.notice()),
            SessionAction::ReplyToJoiner(m) => Act::ReplyToJoiner(m.notice()),
            SessionAction::Stop => Act::Stop,
        }
    }
}

/// The meanings of a list of actions.
pub open spec fn acts(v: Seq<SessionAction>) -> Seq<Act> {
    v.map_values(|a: SessionAction| a.act())
}

/// The abstract state of a session.
pub ghost struct SessionModel {
    /// How many participants were invited.
    pub participants: nat,
    /// The movies still proposed; the first one is at absolute position
    /// `global_position`.
    pub movies: Seq<u128>,
    /// The votes cast on each absolute position.
    pub votes: Seq<Map<u128, bool>>,
    /// Every user that joined, and whether it is connected now.
    pub connections: Map<u128, bool>,
    /// The absolute position of the next movie each voter sees.
    pub positions: Map<u128, usize>,
    /// How many movies were dropped from the front of `movies`.
    pub global_position: nat,
    /// How many restarts were asked for.
    pub restart_demands: nat,
}

/// Whether every invited participant has joined at least once: then votes
/// count, before that only joins and leaves do.
pub open spec fn voting(m: SessionModel) -> bool {
    m.connections.dom().len() == m.participants
}

/// `m` with the movies `ids` appended, each with no vote yet.
pub open spec fn with_movies(m: SessionModel, ids: Seq<u128>) -> SessionModel {
    SessionModel {
        movies: m.movies + ids,
        votes: m.votes + Seq::new(ids.len(), |i: int| Map::<u128, bool>::empty()),
        ..m
    }
}

/// The first two movies, as a message.
pub open spec fn first_two(m: SessionModel) -> Notice {
    Notice::Content(seq![m.movies[0], m.movies[1]])
}

/// Whether every value of a map is `b`.
pub open spec fn all_values(m: Map<u128, bool>, b: bool) -> bool {
    forall|k: u128| m.contains_key(k) ==> m[k] == b
}

/// A join while not everyone joined yet.
pub open spec fn join_gathering(m: SessionModel, u: u128, fresh: Seq<u128>) -> (SessionModel, Seq<Act>) {
    let m1 = SessionModel {
        connections: m.connections.insert(u, true),
        positions: m.positions.insert(u, 0usize),
        ..m
    };
    let a1 = seq![Act::KeepSender(u), Act::Broadcast(Notice::UserJoined(u))];
    if voting(m1) {
        let m2 = with_movies(m1, fresh.take(2));
        (m2, a1.push(Act::Broadcast(first_two(m2))))
    } else {
        (m1, a1)
    }
}

/// A leave while not everyone joined yet.
pub open spec fn leave_gathering(m: SessionModel, u: u128) -> (SessionModel, Seq<Act>) {
    let m1 = SessionModel { connections: m.connections.insert(u, false), ..m };
    let a1 = seq![Act::DropSender(u), Act::Broadcast(Notice::UserLeaved(u))];
    if all_values(m1.connections, false) {
        (m1, a1.push(Act::Stop))
    } else {
        (m1, a1)
    }
}

/// Whether a vote of `u` is recorded: `u` has a position and votes exist
/// there.
pub open spec fn vote_counts(m: SessionModel, u: u128) -> bool {
    m.positions.contains_key(u) && m.positions[u] < m.votes.len()
}

/// The state once the vote `v` of `u` is recorded and `u` moved on.
pub open spec fn ballot_cast(m: SessionModel, u: u128, v: bool) -> SessionModel {
    let p = m.positions[u] as int;
    SessionModel {
        votes: m.votes.update(p, m.votes[p].insert(u, v)),
        positions: m.positions.insert(u, (p + 1) as usize),
        ..m
    }
}

/// Whether the ballot at `p` holds a vote from every participant.
pub open spec fn ballot_full(m: SessionModel, p: int) -> bool {
    m.votes[p].dom().len() == m.participants
}

/// Whether the vote just cast completes a unanimous ballot and a movie is
/// proposed right after the one voted on: a match.
pub open spec fn is_match(m: SessionModel, u: u128, v: bool) -> bool {
    let p = m.positions[u] as int;
    let m1 = ballot_cast(m, u, v);
    &&& ballot_full(m1, p)
    &&& all_values(m1.votes[p], true)
    &&& p + 1 - m.global_position < m.movies.len()
}

/// The state after a vote that is no match: a full ballot with a dislike
/// drops the first proposed movie.
pub open spec fn after_no_match(m: SessionModel, u: u128, v: bool) -> SessionModel {
    let p = m.positions[u] as int;
    let m1 = ballot_cast(m, u, v);
    if ballot_full(m1, p) && !all_values(m1.votes[p], true) {
        SessionModel {
            movies: if m1.movies.len() > 0 { m1.movies.drop_first() } else { m1.movies },
            global_position: m1.global_position + 1,
            ..m1
        }
    } else {
        m1
    }
}

/// Where, in the proposed movies, the voter's next movie is, once no match.
pub open spec fn next_index(m: SessionModel, u: u128, v: bool) -> int {
    let m2 = after_no_match(m, u, v);
    m2.positions[u] - m2.global_position
}

/// Whether a vote with no match needs a new movie: the voter reached the
/// last one proposed.
pub open spec fn vote_needs_movie(m: SessionModel, u: u128, v: bool) -> bool {
    let m2 = after_no_match(m, u, v);
    m2.movies.len() - 1 == next_index(m, u, v)
}

/// A vote once everyone joined.
pub open spec fn vote_voting(m: SessionModel, u: u128, v: bool, fresh: Seq<u128>) -> (SessionModel, Seq<Act>) {
    if !vote_counts(m, u) {
        (m, Seq::empty())
    } else if is_match(m, u, v) {
        let p = m.positions[u] as int;
        (ballot_cast(m, u, v), seq![Act::Broadcast(Notice::Result(m.movies[p + 1 - m.global_position]))])
    } else {
        let m2 = after_no_match(m, u, v);
        let m3 = if vote_needs_movie(m, u, v) { with_movies(m2, fresh.take(1)) } else { m2 };
        let i = next_index(m, u, v);
        (m3, seq![Act::SendTo(u, Notice::Content(seq![m3.movies[i]]))])
    }
}

/// Every known voter back to the first position.
pub open spec fn positions_reset(p: Map<u128, usize>) -> Map<u128, usize> {
    Map::new(|k: u128| p.contains_key(k), |k: u128| 0usize)
}

/// A restart request once everyone joined: more than half of the
/// participants' worth of requests start the session over.
pub open spec fn restart_voting(m: SessionModel, fresh: Seq<u128>) -> (SessionModel, Seq<Act>) {
    let r = m.restart_demands + 1;
    if r > m.participants / 2 {
        let m1 = SessionModel {
            restart_demands: r,
            movies: Seq::empty(),
            global_position: 0,
            positions: positions_reset(m.positions),
            ..m
        };
        let m2 = with_movies(m1, fresh.take(2));
        (m2, seq![Act::Broadcast(Notice::Restarted), Act::Broadcast(first_two(m2))])
    } else {
        (SessionModel { restart_demands: r, ..m }, Seq::empty())
    }
}

/// A join once everyone joined: a voter gets its current movie back.
pub open spec fn join_voting(m: SessionModel, u: u128) -> (SessionModel, Seq<Act>) {
    let m1 = SessionModel { connections: m.connections.insert(u, true), ..m };
    let a1 = seq![Act::Broadcast(Notice::UserJoined(u))];
    if m.positions.contains_key(u) {
        (m1, a1.push(Act::ReplyToJoiner(Notice::Content(seq![m.movies[m.positions[u] - m.global_position]]))))
    } else {
        (m1, a1)
    }
}

/// A leave once everyone joined.
pub open spec fn leave_voting(m: SessionModel, u: u128) -> (SessionModel, Seq<Act>) {
    (SessionModel { connections: m.connections.insert(u, false), ..m }, seq![Act::Broadcast(Notice::UserLeaved(u))])
}

/// The next state and the actions for an event, given the new movies drawn
/// for it.
pub open spec fn next_state(m: SessionModel, e: SessionEvent, fresh: Seq<u128>) -> (SessionModel, Seq<Act>) {
    if !voting(m) {
        match e {
            SessionEvent::Join(u) => join_gathering(m, u, fresh),
            SessionEvent::Leave(u) => leave_gathering(m, u),
            SessionEvent::Participant { .. } => (m, Seq::empty()),
        }
    } else {
        match e {
            SessionEvent::Participant { user_id, message } => match message {
                MessageParticipantTask::Vote(v) => vote_voting(m, user_id, v, fresh),
                MessageParticipantTask::Restart => restart_voting(m, fresh),
            },
            SessionEvent::Join(u) => join_voting(m, u),
            SessionEvent::Leave(u) => leave_voting(m, u),
        }
    }
}

/// How many new movies an event draws.
pub open spec fn movies_needed(m: SessionModel, e: SessionEvent) -> nat {
    if !voting(m) {
        match e {
            SessionEvent::Join(u) => if voting(
                SessionModel { connections: m.connections.insert(u, true), ..m },
            ) {
                2
            } else {
                0
            },
            _ => 0,
        }
    } else {
        match e {
            SessionEvent::Participant { user_id, message } => match message {
                MessageParticipantTask::Vote(v) => if vote_counts(m, user_id) && !is_match(
                    m,
                    user_id,
                    v,
                ) && vote_needs_movie(m, user_id, v) {
                    1
                } else {
                    0
                },
                MessageParticipantTask::Restart => if m.restart_demands + 1 > m.participants / 2 {
                    2
                } else {
                    0
                },
            },
            _ => 0,
        }
    }
}

/// Whether a vote once everyone joined is handled: it fails where the
/// voter's next movie cannot be found.
pub open spec fn vote_defined(m: SessionModel, u: u128, v: bool) -> bool {
    vote_counts(m, u) ==> {
        let p = m.positions[u] as int;
        let m1 = ballot_cast(m, u, v);
        let unanimous = ballot_full(m1, p) && all_values(m1.votes[p], true);
        &&& unanimous ==> p + 1 >= m.global_position
        &&& !is_match(m, u, v) ==> {
            let m2 = after_no_match(m, u, v);
            let grows = vote_needs_movie(m, u, v);
            &&& m2.global_position <= usize::MAX
            &&& m2.movies.len() >= 1
            &&& next_index(m, u, v) >= 0
            &&& (grows || next_index(m, u, v) < m2.movies.len())
        }
    }
}

/// Whether an event is handled; the events on which it is not are those on
/// which the session would fail: a position before the first proposed
/// movie or past the last one, or a counter at its limit.
pub open spec fn handled(m: SessionModel, e: SessionEvent) -> bool {
    if !voting(m) {
        true
    } else {
        match e {
            SessionEvent::Participant { user_id, message } => match message {
                MessageParticipantTask::Vote(v) => vote_defined(m, user_id, v),
                MessageParticipantTask::Restart => m.restart_demands < usize::MAX,
            },
            SessionEvent::Join(u) => m.positions.contains_key(u) ==> (m.global_position
                <= m.positions[u] && m.positions[u] - m.global_position < m.movies.len()),
            SessionEvent::Leave(_) => true,
        }
    }
}

/// What a vote would do; see `SessionState::vote_outlook`.
struct VoteOutlook {
    pos: usize,
    full: bool,
    unanimous: bool,
    matched: bool,
    next_pos: u128,
    len_after: u128,
    global_after: u128,
}

/// The state of a voting session.
pub struct SessionState {
    participants: usize,
    movies: VecDeque<u128>,
    votes: Vec<HashMap<u128, bool>>,
    connections: HashMap<u128, bool>,
    positions: HashMap<u128, usize>,
    global_position: usize,
    restart_demands: usize,
}

impl SessionState {
    /// The abstract state.
    pub closed spec fn model(&self) -> SessionModel {
        SessionModel {
            participants: self.participants as nat,
            movies: self.movies@,
            votes: self.votes@.map_values(|b: HashMap<u128, bool>| b@),
            connections: self.connections@,
            positions: self.positions@,
            global_position: self.global_position as nat,
            restart_demands: self.restart_demands as nat,
        }
    }

    /// A session for `participants` invited users, where nobody joined yet.
    pub fn new(participants: usize) -> (s: SessionState)
        ensures
            s.model() == (SessionModel {
                participants: participants as nat,
                movies: Seq::empty(),
                votes: Seq::empty(),
                connections: Map::empty(),
                positions: Map::empty(),
                global_position: 0,
                restart_demands: 0,
            }),
    {
        let s = SessionState {
            participants,
            movies: VecDeque::new(),
            votes: Vec::new(),
            connections: HashMap::new(),
            positions: HashMap::new(),
            global_position: 0,
            restart_demands: 0,
        };
        proof {
            assert(s.model().votes =~= Seq::<Map<u128, bool>>::empty());
        }
        s
    }
}

/// Whether every value of a map is `b`, computed.
fn all_values_are(m: &HashMap<u128, bool>, b: bool) -> (r: bool)
    ensures
        r == all_values(m@, b),
{
    broadcast use vstd::seq_lib::group_seq_properties;
    for v in it: m.values()
        invariant
            it.seq().unref().to_set() == m@.values(),
            forall|j: int| 0 <= j < it.index() ==> *it.seq()[j] == b,
            it.index() == it.seq().len() ==> all_values(m@, b),
    {
        if *v != b {
            proof {
                let i = it.index() as int;
                assert(it.seq()[i] == v);
                assert(it.seq().unref()[i] == *v);
                assert(it.seq().unref().contains(*v));
                assert(m@.values().contains(*v));
                let k = choose|k: u128| m@.contains_key(k) && m@[k] == *v;
            }
            return false;
        }
        proof {
            assert forall|k: u128| it.index() + 1 == it.seq().len() && m@.contains_key(k) implies m@[k]
                == b by {
                assert(m@.values().contains(m@[k]));
                assert(it.seq().unref().contains(m@[k]));
                let j = choose|j: int| 0 <= j < it.seq().unref().len() && it.seq().unref()[j] == m@[k];
                if j < it.index() {
                    assert(*it.seq()[j] == b);
                } else {
                    assert(it.seq()[j] == v);
                }
            }
        }
    }
    true
}

/// Every key of `p` mapped to position zero.
fn reset_positions(p: &HashMap<u128, usize>) -> (r: HashMap<u128, usize>)
    ensures
        r@ == positions_reset(p@),
{
    broadcast use vstd::seq_lib::group_seq_properties;
    let mut r: HashMap<u128, usize> = HashMap::new();
    for k in it: p.keys()
        invariant
            it.seq().unref().to_set() == p@.dom(),
            forall|key: u128| r@.contains_key(key) ==> r@[key] == 0,
            r@.dom() == it.seq().unref().take(it.index() as int).to_set(),
            it.index() == it.seq().len() ==> r@ == positions_reset(p@),
    {
        r.insert(*k, 0);
        proof {
            let s = it.seq().unref();
            let i = it.index() as int;
            assert(s[i] == *k);
            assert(s.take(i + 1) =~= s.take(i).push(*k));
            assert forall|x: u128| #[trigger] s.take(i + 1).to_set().contains(x) == s.take(i).to_set().insert(*k).contains(x) by {
                if s.take(i + 1).contains(x) {
                    let j = choose|j: int| 0 <= j < i + 1 && #[trigger] s.take(i + 1)[j] == x;
                    if j < i {
                        assert(s.take(i)[j] == x);
                    }
                }
                if s.take(i).contains(x) {
                    let j = choose|j: int| 0 <= j < i && #[trigger] s.take(i)[j] == x;
                    assert(s.take(i + 1)[j] == x);
                }
                if x == *k {
                    assert(s.take(i + 1)[i] == x);
                }
            }
            assert(s.take(i + 1).to_set() =~= s.take(i).to_set().insert(*k));
            assert forall|key: u128| it.index() + 1 == it.seq().len() implies r@.contains_key(key)
                == p@.contains_key(key) by {
                assert(it.seq().unref().take(it.index() + 1) =~= it.seq().unref());
            }
            assert(it.index() + 1 == it.seq().len() ==> r@ =~= positions_reset(p@));
        }
    }
    r
}

impl SessionState {
    /// Appends the first `k` of `ids` to the proposed movies, each with an
    /// empty ballot.
    fn add_movies(&mut self, ids: &Vec<u128>, k: usize)
        requires
            k <= ids@.len(),
        ensures
            final(self).model() == with_movies(old(self).model(), ids@.take(k as int)),
    {
        let mut i: usize = 0;
        while i < k
            invariant
                k <= ids@.len(),
                i <= k,
                self.model() == with_movies(old(self).model(), ids@.take(i as int)),
            decreases k - i,
        {
            let ghost before = self.model();
            let ghost vs = self.votes@;
            self.movies.push_back(ids[i]);
            let empty: HashMap<u128, bool> = HashMap::new();
            self.votes.push(empty);
            proof {
                assert(self.votes@ == vs.push(empty));
                assert(self.model().votes =~= before.votes.push(Map::<u128, bool>::empty()));
                assert(Seq::new((i + 1) as nat, |j: int| Map::<u128, bool>::empty()) =~= Seq::new(
                    i as nat,
                    |j: int| Map::<u128, bool>::empty(),
                ).push(Map::<u128, bool>::empty()));
                assert(ids@.take(i + 1) =~= ids@.take(i as int).push(ids@[i as int]));
                assert(self.model().votes =~= with_movies(old(self).model(), ids@.take(i + 1)).votes);
                assert(self.model().movies =~= with_movies(old(self).model(), ids@.take(i + 1)).movies);
            }
            i = i + 1;
        }
    }

    fn first_two(&self) -> (c: MessageTaskParticipant)
        requires
            self.model().movies.len() >= 2,
        ensures
            c.notice() == first_two(self.model()),
    {
        let v = vec![self.movies[0], self.movies[1]];
        proof {
            assert(v@ =~= seq![self.model().movies[0], self.model().movies[1]]);
        }
        MessageTaskParticipant::Content(v)
    }

    fn one_movie(&self, i: usize) -> (c: MessageTaskParticipant)
        requires
            i < self.model().movies.len(),
        ensures
            c.notice() == Notice::Content(seq![self.model().movies[i as int]]),
    {
        let v = vec![self.movies[i]];
        proof {
            assert(v@ =~= seq![self.model().movies[i as int]]);
        }
        MessageTaskParticipant::Content(v)
    }
}

/// A fresh random movie id.
///
/// Calls `uuid::Uuid::new_v4` and reads it as a `u128`. Nothing is promised
/// of the value: it is random.
#[verifier::external_body]
fn new_movie_id() -> (id: u128) {
    uuid::Uuid::new_v4().as_u128()
}

/// `n` fresh random movie ids.
pub fn new_movie_ids(n: usize) -> (ids: Vec<u128>)
    ensures
        ids@.len() == n,
{
    let mut ids: Vec<u128> = Vec::new();
    let mut i: usize = 0;
    while i < n
        invariant
            i <= n,
            ids@.len() == i,
        decreases n - i,
    {
        ids.push(new_movie_id());
        i = i + 1;
    }
    ids
}

impl SessionState {
    fn join_gathering(&mut self, u: u128, fresh: &Vec<u128>) -> (actions: Vec<SessionAction>)
        requires
            !voting(old(self).model()),
            fresh@.len() == movies_needed(old(self).model(), SessionEvent::Join(u)),
        ensures
            (final(self).model(), acts(actions@)) == join_gathering(old(self).model(), u, fresh@),
    {
        self.connections.insert(u, true);
        self.positions.insert(u, 0);
        let mut actions = vec![
            SessionAction::KeepSender(u),
            SessionAction::Broadcast(MessageTaskParticipant::UserJoined(u)),
        ];
        proof {
            assert(acts(actions@) =~= seq![Act::KeepSender(u), Act::Broadcast(Notice::UserJoined(u))]);
        }
        if self.connections.len() == self.participants {
            self.add_movies(fresh, 2);
            let c = self.first_two();
            let ghost before = actions@;
            actions.push(SessionAction::Broadcast(c));
            proof {
                assert(acts(actions@) =~= acts(before).push(Act::Broadcast(c.notice())));
            }
        }
        actions
    }

    fn leave_gathering(&mut self, u: u128) -> (actions: Vec<SessionAction>)
        ensures
            (final(self).model(), acts(actions@)) == leave_gathering(old(self).model(), u),
    {
        self.connections.insert(u, false);
        let mut actions = vec![
            SessionAction::DropSender(u),
            SessionAction::Broadcast(MessageTaskParticipant::UserLeaved(u)),
        ];
        proof {
            assert(acts(actions@) =~= seq![Act::DropSender(u), Act::Broadcast(Notice::UserLeaved(u))]);
        }
        if all_values_are(&self.connections, false) {
            let ghost before = actions@;
            actions.push(SessionAction::Stop);
            proof {
                assert(acts(actions@) =~= acts(before).push(Act::Stop));
            }
        }
        actions
    }

    fn vote(&mut self, u: u128, v: bool, fresh: &Vec<u128>) -> (actions: Vec<SessionAction>)
        requires
            voting(old(self).model()),
            vote_defined(old(self).model(), u, v),
            fresh@.len() == movies_needed(
                old(self).model(),
                SessionEvent::Participant { user_id: u, message: MessageParticipantTask::Vote(v) },
            ),
        ensures
            (final(self).model(), acts(actions@)) == vote_voting(old(self).model(), u, v, fresh@),
    {
        let ghost m = self.model();
        let pos = match self.positions.get(&u) {
            Some(p) => *p,
            None => {
                proof {
                    assert(acts(Seq::<SessionAction>::empty()) =~= Seq::<Act>::empty());
                }
                return Vec::new();
            },
        };
        if pos >= self.votes.len() {
            proof {
                assert(acts(Seq::<SessionAction>::empty()) =~= Seq::<Act>::empty());
            }
            return Vec::new();
        }
        let (ballot, full, unanimous) = self.ballot_with(pos, u, v);
        let ghost ballot_view = ballot@;
        self.votes.set(pos, ballot);
        let next_pos = pos + 1;
        self.positions.insert(u, next_pos);
        proof {
            let m1 = ballot_cast(m, u, v);
            assert(self.model().votes =~= m1.votes);
            assert(self.model() == m1);
        }
        if unanimous {
            let idx = next_pos - self.global_position;
            if idx < self.movies.len() {
                let r = MessageTaskParticipant::Result(self.movies[idx]);
                let actions = vec![SessionAction::Broadcast(r)];
                proof {
                    assert(acts(actions@) =~= seq![Act::Broadcast(Notice::Result(m.movies[pos + 1 - m.global_position]))]);
                }
                return actions;
            }
        } else if full {
            self.movies.pop_front();
            self.global_position = self.global_position + 1;
        }
        proof {
            assert(self.model() == after_no_match(m, u, v));
        }
        let idx = next_pos - self.global_position;
        if self.movies.len() - 1 == idx {
            self.add_movies(fresh, 1);
        }
        let c = self.one_movie(idx);
        let actions = vec![SessionAction::SendTo(u, c)];
        proof {
            assert(acts(actions@) =~= seq![Act::SendTo(u, c.notice())]);
        }
        actions
    }

    fn restart(&mut self, fresh: &Vec<u128>) -> (actions: Vec<SessionAction>)
        requires
            voting(old(self).model()),
            old(self).model().restart_demands < usize::MAX,
            fresh@.len() == (if old(self).model().restart_demands + 1 > old(self).model().participants / 2 {
                2nat
            } else {
                0nat
            }),
        ensures
            (final(self).model(), acts(actions@)) == restart_voting(old(self).model(), fresh@),
    {
        self.restart_demands = self.restart_demands + 1;
        if self.restart_demands > self.participants / 2 {
            let mut actions = vec![SessionAction::Broadcast(MessageTaskParticipant::Restarted)];
            self.movies.clear();
            self.global_position = 0;
            self.positions = reset_positions(&self.positions);
            self.add_movies(fresh, 2);
            let c = self.first_two();
            actions.push(SessionAction::Broadcast(c));
            proof {
                assert(acts(actions@) =~= seq![Act::Broadcast(Notice::Restarted), Act::Broadcast(c.notice())]);
            }
            actions
        } else {
            let actions: Vec<SessionAction> = Vec::new();
            proof {
                assert(acts(actions@) =~= Seq::<Act>::empty());
            }
            actions
        }
    }

    fn join_voting(&mut self, u: u128) -> (actions: Vec<SessionAction>)
        requires
            voting(old(self).model()),
            handled(old(self).model(), SessionEvent::Join(u)),
        ensures
            (final(self).model(), acts(actions@)) == join_voting(old(self).model(), u),
    {
        let ghost m = self.model();
        self.connections.insert(u, true);
        let mut actions = vec![SessionAction::Broadcast(MessageTaskParticipant::UserJoined(u))];
        proof {
            assert(acts(actions@) =~= seq![Act::Broadcast(Notice::UserJoined(u))]);
        }
        match self.positions.get(&u) {
            Some(p) => {
                let c = self.one_movie(*p - self.global_position);
                let ghost before = actions@;
                actions.push(SessionAction::ReplyToJoiner(c));
                proof {
                    assert(acts(actions@) =~= acts(before).push(Act::ReplyToJoiner(c.notice())));
                }
            },
            None => {},
        }
        actions
    }

    fn leave_voting(&mut self, u: u128) -> (actions: Vec<SessionAction>)
        ensures
            (final(self).model(), acts(actions@)) == leave_voting(old(self).model(), u),
    {
        self.connections.insert(u, false);
        let actions = vec![SessionAction::Broadcast(MessageTaskParticipant::UserLeaved(u))];
        proof {
            assert(acts(actions@) =~= seq![Act::Broadcast(Notice::UserLeaved(u))]);
        }
        actions
    }
}

impl SessionState {
    /// Whether everyone invited has joined, so that votes count.
    pub fn is_voting(&self) -> (b: bool)
        ensures
            b == voting(self.model()),
    {
        self.connections.len() == self.participants
    }

    /// How many new movies `event` draws.
    pub fn movies_needed_for(&self, event: &SessionEvent) -> (n: usize)
        ensures
            n == movies_needed(self.model(), *event),
    {
        let m = Ghost(self.model());
        if !self.is_voting() {
            match event {
                SessionEvent::Join(u) => {
                    let joined = self.connections.contains_key(u);
                    proof {
                        let m1 = SessionModel { connections: m@.connections.insert(*u, true), ..m@ };
                        if joined {
                            assert(m1.connections.dom() =~= m@.connections.dom());
                        } else {
                            assert(m1.connections.dom() =~= m@.connections.dom().insert(*u));
                        }
                    }
                    let count: u128 = if joined {
                        self.connections.len() as u128
                    } else {
                        self.connections.len() as u128 + 1
                    };
                    if count == self.participants as u128 {
                        2
                    } else {
                        0
                    }
                },
                _ => 0,
            }
        } else {
            match event {
                SessionEvent::Participant { user_id, message } => match message {
                    MessageParticipantTask::Vote(v) => {
                        if self.vote_grows(*user_id, *v) {
                            1
                        } else {
                            0
                        }
                    },
                    MessageParticipantTask::Restart => {
                        if (self.restart_demands as u128) + 1 > (self.participants / 2) as u128 {
                            2
                        } else {
                            0
                        }
                    },
                },
                _ => 0,
            }
        }
    }

    /// Whether a vote of `u` would draw a new movie.
    fn vote_grows(&self, u: u128, v: bool) -> (b: bool)
        requires
            voting(self.model()),
        ensures
            b == (vote_counts(self.model(), u) && !is_match(self.model(), u, v) && vote_needs_movie(
                self.model(),
                u,
                v,
            )),
    {
        match self.vote_outlook(u, v) {
            None => false,
            Some(o) => !o.matched && o.len_after as i128 - 1 == o.next_pos as i128 - o.global_after as i128,
        }
    }

    /// The ballot at `pos`, the position of `u`, once the vote `v` of `u`
    /// is recorded, and whether it is then full and unanimous.
    fn ballot_with(&self, pos: usize, u: u128, v: bool) -> (r: (HashMap<u128, bool>, bool, bool))
        requires
            pos < self.model().votes.len(),
            self.model().positions.contains_key(u),
            self.model().positions[u] == pos,
        ensures
            ({
                let m1 = ballot_cast(self.model(), u, v);
                &&& r.0@ == m1.votes[pos as int]
                &&& r.1 == ballot_full(m1, pos as int)
                &&& r.2 == (r.1 && all_values(m1.votes[pos as int], true))
            }),
    {
        let mut ballot = self.votes[pos].clone();
        ballot.insert(u, v);
        let full = ballot.len() == self.participants;
        let unanimous = full && all_values_are(&ballot, true);
        proof {
            let m1 = ballot_cast(self.model(), u, v);
            assert(self.model().votes[pos as int] == self.votes@[pos as int]@);
            assert(m1.votes[pos as int] == ballot@);
        }
        (ballot, full, unanimous)
    }

    /// What a vote `v` of `u` would do, when it counts: where `u` stands,
    /// whether its ballot becomes full and unanimous, whether it is a
    /// match, and, where it is none, the voter's position, the proposed
    /// movies' count and the first movie's position afterwards.
    fn vote_outlook(&self, u: u128, v: bool) -> (r: Option<VoteOutlook>)
        ensures
            r is None <==> !vote_counts(self.model(), u),
            r matches Some(o) ==> {
                let m = self.model();
                let m1 = ballot_cast(m, u, v);
                let m2 = after_no_match(m, u, v);
                &&& o.pos == m.positions[u]
                &&& o.next_pos == o.pos + 1
                &&& o.next_pos <= usize::MAX
                &&& o.len_after <= usize::MAX
                &&& o.global_after <= usize::MAX + 1
                &&& o.full == ballot_full(m1, o.pos as int)
                &&& o.unanimous == (o.full && all_values(m1.votes[o.pos as int], true))
                &&& o.matched == is_match(m, u, v)
                &&& o.next_pos == m2.positions[u]
                &&& o.len_after == m2.movies.len()
                &&& o.global_after == m2.global_position
            },
    {
        let pos = match self.positions.get(&u) {
            Some(p) => *p,
            None => return None,
        };
        if pos >= self.votes.len() {
            return None;
        }
        let (_, full, unanimous) = self.ballot_with(pos, u, v);
        let next_pos = pos as u128 + 1;
        let g = self.global_position as u128;
        let len = self.movies.len() as u128;
        let matched = unanimous && (next_pos < g || next_pos - g < len);
        // after a full ballot with a dislike the first movie goes
        let (len_after, global_after) = if full && !unanimous {
            (if len > 0 { len - 1 } else { 0 }, g + 1)
        } else {
            (len, g)
        };
        Some(VoteOutlook { pos, full, unanimous, matched, next_pos, len_after, global_after })
    }

    /// Whether `event` is handled in this state; the caller must not step
    /// with an event that is not.
    pub fn handles(&self, event: &SessionEvent) -> (b: bool)
        ensures
            b == handled(self.model(), *event),
    {
        let ghost m = self.model();
        if !self.is_voting() {
            return true;
        }
        match event {
            SessionEvent::Participant { user_id, message } => match message {
                MessageParticipantTask::Vote(v) => {
                    let o = match self.vote_outlook(*user_id, *v) {
                        Some(o) => o,
                        None => return true,
                    };
                    if o.unanimous && o.next_pos < self.global_position as u128 {
                        return false;
                    }
                    if o.matched {
                        return true;
                    }
                    if o.full && !o.unanimous && self.global_position == usize::MAX {
                        return false;
                    }
                    if o.len_after < 1 || o.next_pos < o.global_after {
                        return false;
                    }
                    let idx = o.next_pos - o.global_after;
                    o.len_after - 1 == idx || idx < o.len_after
                },
                MessageParticipantTask::Restart => self.restart_demands < usize::MAX,
            },
            SessionEvent::Join(u) => match self.positions.get(u) {
                Some(p) => self.global_position <= *p && *p - self.global_position < self.movies.len(),
                None => true,
            },
            SessionEvent::Leave(_) => true,
        }
    }

    /// Handles `event`, with `fresh` as the ids of the movies it draws, and
    /// returns what the caller must do.
    pub fn step_with(&mut self, event: SessionEvent, fresh: Vec<u128>) -> (actions: Vec<SessionAction>)
        requires
            handled(old(self).model(), event),
            fresh@.len() == movies_needed(old(self).model(), event),
        ensures
            (final(self).model(), acts(actions@)) == next_state(old(self).model(), event, fresh@),
    {
        if !self.is_voting() {
            match event {
                SessionEvent::Join(u) => self.join_gathering(u, &fresh),
                SessionEvent::Leave(u) => self.leave_gathering(u),
                SessionEvent::Participant { .. } => {
                    let actions: Vec<SessionAction> = Vec::new();
                    proof {
                        assert(acts(actions@) =~= Seq::<Act>::empty());
                    }
                    actions
                },
            }
        } else {
            match event {
                SessionEvent::Participant { user_id, message } => match message {
                    MessageParticipantTask::Vote(v) => self.vote(user_id, v, &fresh),
                    MessageParticipantTask::Restart => self.restart(&fresh),
                },
                SessionEvent::Join(u) => self.join_voting(u),
                SessionEvent::Leave(u) => self.leave_voting(u),
            }
        }
    }

    /// Handles `event`, drawing fresh random ids for the movies it adds, and
    /// returns what the caller must do.
    pub fn step(&mut self, event: SessionEvent) -> (actions: Vec<SessionAction>)
        requires
            handled(old(self).model(), event),
        ensures
            exists|fresh: Seq<u128>|
                fresh.len() == movies_needed(old(self).model(), event) && (final(self).model(), acts(
                    actions@,
                )) == next_state(old(self).model(), event, fresh),
    {
        let n = self.movies_needed_for(&event);
        let fresh = new_movie_ids(n);
        let ghost f = fresh@;
        let actions = self.step_with(event, fresh);
        proof {
            assert(f.len() == movies_needed(old(self).model(), event));
        }
        actions
    }
}

/// A user that joined a session stays known to it: no event forgets a
/// user, and a known voter stays a known user.
pub proof fn lemma_users_are_kept(m: SessionModel, e: SessionEvent, fresh: Seq<u128>)
    requires
        m.positions.dom().subset_of(m.connections.dom()),
    ensures
        m.connections.dom().subset_of(next_state(m, e, fresh).0.connections.dom()),
        next_state(m, e, fresh).0.positions.dom().subset_of(next_state(m, e, fresh).0.connections.dom()),
{
}

/// Restart requests only add up, and ballots are never thrown away.
pub proof fn lemma_counters_grow(m: SessionModel, e: SessionEvent, fresh: Seq<u128>)
    ensures
        m.restart_demands <= next_state(m, e, fresh).0.restart_demands,
        m.votes.len() <= next_state(m, e, fresh).0.votes.len(),
        next_state(m, e, fresh).0.participants == m.participants,
{
}

/// Until every participant has joined, messages from participants change
/// nothing and send nothing.
pub proof fn lemma_no_vote_before_everyone_joined(m: SessionModel, user_id: u128, message: MessageParticipantTask, fresh: Seq<u128>)
    requires
        !voting(m),
    ensures
        next_state(m, SessionEvent::Participant { user_id, message }, fresh) == (m, Seq::<Act>::empty()),
{
}

/// A result is announced only when the vote just cast completes a ballot
/// where every participant liked the movie voted on; the movie announced is
/// the one proposed right after it.
pub proof fn lemma_result_needs_unanimity(m: SessionModel, e: SessionEvent, fresh: Seq<u128>, x: u128)
    requires
        next_state(m, e, fresh).1.contains(Act::Broadcast(Notice::Result(x))),
    ensures
        voting(m),
        e matches SessionEvent::Participant { user_id, message: MessageParticipantTask::Vote(v) } && {
            let p = m.positions[user_id] as int;
            let m1 = ballot_cast(m, user_id, v);
            &&& vote_counts(m, user_id)
            &&& ballot_full(m1, p)
            &&& all_values(m1.votes[p], true)
            &&& x == m.movies[p + 1 - m.global_position]
        },
{
    let acts = next_state(m, e, fresh).1;
    let i = choose|i: int| 0 <= i < acts.len() && acts[i] == Act::Broadcast(Notice::Result(x));
    if !voting(m) {
        match e {
            SessionEvent::Join(u) => {
                let m1 = SessionModel { connections: m.connections.insert(u, true), positions: m.positions.insert(u, 0usize), ..m };
                if voting(m1) {
                    assert(acts[i] != Act::Broadcast(Notice::Result(x)));
                }
            },
            _ => {},
        }
    }
}

/// A result is announced only in answer to a like, once every invited
/// participant has joined, and only when the ballot of the movie voted on,
/// with that like, holds as many voters as there are participants, all of
/// whom liked it.
pub proof fn lemma_result_only_when_all_participants_like(
    m: SessionModel,
    e: SessionEvent,
    fresh: Seq<u128>,
    x: u128,
)
    requires
        next_state(m, e, fresh).1.contains(Act::Broadcast(Notice::Result(x))),
    ensures
        m.connections.dom().len() == m.participants,
        e matches SessionEvent::Participant { user_id, message: MessageParticipantTask::Vote(v) } && {
            let p = m.positions[user_id] as int;
            let ballot = m.votes[p].insert(user_id, v);
            &&& m.positions.contains_key(user_id)
            &&& 0 <= p < m.votes.len()
            &&& ballot.dom().len() == m.participants
            &&& v
            &&& forall|k: u128| ballot.contains_key(k) ==> ballot[k]
            &&& x == m.movies[p + 1 - m.global_position]
        },
{
    lemma_result_needs_unanimity(m, e, fresh, x);
    match e {
        SessionEvent::Participant { user_id, message: MessageParticipantTask::Vote(v) } => {
            let p = m.positions[user_id] as int;
            let ballot = m.votes[p].insert(user_id, v);
            assert(ballot.contains_key(user_id));
            assert(ballot[user_id] == v);
        },
        _ => {},
    }
}

/// Once everyone joined, a restart request starts the session over exactly
/// when the requests so far, this one included, are more than half the
/// participants: every voter goes back to the first position and two new
/// movies are proposed.
pub proof fn lemma_restart_needs_majority(m: SessionModel, u: u128, fresh: Seq<u128>)
    requires
        m.connections.dom().len() == m.participants,
        fresh.len() >= 2,
    ensures
        ({
            let (m2, acts) = next_state(
                m,
                SessionEvent::Participant { user_id: u, message: MessageParticipantTask::Restart },
                fresh,
            );
            &&& m2.restart_demands == m.restart_demands + 1
            &&& acts.contains(Act::Broadcast(Notice::Restarted)) <==> 2 * (m.restart_demands + 1) > m.participants
            &&& 2 * (m.restart_demands + 1) > m.participants ==> {
                &&& m2.movies == seq![fresh[0], fresh[1]]
                &&& m2.global_position == 0
                &&& forall|k: u128| #[trigger] m2.positions.contains_key(k) <==> m.positions.contains_key(k)
                &&& forall|k: u128| #[trigger] m2.positions.contains_key(k) ==> m2.positions[k] == 0
            }
            &&& 2 * (m.restart_demands + 1) <= m.participants ==> acts.len() == 0
        }),
{
    let (m2, acts) = next_state(
        m,
        SessionEvent::Participant { user_id: u, message: MessageParticipantTask::Restart },
        fresh,
    );
    if 2 * (m.restart_demands + 1) > m.participants {
        assert(acts[0] == Act::Broadcast(Notice::Restarted));
        assert(fresh.take(2) =~= seq![fresh[0], fresh[1]]);
        assert(m2.movies =~= seq![fresh[0], fresh[1]]);
    } else {
        assert(acts.len() == 0);
    }
}

/// Once everyone joined, a dislike that completes the ballot of the first
/// movie proposed drops that movie: the proposed movies lose their first
/// one and the count of dropped movies grows by one.
pub proof fn lemma_full_ballot_with_dislike_drops_movie(m: SessionModel, u: u128, fresh: Seq<u128>)
    requires
        m.connections.dom().len() == m.participants,
        m.positions.contains_key(u),
        m.positions[u] < m.votes.len(),
        m.votes[m.positions[u] as int].insert(u, false).dom().len() == m.participants,
        m.movies.len() > 0,
        !vote_needs_movie(m, u, false),
    ensures
        ({
            let m2 = next_state(
                m,
                SessionEvent::Participant { user_id: u, message: MessageParticipantTask::Vote(false) },
                fresh,
            ).0;
            &&& m2.movies == m.movies.drop_first()
            &&& m2.global_position == m.global_position + 1
        }),
{
    let p = m.positions[u] as int;
    let ballot = m.votes[p].insert(u, false);
    assert(ballot.contains_key(u) && !ballot[u]);
    assert(!all_values(ballot, true));
}

/// When the vote just cast completes a ballot where every participant liked
/// the movie voted on, and a movie is proposed right after it, that next
/// movie is announced to everyone as the result.
pub proof fn lemma_unanimity_gives_result(m: SessionModel, u: u128, v: bool, fresh: Seq<u128>)
    requires
        voting(m),
        vote_counts(m, u),
        is_match(m, u, v),
    ensures
        next_state(m, SessionEvent::Participant { user_id: u, message: MessageParticipantTask::Vote(v) }, fresh).1
            == seq![Act::Broadcast(Notice::Result(m.movies[m.positions[u] + 1 - m.global_position]))],
{
}

/// Every voter's position stays within the ballots opened so far: no event
/// moves a voter past the last ballot.
pub proof fn lemma_positions_within_ballots(m: SessionModel, e: SessionEvent, fresh: Seq<u128>)
    requires
        forall|k: u128| #[trigger] m.positions.contains_key(k) ==> m.positions[k] <= m.votes.len(),
    ensures
        forall|k: u128|
            #[trigger] next_state(m, e, fresh).0.positions.contains_key(k) ==> next_state(m, e, fresh).0.positions[k]
                <= next_state(m, e, fresh).0.votes.len(),
{
}

/// A session ends only when the last connected user leaves before everyone
/// has joined.
pub proof fn lemma_stop_when_all_left(m: SessionModel, e: SessionEvent, fresh: Seq<u128>)
    requires
        next_state(m, e, fresh).1.contains(Act::Stop),
    ensures
        !voting(m),
        e is Leave,
        all_values(next_state(m, e, fresh).0.connections, false),
{
    let acts = next_state(m, e, fresh).1;
    let i = choose|i: int| 0 <= i < acts.len() && acts[i] == Act::Stop;
    if !voting(m) {
        match e {
            SessionEvent::Join(u) => {
                let m1 = SessionModel { connections: m.connections.insert(u, true), positions: m.positions.insert(u, 0usize), ..m };
                if voting(m1) {
                    assert(acts[i] != Act::Stop);
                }
            },
            _ => {},
        }
    }
}

} // verus!
