use cinematch::session::{
    new_movie_ids, MessageParticipantTask, MessageTaskParticipant, SessionAction, SessionEvent,
    SessionState,
};

fn show(m: &MessageTaskParticipant) -> String {
    match m {
        MessageTaskParticipant::Result(x) => format!("result {x}"),
        MessageTaskParticipant::UserJoined(u) => format!("joined {u}"),
        MessageTaskParticipant::UserLeaved(u) => format!("left {u}"),
        MessageTaskParticipant::Restarted => "restarted".to_string(),
        MessageTaskParticipant::Content(v) => format!("content {v:?}"),
    }
}

fn render(actions: &[SessionAction]) -> Vec<String> {
    actions
        .iter()
        .map(|a| match a {
            SessionAction::KeepSender(u) => format!("keep {u}"),
            SessionAction::DropSender(u) => format!("drop {u}"),
            SessionAction::Broadcast(m) => format!("all: {}", show(m)),
            SessionAction::SendTo(u, m) => format!("to {u}: {}", show(m)),
            SessionAction::ReplyToJoiner(m) => format!("reply: {}", show(m)),
            SessionAction::Stop => "stop".to_string(),
        })
        .collect()
}

fn vote(u: u128, v: bool) -> SessionEvent {
    SessionEvent::Participant { user_id: u, message: MessageParticipantTask::Vote(v) }
}

fn restart(u: u128) -> SessionEvent {
    SessionEvent::Participant { user_id: u, message: MessageParticipantTask::Restart }
}

fn step(s: &mut SessionState, e: SessionEvent, fresh: Vec<u128>) -> Vec<String> {
    assert!(s.handles(&e));
    assert_eq!(s.movies_needed_for(&e), fresh.len());
    render(&s.step_with(e, fresh))
}

fn joined_session() -> SessionState {
    let mut s = SessionState::new(2);
    assert_eq!(step(&mut s, SessionEvent::Join(1), vec![]), vec!["keep 1", "all: joined 1"]);
    assert!(!s.is_voting());
    assert_eq!(
        step(&mut s, SessionEvent::Join(2), vec![100, 101]),
        vec!["keep 2", "all: joined 2", "all: content [100, 101]"]
    );
    assert!(s.is_voting());
    s
}

#[test]
fn session_starts_when_everyone_joined() {
    joined_session();
}

#[test]
fn votes_before_everyone_joined_are_ignored() {
    let mut s = SessionState::new(3);
    step(&mut s, SessionEvent::Join(1), vec![]);
    assert_eq!(step(&mut s, vote(1, true), vec![]), Vec::<String>::new());
    assert_eq!(step(&mut s, restart(1), vec![]), Vec::<String>::new());
}

#[test]
fn last_leave_before_start_stops_session() {
    let mut s = SessionState::new(2);
    step(&mut s, SessionEvent::Join(1), vec![]);
    assert_eq!(step(&mut s, SessionEvent::Leave(1), vec![]), vec!["drop 1", "all: left 1", "stop"]);
}

#[test]
fn leave_with_someone_connected_does_not_stop() {
    let mut s = SessionState::new(3);
    step(&mut s, SessionEvent::Join(1), vec![]);
    step(&mut s, SessionEvent::Join(2), vec![]);
    assert_eq!(step(&mut s, SessionEvent::Leave(1), vec![]), vec!["drop 1", "all: left 1"]);
}

#[test]
fn unanimous_like_announces_result() {
    let mut s = joined_session();
    // the first voter reaches the last proposed movie: one more is drawn
    assert_eq!(step(&mut s, vote(1, true), vec![102]), vec!["to 1: content [101]"]);
    // the ballot is full and unanimous: the movie at the voter's new position is announced
    assert_eq!(step(&mut s, vote(2, true), vec![]), vec!["all: result 101"]);
}

#[test]
fn dislike_drops_first_movie() {
    let mut s = joined_session();
    assert_eq!(step(&mut s, vote(1, false), vec![102]), vec!["to 1: content [101]"]);
    assert_eq!(step(&mut s, vote(2, true), vec![]), vec!["to 2: content [101]"]);
    // both at position 1, one movie dropped: user 1 sees 102 next, the last one
    assert_eq!(step(&mut s, vote(1, true), vec![103]), vec!["to 1: content [102]"]);
}

#[test]
fn majority_of_restarts_starts_over() {
    let mut s = joined_session();
    assert_eq!(step(&mut s, restart(1), vec![]), Vec::<String>::new());
    assert_eq!(
        step(&mut s, restart(2), vec![200, 201]),
        vec!["all: restarted", "all: content [200, 201]"]
    );
}

#[test]
fn rejoining_voter_gets_current_movie() {
    let mut s = joined_session();
    step(&mut s, vote(1, true), vec![102]);
    assert_eq!(step(&mut s, SessionEvent::Leave(1), vec![]), vec!["all: left 1"]);
    assert_eq!(step(&mut s, SessionEvent::Join(1), vec![]), vec!["all: joined 1", "reply: content [101]"]);
}

#[test]
fn vote_from_unknown_user_does_nothing() {
    let mut s = joined_session();
    assert_eq!(step(&mut s, vote(9, true), vec![]), Vec::<String>::new());
}

#[test]
fn vote_before_first_movie_is_not_handled() {
    let mut s = joined_session();
    step(&mut s, vote(1, false), vec![102]);
    step(&mut s, vote(2, true), vec![]);
    // restart: positions back to zero, old ballots kept
    step(&mut s, restart(1), vec![]);
    step(&mut s, restart(2), vec![300, 301]);
    // ballot 0 still holds both votes: a dislike makes it full again and drops a movie
    assert_eq!(step(&mut s, vote(1, false), vec![302]), vec!["to 1: content [301]"]);
    // now the second voter's position is before the first proposed movie
    assert!(!s.handles(&vote(2, true)));
}

#[test]
fn step_draws_random_movies() {
    let mut s = SessionState::new(1);
    let actions = s.step(SessionEvent::Join(5));
    assert_eq!(actions.len(), 3);
    assert_eq!(new_movie_ids(4).len(), 4);
}

#[test]
fn restart_requests_keep_counting() {
    let mut s = joined_session();
    step(&mut s, restart(1), vec![]);
    step(&mut s, restart(2), vec![200, 201]);
    // the count is never reset: every further request starts over again
    assert_eq!(step(&mut s, restart(1), vec![300, 301]), vec!["all: restarted", "all: content [300, 301]"]);
}

#[test]
fn a_user_that_joined_stays_known() {
    let mut s = SessionState::new(3);
    step(&mut s, SessionEvent::Join(1), vec![]);
    step(&mut s, SessionEvent::Leave(1), vec![]);
    // user 1 left but is still counted: two more joins start the vote
    step(&mut s, SessionEvent::Join(2), vec![]);
    assert!(!s.is_voting());
    step(&mut s, SessionEvent::Join(3), vec![1, 2]);
    assert!(s.is_voting());
}
