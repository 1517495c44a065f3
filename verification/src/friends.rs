//! Friendships: what asking someone to be a friend changes.
use vstd::prelude::*;

verus! {

/// The rows a friend invitation writes.
pub struct FriendshipUpdate {
    /// A new request, as (asking user, asked user).
    pub new_request: Option<(u128, u128)>,
    /// New friendships, each as (user, friend).
    pub new_friends: Vec<(u128, u128)>,
    /// The user whose pending requests are all cleared.
    pub clear_requests_to: Option<u128>,
}

/// What `user` asking `friend` to be friends changes: a request from `user`
/// to `friend`, unless `friend` already asked `user`; then the two become
/// friends both ways and the requests made to `user` are cleared.
pub fn invitation_update(user: u128, friend: u128, friend_already_asked: bool) -> (u: FriendshipUpdate)
    ensures
        !friend_already_asked ==> u.new_request == Some((user, friend)) && u.new_friends@.len() == 0
            && u.clear_requests_to is None,
        friend_already_asked ==> u.new_request is None && u.new_friends@ == seq![(user, friend), (friend, user)]
            && u.clear_requests_to == Some(user),
        forall|i: int|
            0 <= i < u.new_friends@.len() ==> u.new_friends@.contains(
                (#[trigger] u.new_friends@[i].1, u.new_friends@[i].0),
            ),
{
    if friend_already_asked {
        let new_friends = vec![(user, friend), (friend, user)];
        proof {
            assert(new_friends@[1] == (friend, user));
            assert(new_friends@[0] == (user, friend));
        }
        FriendshipUpdate { new_request: None, new_friends, clear_requests_to: Some(user) }
    } else {
        FriendshipUpdate { new_request: Some((user, friend)), new_friends: Vec::new(), clear_requests_to: None }
    }
}

} // verus!
