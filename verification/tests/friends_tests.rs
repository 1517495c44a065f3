use cinematch::friends::invitation_update;

#[test]
fn first_invitation_is_a_request() {
    let u = invitation_update(1, 2, false);
    assert_eq!(u.new_request, Some((1, 2)));
    assert!(u.new_friends.is_empty());
    assert_eq!(u.clear_requests_to, None);
}

#[test]
fn crossed_invitations_make_friends_both_ways() {
    let u = invitation_update(1, 2, true);
    assert_eq!(u.new_request, None);
    assert_eq!(u.new_friends, vec![(1, 2), (2, 1)]);
    assert_eq!(u.clear_requests_to, Some(1));
}
