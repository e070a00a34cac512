use alpha_core::coin::{Config, Error, Event, Pallet};
use alpha_core::ledger::Ledger;

fn test_pallet() -> Pallet {
    Pallet::new(Config { post_deposit: 10, max_post_length: 100, post_reward: 5, like_reward: 3 })
}

#[test]
fn post_reward_and_like_flow() {
    let mut pallet = test_pallet();
    let mut ledger = Ledger::new();
    ledger.mint_and_credit(7, 100);

    // the author reserves the deposit and receives the creation reward
    pallet.create_post(&mut ledger, 7, 0, b"h1".to_vec()).unwrap();
    assert_eq!(ledger.free_balance(7), 95);
    assert_eq!(ledger.reserved_balance(7), 10);

    // a like rewards the author, not the liker
    pallet.like_post(&mut ledger, 8, 0).unwrap();
    assert_eq!(ledger.free_balance(7), 98);
    assert_eq!(ledger.free_balance(8), 0);
    assert_eq!(pallet.like_post(&mut ledger, 8, 0), Err(Error::AlreadyLiked));

    // one unlike succeeds, a second fails
    pallet.unlike_post(8, 0).unwrap();
    assert_eq!(pallet.unlike_post(8, 0), Err(Error::NotLiked));
    assert_eq!(ledger.free_balance(7), 98);
}

#[test]
fn create_post_rejects_long_content() {
    let mut pallet =
        Pallet::new(Config { post_deposit: 10, max_post_length: 4, post_reward: 5, like_reward: 3 });
    let mut ledger = Ledger::new();
    ledger.mint_and_credit(7, 100);
    let result = pallet.create_post(&mut ledger, 7, 0, b"12345".to_vec());
    assert_eq!(result, Err(Error::PostTooLong));
    assert_eq!(ledger.free_balance(7), 100);
}

#[test]
fn create_post_rejects_thin_balance() {
    let mut pallet = test_pallet();
    let mut ledger = Ledger::new();
    ledger.mint_and_credit(7, 9);
    let result = pallet.create_post(&mut ledger, 7, 0, b"h".to_vec());
    assert_eq!(result, Err(Error::InsufficientBalance));
    assert_eq!(ledger.free_balance(7), 9);
    assert_eq!(pallet.next_post_id, 0);
}

#[test]
fn cannot_like_own_post() {
    let mut pallet = test_pallet();
    let mut ledger = Ledger::new();
    ledger.mint_and_credit(7, 100);
    pallet.create_post(&mut ledger, 7, 0, b"h".to_vec()).unwrap();
    assert_eq!(pallet.like_post(&mut ledger, 7, 0), Err(Error::CannotLikeOwnPost));
}

#[test]
fn like_and_unlike_reject_missing_post() {
    let mut pallet = test_pallet();
    let mut ledger = Ledger::new();
    assert_eq!(pallet.like_post(&mut ledger, 8, 0), Err(Error::PostNotFound));
    assert_eq!(pallet.unlike_post(8, 0), Err(Error::PostNotFound));
}

#[test]
fn likes_counter_follows_membership() {
    let mut pallet = test_pallet();
    let mut ledger = Ledger::new();
    ledger.mint_and_credit(7, 100);
    pallet.create_post(&mut ledger, 7, 0, b"h".to_vec()).unwrap();
    pallet.like_post(&mut ledger, 8, 0).unwrap();
    pallet.like_post(&mut ledger, 9, 0).unwrap();
    assert_eq!(pallet.posts.get(0).unwrap().likes, 2);
    pallet.unlike_post(8, 0).unwrap();
    assert_eq!(pallet.posts.get(0).unwrap().likes, 1);
    pallet.unlike_post(9, 0).unwrap();
    assert_eq!(pallet.posts.get(0).unwrap().likes, 0);
}

#[test]
fn update_profile_records_the_hash() {
    let mut pallet = test_pallet();
    pallet.update_profile(7, b"profile".to_vec()).unwrap();
    assert_eq!(pallet.user_profiles.get(7).unwrap(), &b"profile".to_vec());
    assert_eq!(pallet.events.last(), Some(&Event::ProfileUpdated { account: 7 }));
}

#[test]
fn follow_rules() {
    let mut pallet = test_pallet();
    assert_eq!(pallet.follow_user(7, 7), Err(Error::CannotFollowSelf));
    pallet.follow_user(7, 8).unwrap();
    assert_eq!(pallet.follow_user(7, 8), Err(Error::AlreadyFollowing));
    assert_eq!(pallet.unfollow_user(8, 7), Err(Error::NotFollowing));
    pallet.unfollow_user(7, 8).unwrap();
    assert_eq!(pallet.unfollow_user(7, 8), Err(Error::NotFollowing));
}

#[test]
fn create_post_emits_creation_then_reward() {
    let mut pallet = test_pallet();
    let mut ledger = Ledger::new();
    ledger.mint_and_credit(7, 100);
    pallet.create_post(&mut ledger, 7, 9, b"h".to_vec()).unwrap();
    assert_eq!(pallet.events.len(), 2);
    assert_eq!(pallet.events[0], Event::PostCreated { post_id: 0, author: 7 });
    assert_eq!(pallet.events[1], Event::RewardDistributed { recipient: 7, amount: 5 });
}
