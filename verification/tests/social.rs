use alpha_core::ledger::Ledger;
use alpha_core::social::{Config, Error, Event, Pallet, ReportReason, ReportStatus};

fn test_config() -> Config {
    Config {
        group_deposit: 10,
        max_group_members: 10,
        max_group_name_length: 32,
        max_group_description_length: 64,
        max_message_length: 64,
    }
}

fn funded(account: u64) -> Ledger {
    let mut ledger = Ledger::new();
    ledger.mint_and_credit(account, 100);
    ledger
}

#[test]
fn group_membership_flow() {
    let mut pallet = Pallet::new(1, test_config());
    let mut ledger = funded(2);
    pallet
        .create_group(&mut ledger, 2, 0, b"g".to_vec(), b"d".to_vec(), true, None)
        .unwrap();
    assert_eq!(pallet.groups.get(0).unwrap().member_count, 1);

    pallet.join_group(3, 0).unwrap();
    assert_eq!(pallet.groups.get(0).unwrap().member_count, 2);
    assert_eq!(pallet.join_group(3, 0), Err(Error::AlreadyGroupMember));

    assert_eq!(pallet.leave_group(4, 0), Err(Error::NotGroupMember));
    pallet.leave_group(3, 0).unwrap();
    assert_eq!(pallet.groups.get(0).unwrap().member_count, 1);
}

#[test]
fn create_group_escrows_the_deposit() {
    let mut pallet = Pallet::new(1, test_config());
    let mut ledger = funded(2);
    pallet
        .create_group(&mut ledger, 2, 7, b"name".to_vec(), b"desc".to_vec(), false, Some(b"a".to_vec()))
        .unwrap();
    assert_eq!(ledger.free_balance(2), 90);
    assert_eq!(ledger.reserved_balance(2), 10);
    let group = pallet.groups.get(0).unwrap();
    assert_eq!(group.creator, 2);
    assert_eq!(group.created_at, 7);
    assert_eq!(group.deposit, 10);
    assert_eq!(pallet.events.last(), Some(&Event::GroupCreated { group_id: 0, creator: 2 }));
}

#[test]
fn create_group_rejects_long_fields_and_thin_balance() {
    let mut pallet = Pallet::new(
        1,
        Config {
            group_deposit: 10,
            max_group_members: 10,
            max_group_name_length: 2,
            max_group_description_length: 2,
            max_message_length: 64,
        },
    );
    let mut ledger = funded(2);
    assert_eq!(
        pallet.create_group(&mut ledger, 2, 0, b"abc".to_vec(), b"d".to_vec(), true, None),
        Err(Error::GroupNameTooLong)
    );
    assert_eq!(
        pallet.create_group(&mut ledger, 2, 0, b"ab".to_vec(), b"ddd".to_vec(), true, None),
        Err(Error::GroupDescriptionTooLong)
    );
    let mut poor = Ledger::new();
    assert_eq!(
        pallet.create_group(&mut poor, 2, 0, b"ab".to_vec(), b"dd".to_vec(), true, None),
        Err(Error::InsufficientBalance)
    );
    assert_eq!(pallet.next_group_id, 0);
}

#[test]
fn join_group_rejects_when_full_or_missing() {
    let mut pallet = Pallet::new(
        1,
        Config {
            group_deposit: 10,
            max_group_members: 1,
            max_group_name_length: 32,
            max_group_description_length: 64,
            max_message_length: 64,
        },
    );
    let mut ledger = funded(2);
    assert_eq!(pallet.join_group(3, 0), Err(Error::GroupNotFound));
    pallet
        .create_group(&mut ledger, 2, 0, b"g".to_vec(), b"d".to_vec(), true, None)
        .unwrap();
    assert_eq!(pallet.join_group(3, 0), Err(Error::GroupFull));
    assert_eq!(pallet.leave_group(3, 9), Err(Error::GroupNotFound));
}

#[test]
fn private_message_flow() {
    let mut pallet = Pallet::new(1, test_config());
    pallet.send_private_message(2, 5, 3, b"hello".to_vec()).unwrap();
    let message = pallet.private_messages.get(0).unwrap();
    assert_eq!(message.sender, 2);
    assert_eq!(message.recipient, 3);
    assert_eq!(message.timestamp, 5);
    assert!(!message.is_read);

    assert_eq!(pallet.mark_message_read(2, 0), Err(Error::Unauthorized));
    pallet.mark_message_read(3, 0).unwrap();
    assert!(pallet.private_messages.get(0).unwrap().is_read);
    assert_eq!(pallet.mark_message_read(3, 9), Err(Error::MessageNotFound));
}

#[test]
fn message_rejections() {
    let mut pallet = Pallet::new(1, test_config());
    assert_eq!(pallet.send_private_message(2, 0, 2, b"m".to_vec()), Err(Error::CannotMessageSelf));
    let long = vec![0u8; 65];
    assert_eq!(pallet.send_private_message(2, 0, 3, long), Err(Error::MessageTooLong));
    pallet.block_user(3, 2).unwrap();
    assert_eq!(pallet.send_private_message(2, 0, 3, b"m".to_vec()), Err(Error::UserBlocked));
    // blocking works one way: the blocker can still write to the blocked
    pallet.send_private_message(3, 0, 2, b"m".to_vec()).unwrap();
}

#[test]
fn block_rules() {
    let mut pallet = Pallet::new(1, test_config());
    assert_eq!(pallet.block_user(2, 2), Err(Error::CannotBlockSelf));
    pallet.block_user(2, 3).unwrap();
    assert_eq!(pallet.block_user(2, 3), Err(Error::AlreadyBlocked));
    assert_eq!(pallet.unblock_user(3, 2), Err(Error::NotBlocked));
    pallet.unblock_user(2, 3).unwrap();
    assert_eq!(pallet.unblock_user(2, 3), Err(Error::NotBlocked));
}

#[test]
fn blocked_user_can_still_join_groups() {
    let mut pallet = Pallet::new(1, test_config());
    let mut ledger = funded(2);
    pallet
        .create_group(&mut ledger, 2, 0, b"g".to_vec(), b"d".to_vec(), true, None)
        .unwrap();
    pallet.block_user(2, 3).unwrap();
    assert!(pallet.join_group(3, 0).is_ok());
}

#[test]
fn report_content_is_unconditional_and_pending() {
    let mut pallet = Pallet::new(1, test_config());
    pallet
        .report_content(2, 9, None, None, ReportReason::Spam, b"why".to_vec())
        .unwrap();
    let report = pallet.content_reports.get(0).unwrap();
    assert_eq!(report.reporter, 2);
    assert_eq!(report.status, ReportStatus::Pending);
    assert_eq!(report.reason, ReportReason::Spam);
    assert_eq!(report.target_account, None);
    assert_eq!(pallet.next_report_id, 1);
}

#[test]
fn update_reputation_is_owner_only() {
    let mut pallet = Pallet::new(1, test_config());
    assert_eq!(pallet.update_reputation(2, 0, 3, true), Err(Error::Unauthorized));
    assert!(pallet.user_reputations.get(3).is_none());
}

#[test]
fn update_reputation_moves_one_point_per_vote() {
    let mut pallet = Pallet::new(1, test_config());
    pallet.update_reputation(1, 5, 3, true).unwrap();
    let rep = pallet.user_reputations.get(3).unwrap();
    assert_eq!(rep.score, 101);
    assert_eq!(rep.positive_votes, 1);
    assert_eq!(rep.negative_votes, 0);
    assert_eq!(rep.last_updated, 5);

    pallet.update_reputation(1, 6, 3, false).unwrap();
    let rep = pallet.user_reputations.get(3).unwrap();
    assert_eq!(rep.score, 100);
    assert_eq!(rep.negative_votes, 1);
    assert_eq!(rep.last_updated, 6);
    assert_eq!(pallet.events.last(), Some(&Event::ReputationUpdated { user: 3, new_score: 100 }));
}
