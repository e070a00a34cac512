use alpha_core::voting::{Error, PollCreated, PollEnded, PollEvent, VoteCast, VotingContract};

fn test_options() -> Vec<String> {
    vec!["Option 1".to_string(), "Option 2".to_string()]
}

#[test]
fn new_works() {
    let contract = VotingContract::new(1);
    assert_eq!(contract.get_total_polls(), 0);
}

#[test]
fn create_poll_works() {
    let mut contract = VotingContract::new(1);
    let title = "Test Poll".to_string();
    let description = "Test Description".to_string();
    let options = test_options();

    let result = contract.create_poll(2, 0, title.clone(), description, options, 24);
    assert!(result.is_ok());
    assert_eq!(result.unwrap(), 1);
    assert_eq!(contract.get_total_polls(), 1);

    let poll = contract.get_poll(1).unwrap();
    assert_eq!(poll.title, title);
    assert_eq!(poll.options.len(), 2);
}

#[test]
fn vote_works() {
    let mut contract = VotingContract::new(1);
    let title = "Test Poll".to_string();
    let description = "Test Description".to_string();
    let options = test_options();

    let poll_id = contract.create_poll(2, 0, title, description, options, 24).unwrap();
    let result = contract.vote(3, 1000, poll_id, 0);
    assert!(result.is_ok());

    let poll = contract.get_poll(poll_id).unwrap();
    assert_eq!(poll.total_votes, 1);
    assert_eq!(
        contract.events.last(),
        Some(&PollEvent::Cast(VoteCast { poll_id, voter: 3, option_index: 0 }))
    );
}

#[test]
fn cannot_vote_twice() {
    let mut contract = VotingContract::new(1);
    let title = "Test Poll".to_string();
    let description = "Test Description".to_string();
    let options = test_options();

    let poll_id = contract.create_poll(2, 0, title, description, options, 24).unwrap();
    let _ = contract.vote(3, 1000, poll_id, 0);
    let result = contract.vote(3, 1000, poll_id, 1);
    assert_eq!(result, Err(Error::AlreadyVoted));
}

#[test]
fn create_poll_rejects_empty_options() {
    let mut contract = VotingContract::new(1);
    let result = contract.create_poll(2, 0, "t".to_string(), "d".to_string(), vec![], 24);
    assert_eq!(result, Err(Error::EmptyOptions));
    assert_eq!(contract.get_total_polls(), 0);
}

#[test]
fn create_poll_rejects_zero_duration() {
    let mut contract = VotingContract::new(1);
    let result =
        contract.create_poll(2, 0, "t".to_string(), "d".to_string(), test_options(), 0);
    assert_eq!(result, Err(Error::InvalidTimeRange));
}

#[test]
fn create_poll_rejects_overflowing_window() {
    let mut contract = VotingContract::new(1);
    let result =
        contract.create_poll(2, u64::MAX, "t".to_string(), "d".to_string(), test_options(), 24);
    assert_eq!(result, Err(Error::InvalidTimeRange));
}

#[test]
fn create_poll_emits_event() {
    let mut contract = VotingContract::new(1);
    let title = "Test Poll".to_string();
    let id = contract
        .create_poll(2, 0, title.clone(), "d".to_string(), test_options(), 24)
        .unwrap();
    assert_eq!(
        contract.events.last(),
        Some(&PollEvent::Created(PollCreated { poll_id: id, creator: 2, title }))
    );
}

#[test]
fn vote_rejects_missing_poll() {
    let mut contract = VotingContract::new(1);
    assert_eq!(contract.vote(3, 0, 9, 0), Err(Error::PollNotFound));
}

#[test]
fn vote_rejects_ended_poll() {
    let mut contract = VotingContract::new(1);
    let id = contract
        .create_poll(2, 0, "t".to_string(), "d".to_string(), test_options(), 24)
        .unwrap();
    contract.end_poll(2, id).unwrap();
    assert_eq!(contract.vote(3, 1000, id, 0), Err(Error::PollEnded));
}

#[test]
fn vote_rejects_before_start() {
    let mut contract = VotingContract::new(1);
    let id = contract
        .create_poll(2, 5000, "t".to_string(), "d".to_string(), test_options(), 24)
        .unwrap();
    assert_eq!(contract.vote(3, 4000, id, 0), Err(Error::PollNotStarted));
}

#[test]
fn vote_rejects_after_window() {
    let mut contract = VotingContract::new(1);
    let id = contract
        .create_poll(2, 0, "t".to_string(), "d".to_string(), test_options(), 24)
        .unwrap();
    // the window is 24 hours of milliseconds long
    let after_end = 24 * 3600 * 1000 + 1;
    assert_eq!(contract.vote(3, after_end, id, 0), Err(Error::PollEnded));
}

#[test]
fn vote_rejects_invalid_option() {
    let mut contract = VotingContract::new(1);
    let id = contract
        .create_poll(2, 0, "t".to_string(), "d".to_string(), test_options(), 24)
        .unwrap();
    assert_eq!(contract.vote(3, 1000, id, 2), Err(Error::InvalidOption));
}

#[test]
fn end_poll_rejects_strangers() {
    let mut contract = VotingContract::new(1);
    let id = contract
        .create_poll(2, 0, "t".to_string(), "d".to_string(), test_options(), 24)
        .unwrap();
    assert_eq!(contract.end_poll(5, id), Err(Error::NotAuthorized));
    assert!(contract.get_poll(id).unwrap().is_active);
}

#[test]
fn end_poll_by_owner_works() {
    let mut contract = VotingContract::new(1);
    let id = contract
        .create_poll(2, 0, "t".to_string(), "d".to_string(), test_options(), 24)
        .unwrap();
    assert!(contract.end_poll(1, id).is_ok());
    assert!(!contract.get_poll(id).unwrap().is_active);
}

#[test]
fn end_poll_twice_flips_once_and_keeps_totals() {
    let mut contract = VotingContract::new(1);
    let id = contract
        .create_poll(2, 0, "t".to_string(), "d".to_string(), test_options(), 24)
        .unwrap();
    contract.vote(3, 1000, id, 0).unwrap();
    assert!(contract.end_poll(2, id).is_ok());
    assert!(contract.end_poll(2, id).is_ok());
    let poll = contract.get_poll(id).unwrap();
    assert!(!poll.is_active);
    assert_eq!(poll.total_votes, 1);
    assert_eq!(
        contract.events.last(),
        Some(&PollEvent::Ended(PollEnded { poll_id: id, total_votes: 1 }))
    );
}

#[test]
fn results_right_after_create_are_all_zero() {
    let mut contract = VotingContract::new(1);
    let id = contract
        .create_poll(2, 0, "t".to_string(), "d".to_string(), test_options(), 24)
        .unwrap();
    let results = contract.get_poll_results(1000, id).unwrap();
    assert_eq!(results.total_votes, 0);
    assert_eq!(results.option_votes, vec![0, 0]);
    assert!(!results.is_ended);
}

#[test]
fn results_after_single_vote() {
    let mut contract = VotingContract::new(1);
    let id = contract
        .create_poll(2, 0, "t".to_string(), "d".to_string(), vec!["A".to_string(), "B".to_string()], 24)
        .unwrap();
    contract.vote(3, 1000, id, 0).unwrap();
    assert_eq!(contract.vote(3, 1000, id, 1), Err(Error::AlreadyVoted));
    let results = contract.get_poll_results(2000, id).unwrap();
    assert_eq!(results.option_votes, vec![1, 0]);
    assert_eq!(results.total_votes, 1);
}

#[test]
fn results_reject_missing_poll() {
    let contract = VotingContract::new(1);
    assert!(contract.get_poll_results(0, 4).is_err());
}

#[test]
fn results_report_ended_after_window() {
    let mut contract = VotingContract::new(1);
    let id = contract
        .create_poll(2, 0, "t".to_string(), "d".to_string(), test_options(), 24)
        .unwrap();
    let after_end = 24 * 3600 * 1000 + 1;
    let results = contract.get_poll_results(after_end, id).unwrap();
    assert!(results.is_ended);
}

#[test]
fn has_voted_and_get_user_vote_report_the_record() {
    let mut contract = VotingContract::new(1);
    let id = contract
        .create_poll(2, 0, "t".to_string(), "d".to_string(), test_options(), 24)
        .unwrap();
    assert!(!contract.has_voted(id, 3));
    contract.vote(3, 1000, id, 1).unwrap();
    assert!(contract.has_voted(id, 3));
    let vote = contract.get_user_vote(id, 3).unwrap();
    assert_eq!(vote.option_index, 1);
    assert_eq!(vote.timestamp, 1000);
    assert!(contract.get_user_vote(id, 4).is_none());
}

#[test]
fn get_owner_reports_the_owner() {
    let contract = VotingContract::new(42);
    assert_eq!(contract.get_owner(), 42);
}
