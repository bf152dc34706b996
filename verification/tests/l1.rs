use sequencer::account::FeeAccount;
use sequencer::amount::Uint256;
use sequencer::digest::Digest;
use sequencer::l1_client::{L1BlockInfo, L1Client, L1Error};

fn block(number: u64, timestamp: u64) -> L1BlockInfo {
    L1BlockInfo { number, timestamp: Uint256::from_u64(timestamp), hash: Digest::new([number as u8; 32]) }
}

fn client() -> L1Client {
    L1Client::new("http://localhost:8545".to_string(), FeeAccount::zero())
}

#[test]
fn a_new_client_has_seen_nothing() {
    let client = client();
    assert_eq!(client.provider(), "http://localhost:8545");
    assert_eq!(client.latest_block().number, 0);
    assert!(client.latest_block().timestamp.is_zero());
    assert!(client.finalized_block().is_none());
    assert!(matches!(client.block_at(0), Err(L1Error::Unavailable)));
    assert!(matches!(client.block_at(7), Err(L1Error::Unavailable)));
    assert_eq!(client.snapshot().head, 0);
    assert!(client.snapshot().finalized.is_none());
    assert_eq!(client.retry_delay(), 1000);
}

#[test]
fn latest_block_never_goes_back() {
    let mut client = client();
    let answers = [
        block(5, 50),
        block(3, 30),
        block(5, 49),
        block(6, 49),
        block(6, 60),
        block(2, 99),
        block(6, 61),
        block(9, 90),
        block(8, 95),
    ];
    let adopted = [true, false, false, false, true, false, true, true, false];
    let mut last = 0;
    for (answer, expected) in answers.iter().zip(adopted.iter()) {
        assert_eq!(client.observe_latest(*answer), *expected);
        assert!(client.latest_block().number >= last);
        last = client.latest_block().number;
    }
    assert_eq!(client.latest_block().number, 9);
    assert_eq!(client.latest_block().timestamp.limbs, [90, 0, 0, 0]);
    assert_eq!(client.snapshot().head, 9);
}

#[test]
fn finalized_block_never_goes_back() {
    let mut client = client();
    assert!(client.observe_finalized(block(4, 40)));
    assert!(!client.observe_finalized(block(3, 30)));
    assert_eq!(client.finalized_block().unwrap().number, 4);
    assert!(client.observe_finalized(block(4, 40)));
    assert!(client.observe_finalized(block(7, 70)));
    assert_eq!(client.finalized_block().unwrap().number, 7);
    assert_eq!(client.snapshot().finalized.unwrap().number, 7);
    assert_eq!(client.latest_block().number, 0);
}

#[test]
fn blocks_that_were_handed_over_can_be_asked_for() {
    let mut client = client();
    client.record_block(block(12, 120));
    client.observe_latest(block(14, 140));
    client.observe_latest(block(13, 130));
    client.observe_finalized(block(11, 110));
    client.record_block(block(12, 999));
    assert_eq!(client.block_at(12).unwrap().timestamp.limbs, [120, 0, 0, 0]);
    assert_eq!(client.block_at(14).unwrap().number, 14);
    // A stale answer is kept for questions by number, though it is not adopted.
    assert_eq!(client.block_at(13).unwrap().number, 13);
    assert_eq!(client.block_at(11).unwrap().number, 11);
    assert!(matches!(client.block_at(15), Err(L1Error::Unavailable)));
    assert_eq!(client.latest_block().number, 14);
}

#[test]
fn delay_doubles_with_every_failure_up_to_the_cap() {
    let mut client = client();
    let expected = [1000u64, 2000, 4000, 8000, 16000, 32000, 60000, 60000, 60000];
    for delay in expected {
        assert_eq!(client.retry_delay(), delay);
        client.record_failure();
    }
    // What is held is served while the provider is away.
    client.observe_latest(block(5, 50));
    assert_eq!(client.retry_delay(), 1000);
    client.record_failure();
    client.record_failure();
    assert_eq!(client.retry_delay(), 4000);
    assert_eq!(client.latest_block().number, 5);
    client.observe_finalized(block(4, 40));
    assert_eq!(client.retry_delay(), 1000);
}

#[test]
fn a_round_of_questions_is_taken_in_as_a_whole() {
    let mut client = client();
    assert_eq!(client.poll_result(None, None), 2000);
    assert_eq!(client.poll_result(None, None), 4000);
    assert!(!client.is_synced());
    assert_eq!(client.poll_result(Some(block(7, 70)), None), 1000);
    assert!(client.is_synced());
    assert_eq!(client.latest_block().number, 7);
    assert!(client.finalized_block().is_none());
    // A stale answer is an answer: the provider is there.
    assert_eq!(client.poll_result(Some(block(6, 60)), Some(block(5, 50))), 1000);
    assert_eq!(client.latest_block().number, 7);
    assert_eq!(client.finalized_block().unwrap().number, 5);
    assert_eq!(client.poll_result(None, None), 2000);
    assert_eq!(client.poll_result(None, Some(block(4, 40))), 1000);
    assert_eq!(client.finalized_block().unwrap().number, 5);
    assert_eq!(client.latest_block().number, 7);
}

#[test]
fn only_the_block_that_was_asked_for_is_accepted() {
    let mut client = client();
    assert!(matches!(client.accept_block(12, None), Err(L1Error::Unavailable)));
    assert!(matches!(client.accept_block(12, Some(block(11, 1))), Err(L1Error::Unavailable)));
    assert!(matches!(client.block_at(11), Err(L1Error::Unavailable)));
    assert_eq!(client.accept_block(12, Some(block(12, 120))).unwrap().number, 12);
    assert_eq!(client.block_at(12).unwrap().timestamp.limbs, [120, 0, 0, 0]);
    assert_eq!(client.latest_block().number, 0);
}
