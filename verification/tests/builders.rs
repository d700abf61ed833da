use discord_game_sdk::status_to_result;
use discord_game_sdk::transaction::LobbyMemberTransaction;
use discord_game_sdk::transaction::LobbyTransaction;
use discord_game_sdk::transaction::NativeLobbyTransaction;
use discord_game_sdk::transaction::NativeMemberTransaction;
use discord_game_sdk::transaction::NativeSearchQuery;
use discord_game_sdk::transaction::SearchQuery;
use discord_game_sdk::transaction::Cast;
use discord_game_sdk::transaction::Comparison;
use discord_game_sdk::transaction::Distance;
use discord_game_sdk::transaction::LobbyKind;
use discord_game_sdk::Error;

#[test]
fn status_codes_decode_to_their_errors() {
    assert_eq!(status_to_result(0), Ok(()));
    assert_eq!(status_to_result(1), Err(Error::ServiceUnavailable));
    assert_eq!(status_to_result(2), Err(Error::InvalidVersion));
    assert_eq!(status_to_result(3), Err(Error::LockFailed));
    assert_eq!(status_to_result(4), Err(Error::InternalError));
    assert_eq!(status_to_result(5), Err(Error::InvalidPayload));
    assert_eq!(status_to_result(6), Err(Error::InvalidCommand));
    assert_eq!(status_to_result(7), Err(Error::InvalidPermissions));
    assert_eq!(status_to_result(8), Err(Error::NotFetched));
    assert_eq!(status_to_result(9), Err(Error::NotFound));
    assert_eq!(status_to_result(10), Err(Error::Conflict));
    assert_eq!(status_to_result(11), Err(Error::InvalidSecret));
    assert_eq!(status_to_result(15), Err(Error::NotAuthenticated));
    assert_eq!(status_to_result(21), Err(Error::LobbyFull));
    assert_eq!(status_to_result(27), Err(Error::NotRunning));
    assert_eq!(status_to_result(28), Err(Error::InsufficientBuffer));
    assert_eq!(status_to_result(34), Err(Error::RateLimited));
    assert_eq!(status_to_result(43), Err(Error::TransactionAborted));
    assert_eq!(status_to_result(99), Err(Error::Undefined(99)));
}

#[test]
fn lobby_transaction_replays_in_insertion_order() {
    let mut builder = LobbyTransaction::new();
    builder.kind(LobbyKind::Public);
    builder.owner(7);
    builder.capacity(16);
    builder.add_metadata("a".to_string(), "1".to_string());
    builder.locked(true);

    let mut handle = NativeLobbyTransaction::new();
    assert_eq!(builder.process(&mut handle), Ok(()));
    assert_eq!(handle.kind(), Some(LobbyKind::Public));
    assert_eq!(handle.owner(), Some(7));
    assert_eq!(handle.capacity(), Some(16));
    assert_eq!(handle.locked(), Some(true));
    assert_eq!(handle.metadata(), &vec![("a".to_string(), "1".to_string())]);
}

#[test]
fn lobby_transaction_halts_at_first_failing_mutation() {
    let long_key = "k".repeat(300);
    let mut builder = LobbyTransaction::new();
    builder.add_metadata("a".to_string(), "1".to_string());
    builder.add_metadata("b".to_string(), "2".to_string());
    builder.add_metadata(long_key, "3".to_string());
    builder.owner(5);

    let mut handle = NativeLobbyTransaction::new();
    assert_eq!(builder.process(&mut handle), Err(Error::TooLong));
    // the first two mutations were applied in order, the rest never ran
    assert_eq!(
        handle.metadata(),
        &vec![
            ("a".to_string(), "1".to_string()),
            ("b".to_string(), "2".to_string()),
        ]
    );
    assert_eq!(handle.owner(), None);

    // a corrected list replays fully against a fresh handle
    let mut corrected = LobbyTransaction::new();
    corrected.add_metadata("a".to_string(), "1".to_string());
    corrected.add_metadata("b".to_string(), "2".to_string());
    corrected.add_metadata("c".to_string(), "3".to_string());
    let mut fresh = NativeLobbyTransaction::new();
    assert_eq!(corrected.process(&mut fresh), Ok(()));
    assert_eq!(
        fresh.metadata(),
        &vec![
            ("a".to_string(), "1".to_string()),
            ("b".to_string(), "2".to_string()),
            ("c".to_string(), "3".to_string()),
        ]
    );
}

#[test]
fn lobby_transaction_is_replayable_against_many_handles() {
    let mut builder = LobbyTransaction::new();
    builder.capacity(4);
    builder.add_metadata("k".to_string(), "v".to_string());

    let mut first = NativeLobbyTransaction::new();
    let mut second = NativeLobbyTransaction::new();
    assert_eq!(builder.process(&mut first), Ok(()));
    assert_eq!(builder.process(&mut second), Ok(()));
    assert_eq!(first, second);
}

#[test]
fn metadata_binds_and_unbinds_by_key() {
    let mut builder = LobbyMemberTransaction::new();
    builder.add_metadata("a".to_string(), "1".to_string());
    builder.add_metadata("b".to_string(), "2".to_string());
    builder.add_metadata("a".to_string(), "3".to_string());
    builder.delete_metadata("b".to_string());

    let mut handle = NativeMemberTransaction::new();
    assert_eq!(builder.process(&mut handle), Ok(()));
    // the second binding of "a" replaced the first in place; "b" is gone
    assert_eq!(handle.metadata(), &vec![("a".to_string(), "3".to_string())]);
}

#[test]
fn member_transaction_rejects_oversized_value() {
    let mut builder = LobbyMemberTransaction::new();
    builder.add_metadata("a".to_string(), "v".repeat(5000));
    let mut handle = NativeMemberTransaction::new();
    assert_eq!(builder.process(&mut handle), Err(Error::TooLong));
    assert_eq!(handle.metadata(), &Vec::<(String, String)>::new());
}

#[test]
fn search_query_records_filters_sorts_limit_distance() {
    let mut builder = SearchQuery::new();
    builder.filter(
        "metadata.tier".to_string(),
        Comparison::Equal,
        Cast::Number,
        "3".to_string(),
    );
    builder.sort("metadata.rank".to_string(), Cast::Text, "gold".to_string());
    builder.limit(25);
    builder.distance(Distance::Extended);

    let mut handle = NativeSearchQuery::new();
    assert_eq!(builder.process(&mut handle), Ok(()));
    assert_eq!(
        handle.filters(),
        &vec![(
            "metadata.tier".to_string(),
            Comparison::Equal,
            Cast::Number,
            "3".to_string(),
        )]
    );
    assert_eq!(
        handle.sorts(),
        &vec![("metadata.rank".to_string(), Cast::Text, "gold".to_string())]
    );
    assert_eq!(handle.limit(), Some(25));
    assert_eq!(handle.distance(), Some(Distance::Extended));
}

#[test]
fn search_query_rejects_oversized_filter_key() {
    let mut builder = SearchQuery::new();
    builder.limit(10);
    builder.filter(
        "k".repeat(1000),
        Comparison::Equal,
        Cast::Text,
        "v".to_string(),
    );
    let mut handle = NativeSearchQuery::new();
    assert_eq!(builder.process(&mut handle), Err(Error::TooLong));
    // the limit preceded the failing filter, so it was applied
    assert_eq!(handle.limit(), Some(10));
    assert_eq!(handle.filters().len(), 0);
}

#[test]
fn boundary_lengths_encode() {
    let mut builder = LobbyMemberTransaction::new();
    builder.add_metadata("k".repeat(255), "v".repeat(4095));
    let mut handle = NativeMemberTransaction::new();
    assert_eq!(builder.process(&mut handle), Ok(()));

    let mut over = LobbyMemberTransaction::new();
    over.add_metadata("k".repeat(256), "v".to_string());
    let mut handle2 = NativeMemberTransaction::new();
    assert_eq!(over.process(&mut handle2), Err(Error::TooLong));
}
