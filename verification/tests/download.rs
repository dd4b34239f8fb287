use podchiver::download::{
    decide_directory, download_targets, source_of, DirectoryAttempt, DirectoryDecision, Source,
    Transfer, TransferAction, TransferEvent, TransferFailure, TransferPhase, BAR_WIDTH,
};
use podchiver::podchiver::Podcast;

const FEED: &str = "<rss version=\"2.0\"><channel><title>Show: One</title>\
<item><title>First</title><pubDate>Mon, 01 May 2023 13:00:00 +0000</pubDate>\
<enclosure url=\"https://e.com/first.mp3\" length=\"1\" type=\"a/b\"/></item>\
<item><title>Notes</title></item>\
<item><title>Second?</title>\
<enclosure url=\"https://e.com/second.mp3\" length=\"1\" type=\"a/b\"/></item>\
</channel></rss>";

#[test]
fn source_is_remote_when_location_begins_with_http() {
    assert_eq!(source_of("http://example.com/feed.xml"), Source::Remote);
    assert_eq!(source_of("https://example.com/feed.xml"), Source::Remote);
    assert_eq!(source_of("http"), Source::Remote);
    assert_eq!(source_of("httpfile.xml"), Source::Remote);
}

#[test]
fn source_is_local_otherwise() {
    assert_eq!(source_of("feed.xml"), Source::Local);
    assert_eq!(source_of("/tmp/http/feed.xml"), Source::Local);
    assert_eq!(source_of("HTTP://example.com"), Source::Local);
    assert_eq!(source_of("htt"), Source::Local);
    assert_eq!(source_of(""), Source::Local);
    assert_eq!(source_of("ftp://example.com/feed.xml"), Source::Local);
}

#[test]
fn directory_decisions() {
    assert_eq!(decide_directory(DirectoryAttempt::Created), DirectoryDecision::Proceed);
    assert_eq!(
        decide_directory(DirectoryAttempt::AlreadyExists { is_directory: true }),
        DirectoryDecision::Proceed
    );
    assert_eq!(
        decide_directory(DirectoryAttempt::AlreadyExists { is_directory: false }),
        DirectoryDecision::Exit { status: 2 }
    );
    assert_eq!(decide_directory(DirectoryAttempt::Failed), DirectoryDecision::Exit { status: 1 });
}

#[test]
fn targets_follow_the_feed() {
    let podcast = Podcast::new(FEED).unwrap();
    assert_eq!(podcast.dir_name(), "Show One");
    let targets = download_targets(&podcast, false);
    let seen: Vec<(&str, &str)> =
        targets.iter().map(|t| (t.url.as_str(), t.filename.as_str())).collect();
    assert_eq!(
        seen,
        vec![("https://e.com/first.mp3", "First.mp3"), ("https://e.com/second.mp3", "Second.mp3")]
    );
    let dated = download_targets(&podcast, true);
    let seen: Vec<&str> = dated.iter().map(|t| t.filename.as_str()).collect();
    assert_eq!(seen, vec!["20230501-130000Z_First.mp3", "Second.mp3"]);
}

#[test]
fn run_over_a_feed_with_one_item_lacking_an_enclosure() {
    let podcast = Podcast::new(FEED).unwrap();
    assert_eq!(decide_directory(DirectoryAttempt::Created), DirectoryDecision::Proceed);
    let targets = download_targets(&podcast, false);
    assert_eq!(targets.len(), 2);
    let mut written = 0;
    for target in &targets {
        let mut transfer = Transfer::new(target.filename.clone());
        assert_eq!(
            transfer.step(TransferEvent::Response { content_length: Some(3) }),
            TransferAction::Open
        );
        assert_eq!(transfer.step(TransferEvent::Opened), TransferAction::Read);
        assert_eq!(transfer.step(TransferEvent::Read { len: 3 }), TransferAction::Write);
        assert_eq!(transfer.step(TransferEvent::Written), TransferAction::ShowAndRead);
        assert_eq!(transfer.step(TransferEvent::Read { len: 0 }), TransferAction::Finish);
        assert_eq!(transfer.phase(), TransferPhase::Finished);
        written += 1;
    }
    assert_eq!(written, 2);
}

#[test]
fn transfer_with_known_size_shows_a_bar() {
    let mut t = Transfer::new("a.mp3".to_string());
    assert_eq!(t.phase(), TransferPhase::AwaitingResponse);
    assert!(!t.has_bar());
    assert_eq!(t.step(TransferEvent::Response { content_length: Some(200) }), TransferAction::Open);
    assert!(t.has_bar());
    assert_eq!(t.phase(), TransferPhase::AwaitingDestination);
    assert_eq!(t.step(TransferEvent::Opened), TransferAction::Read);
    assert_eq!(t.phase(), TransferPhase::AwaitingRead);
    assert_eq!(t.step(TransferEvent::Read { len: 100 }), TransferAction::Write);
    assert_eq!(t.phase(), TransferPhase::AwaitingWrite { len: 100 });
    assert_eq!(t.received(), 0);
    assert_eq!(t.step(TransferEvent::Written), TransferAction::ShowAndRead);
    assert_eq!(t.received(), 100);
    let half = BAR_WIDTH as usize / 2;
    let expected = format!(
        "\x1b[2K\r{}{} 50%",
        "\u{2588}".repeat(half),
        "\u{2591}".repeat(BAR_WIDTH as usize - half)
    );
    assert_eq!(t.report(), expected);
    assert_eq!(t.step(TransferEvent::Read { len: 100 }), TransferAction::Write);
    assert_eq!(t.step(TransferEvent::Written), TransferAction::ShowAndRead);
    assert_eq!(t.step(TransferEvent::Read { len: 0 }), TransferAction::Finish);
    assert_eq!(t.phase(), TransferPhase::Finished);
    assert_eq!(t.received(), 200);
    let full = format!("\x1b[2K\r{} 100%\n", "\u{2588}".repeat(BAR_WIDTH as usize));
    assert_eq!(t.report(), full);
}

#[test]
fn transfer_with_unknown_size_shows_a_count() {
    for length in [None, Some(0)] {
        let mut t = Transfer::new("a.mp3".to_string());
        assert_eq!(t.step(TransferEvent::Response { content_length: length }), TransferAction::Open);
        assert_eq!(t.step(TransferEvent::Opened), TransferAction::Read);
        assert!(!t.has_bar());
        assert_eq!(t.report(), "\ra.mp3: 0 bytes");
        assert_eq!(t.step(TransferEvent::Read { len: 8192 }), TransferAction::Write);
        assert_eq!(t.step(TransferEvent::Written), TransferAction::ShowAndRead);
        assert_eq!(t.step(TransferEvent::Read { len: 1808 }), TransferAction::Write);
        assert_eq!(t.step(TransferEvent::Written), TransferAction::ShowAndRead);
        assert_eq!(t.received(), 10000);
        assert_eq!(t.report(), "\ra.mp3: 10000 bytes");
    }
}

#[test]
fn transfer_bar_stops_at_the_announced_size() {
    let mut t = Transfer::new("a.mp3".to_string());
    t.step(TransferEvent::Response { content_length: Some(10) });
    t.step(TransferEvent::Opened);
    t.step(TransferEvent::Read { len: 25 });
    t.step(TransferEvent::Written);
    assert_eq!(t.received(), 25);
    let full = format!("\x1b[2K\r{} 100%\n", "\u{2588}".repeat(BAR_WIDTH as usize));
    assert_eq!(t.report(), full);
}

#[test]
fn transfer_count_holds_at_the_largest_number() {
    let mut t = Transfer::new("a".to_string());
    t.step(TransferEvent::Response { content_length: None });
    t.step(TransferEvent::Opened);
    t.step(TransferEvent::Read { len: u64::MAX - 1 });
    t.step(TransferEvent::Written);
    t.step(TransferEvent::Read { len: 5 });
    t.step(TransferEvent::Written);
    assert_eq!(t.received(), u64::MAX);
}

#[test]
fn transfer_is_abandoned_on_failure() {
    let mut t = Transfer::new("a".to_string());
    assert_eq!(t.step(TransferEvent::RequestFailed), TransferAction::Abandon);
    assert_eq!(t.phase(), TransferPhase::Failed { failure: TransferFailure::Request });

    let mut t = Transfer::new("a".to_string());
    t.step(TransferEvent::Response { content_length: Some(10) });
    assert_eq!(t.step(TransferEvent::OpenFailed), TransferAction::Abandon);
    assert_eq!(t.phase(), TransferPhase::Failed { failure: TransferFailure::Write });

    let mut t = Transfer::new("a".to_string());
    t.step(TransferEvent::Response { content_length: Some(10) });
    t.step(TransferEvent::Opened);
    assert_eq!(t.step(TransferEvent::ReadFailed), TransferAction::Abandon);
    assert_eq!(t.phase(), TransferPhase::Failed { failure: TransferFailure::Read });

    let mut t = Transfer::new("a".to_string());
    t.step(TransferEvent::Response { content_length: Some(10) });
    t.step(TransferEvent::Opened);
    t.step(TransferEvent::Read { len: 4 });
    assert_eq!(t.step(TransferEvent::WriteFailed), TransferAction::Abandon);
    assert_eq!(t.phase(), TransferPhase::Failed { failure: TransferFailure::Write });
    assert_eq!(t.received(), 0);
}

#[test]
fn transfer_ignores_events_that_do_not_fit() {
    let mut t = Transfer::new("a".to_string());
    assert_eq!(t.step(TransferEvent::Read { len: 4 }), TransferAction::Ignore);
    assert_eq!(t.step(TransferEvent::Written), TransferAction::Ignore);
    assert_eq!(t.phase(), TransferPhase::AwaitingResponse);
    t.step(TransferEvent::Response { content_length: None });
    assert_eq!(t.step(TransferEvent::Read { len: 4 }), TransferAction::Ignore);
    assert_eq!(t.step(TransferEvent::WriteFailed), TransferAction::Ignore);
    assert_eq!(t.phase(), TransferPhase::AwaitingDestination);
    t.step(TransferEvent::Opened);
    assert_eq!(t.step(TransferEvent::Written), TransferAction::Ignore);
    assert_eq!(t.step(TransferEvent::RequestFailed), TransferAction::Ignore);
    assert_eq!(t.step(TransferEvent::Opened), TransferAction::Ignore);
    assert_eq!(t.phase(), TransferPhase::AwaitingRead);
    t.step(TransferEvent::Read { len: 4 });
    assert_eq!(t.step(TransferEvent::Read { len: 4 }), TransferAction::Ignore);
    assert_eq!(t.step(TransferEvent::ReadFailed), TransferAction::Ignore);
    assert_eq!(t.phase(), TransferPhase::AwaitingWrite { len: 4 });
}

#[test]
fn transfer_that_has_ended_stays_as_it_is() {
    let events = [
        TransferEvent::Response { content_length: Some(5) },
        TransferEvent::RequestFailed,
        TransferEvent::Opened,
        TransferEvent::OpenFailed,
        TransferEvent::Read { len: 3 },
        TransferEvent::Read { len: 0 },
        TransferEvent::ReadFailed,
        TransferEvent::Written,
        TransferEvent::WriteFailed,
    ];
    let mut finished = Transfer::new("a".to_string());
    finished.step(TransferEvent::Response { content_length: None });
    finished.step(TransferEvent::Opened);
    finished.step(TransferEvent::Read { len: 0 });
    let mut failed = Transfer::new("a".to_string());
    failed.step(TransferEvent::RequestFailed);
    for event in events {
        assert_eq!(finished.step(event), TransferAction::Ignore);
        assert_eq!(finished.phase(), TransferPhase::Finished);
        assert_eq!(failed.step(event), TransferAction::Ignore);
        assert_eq!(failed.phase(), TransferPhase::Failed { failure: TransferFailure::Request });
    }
}
