use bdex::acquire::{Acquisition, Action, BlockOutcome, Event, Phase};
use bdex::digest::sha1_hex;
use bdex::manifest::MetadataBlock;

fn block_of(content: &[u8]) -> MetadataBlock {
    MetadataBlock {
        url: "http://i0.hdslb.com/bfs/album/b.png".to_string(),
        size: content.len(),
        sha1: sha1_hex(content),
    }
}

#[test]
fn work_begins_by_looking_at_the_destination() {
    let block = block_of(b"block");
    let task = Acquisition::start(8, false);
    assert_eq!(task.budget(), 8);
    assert_eq!(task.failures(), 0);
    assert_eq!(task.phase(), Phase::Probing);
    assert_eq!(task.outcome(), None);
    assert_eq!(task.action(&block), Action::Probe);
}

#[test]
fn a_missing_block_is_fetched_from_its_own_address_first() {
    let block = block_of(b"block");
    let mut task = Acquisition::start(8, false);
    assert_eq!(
        block.download(&mut task, Event::Absent),
        Action::Fetch("http://i0.hdslb.com/bfs/album/b.png".to_string())
    );
    assert_eq!(block.download(&mut task, Event::Fetched), Action::Finish(BlockOutcome::Verified));
    assert_eq!(task.outcome(), Some(BlockOutcome::Verified));
    assert_eq!(task.failures(), 0);
}

#[test]
fn an_existing_file_is_trusted_when_hashes_are_skipped() {
    let block = block_of(b"block");
    let mut task = Acquisition::start(8, true);
    assert_eq!(
        block.download(&mut task, Event::Present),
        Action::Finish(BlockOutcome::SkippedExisting)
    );
}

#[test]
fn an_existing_file_with_the_right_digest_is_kept() {
    let content = b"the bytes of the block".to_vec();
    let block = block_of(&content);
    for _ in 0..2 {
        let mut task = Acquisition::start(8, false);
        let mut asked = vec![task.action(&block)];
        asked.push(block.download(&mut task, Event::Present));
        asked.push(block.download(&mut task, Event::Hashed(sha1_hex(&content))));
        assert_eq!(
            asked,
            vec![Action::Probe, Action::Hash, Action::Finish(BlockOutcome::SkippedHashMatch)]
        );
        assert_eq!(task.failures(), 0);
    }
}

#[test]
fn an_existing_file_with_another_digest_is_fetched_anew() {
    let block = block_of(b"right");
    let mut task = Acquisition::start(8, false);
    assert_eq!(block.download(&mut task, Event::Present), Action::Hash);
    assert_eq!(
        block.download(&mut task, Event::Hashed(sha1_hex(b"wrong"))),
        Action::Fetch(block.url.clone())
    );
    assert_eq!(task.failures(), 0);
}

#[test]
fn a_digest_in_upper_case_does_not_match() {
    let block = block_of(b"right");
    let mut task = Acquisition::start(8, false);
    block.download(&mut task, Event::Present);
    assert_eq!(
        block.download(&mut task, Event::Hashed(block.sha1.to_uppercase())),
        Action::Fetch(block.url.clone())
    );
    assert!(block.has_digest(&block.sha1));
    assert!(!block.has_digest(&block.sha1.to_uppercase()));
    assert!(block.holds(b"right"));
    assert!(!block.holds(b"wrong"));
}

#[test]
fn the_report_on_a_file_carries_its_digest() {
    assert_eq!(
        Event::hashed(b"hello world"),
        Event::Hashed("2aae6c35c94fcfb415dbe95f408b9ce91ee846ed".to_string())
    );
    let block = block_of(b"hello world");
    let mut task = Acquisition::start(1, false);
    block.download(&mut task, Event::Present);
    assert_eq!(
        block.download(&mut task, Event::hashed(b"hello world")),
        Action::Finish(BlockOutcome::SkippedHashMatch)
    );
}

#[test]
fn an_unreadable_file_costs_an_attempt() {
    let block = block_of(b"block");
    let mut task = Acquisition::start(2, false);
    assert_eq!(block.download(&mut task, Event::Present), Action::Hash);
    assert_eq!(block.download(&mut task, Event::Unreadable), Action::Discard);
    assert_eq!(task.failures(), 1);
    assert_eq!(block.download(&mut task, Event::Discarded), Action::Probe);
}

#[test]
fn each_failed_attempt_moves_on_to_the_next_mirror() {
    let block = block_of(b"block");
    let mut task = Acquisition::start(10, false);
    let expected = [
        "http://i0.hdslb.com/bfs/album/b.png",
        "https://i3.hdslb.com/bfs/album/b.png",
        "http://i3.hdslb.com/bfs/album/b.png",
        "https://i2.hdslb.com/bfs/album/b.png",
        "http://i2.hdslb.com/bfs/album/b.png",
        "https://i1.hdslb.com/bfs/album/b.png",
        "http://i1.hdslb.com/bfs/album/b.png",
        "https://i0.hdslb.com/bfs/album/b.png",
        "http://i0.hdslb.com/bfs/album/b.png",
        "https://i3.hdslb.com/bfs/album/b.png",
    ];
    let mut action = task.action(&block);
    for (attempt, url) in expected.iter().enumerate() {
        assert_eq!(action, Action::Probe);
        assert_eq!(task.failures() as usize, attempt);
        assert_eq!(block.download(&mut task, Event::Absent), Action::Fetch(url.to_string()));
        assert_eq!(block.download(&mut task, Event::Failed), Action::Discard);
        action = block.download(&mut task, Event::Discarded);
    }
    assert_eq!(action, Action::Finish(BlockOutcome::FailedExhausted));
    assert_eq!(task.failures(), 10);
    assert_eq!(task.outcome(), Some(BlockOutcome::FailedExhausted));
}

#[test]
fn a_block_announced_securely_moves_on_to_the_mirrors_too() {
    let mut block = block_of(b"block");
    block.url = "https://i0.hdslb.com/x.png".to_string();
    let mut task = Acquisition::start(8, false);
    let expected = [
        "https://i0.hdslb.com/x.png",
        "https://i3.hdslb.com/x.png",
        "https://i3.hdslb.com/x.png",
        "https://i2.hdslb.com/x.png",
        "https://i2.hdslb.com/x.png",
        "https://i1.hdslb.com/x.png",
        "https://i1.hdslb.com/x.png",
        "https://i0.hdslb.com/x.png",
    ];
    for url in expected {
        assert_eq!(block.download(&mut task, Event::Absent), Action::Fetch(url.to_string()));
        assert_eq!(block.download(&mut task, Event::Failed), Action::Discard);
        block.download(&mut task, Event::Discarded);
    }
    assert_eq!(task.outcome(), Some(BlockOutcome::FailedExhausted));
}

#[test]
fn a_budget_of_one_allows_one_fetch() {
    let block = block_of(b"block");
    let mut task = Acquisition::start(1, false);
    assert_eq!(block.download(&mut task, Event::Absent), Action::Fetch(block.url.clone()));
    assert_eq!(block.download(&mut task, Event::Failed), Action::Discard);
    assert_eq!(
        block.download(&mut task, Event::Discarded),
        Action::Finish(BlockOutcome::FailedExhausted)
    );
}

#[test]
fn a_later_attempt_may_succeed() {
    let block = block_of(b"block");
    let mut task = Acquisition::start(3, false);
    block.download(&mut task, Event::Absent);
    block.download(&mut task, Event::Failed);
    assert_eq!(block.download(&mut task, Event::Discarded), Action::Probe);
    assert_eq!(
        block.download(&mut task, Event::Absent),
        Action::Fetch("https://i3.hdslb.com/bfs/album/b.png".to_string())
    );
    assert_eq!(block.download(&mut task, Event::Fetched), Action::Finish(BlockOutcome::Verified));
    assert_eq!(task.failures(), 1);
}

#[test]
fn a_budget_of_nothing_leaves_the_block_alone() {
    let block = block_of(b"block");
    let mut task = Acquisition::start(0, false);
    assert_eq!(task.phase(), Phase::Idle);
    assert_eq!(task.action(&block), Action::Idle);
    assert_eq!(task.outcome(), None);
    assert_eq!(block.download(&mut task, Event::Absent), Action::Idle);
    assert_eq!(block.download(&mut task, Event::Failed), Action::Idle);
    assert_eq!(task.failures(), 0);
}

#[test]
fn an_event_that_answers_nothing_changes_nothing() {
    let block = block_of(b"block");
    let mut task = Acquisition::start(4, false);
    assert_eq!(block.download(&mut task, Event::Fetched), Action::Probe);
    assert_eq!(block.download(&mut task, Event::Failed), Action::Probe);
    assert_eq!(block.download(&mut task, Event::Discarded), Action::Probe);
    assert_eq!(block.download(&mut task, Event::Hashed(block.sha1.clone())), Action::Probe);
    assert_eq!(task.failures(), 0);
    assert_eq!(block.download(&mut task, Event::Absent), Action::Fetch(block.url.clone()));
    assert_eq!(block.download(&mut task, Event::Present), Action::Fetch(block.url.clone()));
    assert_eq!(block.download(&mut task, Event::Absent), Action::Fetch(block.url.clone()));
}

#[test]
fn ended_work_stays_ended() {
    let block = block_of(b"block");
    let mut task = Acquisition::start(4, true);
    assert_eq!(
        block.download(&mut task, Event::Present),
        Action::Finish(BlockOutcome::SkippedExisting)
    );
    for event in [Event::Absent, Event::Present, Event::Failed, Event::Fetched, Event::Discarded] {
        assert_eq!(block.download(&mut task, event), Action::Finish(BlockOutcome::SkippedExisting));
    }
}
