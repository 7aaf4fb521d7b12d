//! One pass through the whole core: a stream event is filtered and parsed,
//! the job driver lays out the narration, and the dispatcher delivers the
//! posts through a mock API that rate-limits once.

use nitori::dispatcher::{Dispatcher, Followup, SendOutcome};
use nitori::driver::{drive, Emission};
use nitori::filter::{classify_event, EventAction, MentionEntity, StreamEvent, StreamTweet};

#[test]
fn mention_to_delivered_replies() {
    let bot_id = 1000;
    let event = StreamEvent::Tweet(StreamTweet {
        screen_name: "asker".to_string(),
        id: 77,
        text: "집 -> 성 @bot".to_string(),
        is_retweet: false,
        is_quote: false,
        mentions: vec![MentionEntity { user_id: bot_id, start: 7 }],
    });
    let kaizo = match classify_event(&event, bot_id) {
        EventAction::Emit(k) => k,
        _ => panic!(),
    };

    let mut dispatcher = Dispatcher::new();
    let mut waited = 0u64;
    for emission in drive(vec![kaizo]) {
        match emission {
            Emission::Post(post) => dispatcher.submit(post),
            Emission::Wait(seconds) => waited += seconds,
        }
    }
    assert!(60 <= waited && waited < 436);
    assert_eq!(dispatcher.pending(), 2);

    // the mock API rejects the first attempt with the rate-limit code, then
    // accepts everything
    let mut rate_limits_left = 1;
    let mut delivered: Vec<String> = Vec::new();
    while let Some(post) = dispatcher.next_to_send() {
        let text = post.text.clone();
        let outcome = if rate_limits_left > 0 {
            rate_limits_left -= 1;
            SendOutcome::ApiErrors(vec![185])
        } else {
            delivered.push(text);
            SendOutcome::Delivered
        };
        assert_ne!(dispatcher.complete(&outcome), Followup::Fatal);
    }
    // both replies went out, and the rate-limited "started" post was retried
    // behind the "result" post
    assert_eq!(delivered.len(), 2);
    assert!(!delivered[0].contains("시작했어"));
    assert!(delivered[1].contains("시작했어"));
}
