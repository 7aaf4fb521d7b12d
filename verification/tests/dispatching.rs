use nitori::dispatcher::COOLDOWN_SECONDS;
use nitori::dispatcher::Dispatcher;
use nitori::dispatcher::Followup;
use nitori::dispatcher::PACE_SECONDS;
use nitori::dispatcher::SendOutcome;
use nitori::dispatcher::TweetSpec;

fn post(text: &str) -> TweetSpec {
    TweetSpec { in_reply_to: None, text: text.to_string() }
}

#[test]
fn delivery_paces_and_consumes() {
    let mut d = Dispatcher::new();
    d.submit(post("one"));
    d.submit(post("two"));
    assert_eq!(d.pending(), 2);
    assert_eq!(d.next_to_send().unwrap().text, "one");
    let f = d.complete(&SendOutcome::Delivered);
    assert_eq!(f, Followup::Pace(PACE_SECONDS));
    assert_eq!(d.pending(), 1);
    assert_eq!(d.next_to_send().unwrap().text, "two");
}

#[test]
fn rate_limit_requeues_the_same_post() {
    // the external API reports error code 185: the post is retried after a
    // cooldown, and a newer post may overtake it
    let mut d = Dispatcher::new();
    d.submit(post("first"));
    d.submit(post("second"));
    let f = d.complete(&SendOutcome::ApiErrors(vec![185]));
    assert_eq!(f, Followup::Cooldown(COOLDOWN_SECONDS));
    assert!(!d.is_dead());
    assert_eq!(d.pending(), 2);
    assert_eq!(d.next_to_send().unwrap().text, "second");
}

#[test]
fn rate_limited_post_is_eventually_delivered() {
    // a mock API that rejects with code 185 a few times, then accepts
    let mut d = Dispatcher::new();
    d.submit(post("stubborn"));
    let mut failures_left = 3;
    let mut delivered = 0;
    while let Some(p) = d.next_to_send() {
        assert_eq!(p.text, "stubborn");
        let outcome = if failures_left > 0 {
            failures_left -= 1;
            SendOutcome::ApiErrors(vec![185])
        } else {
            delivered += 1;
            SendOutcome::Delivered
        };
        d.complete(&outcome);
    }
    assert_eq!(delivered, 1);
    assert_eq!(d.pending(), 0);
    assert!(!d.is_dead());
}

#[test]
fn rate_limit_code_found_among_others() {
    let mut d = Dispatcher::new();
    d.submit(post("one"));
    let f = d.complete(&SendOutcome::ApiErrors(vec![130, 185]));
    assert_eq!(f, Followup::Cooldown(COOLDOWN_SECONDS));
    assert!(!d.is_dead());
}

#[test]
fn other_api_error_is_fatal() {
    let mut d = Dispatcher::new();
    d.submit(post("one"));
    d.submit(post("two"));
    let f = d.complete(&SendOutcome::ApiErrors(vec![187]));
    assert_eq!(f, Followup::Fatal);
    assert!(d.is_dead());
    // no further sends: nothing is handed out, even with posts still queued
    assert!(d.next_to_send().is_none());
    d.submit(post("three"));
    assert!(d.next_to_send().is_none());
}

#[test]
fn transport_failure_is_fatal() {
    let mut d = Dispatcher::new();
    d.submit(post("one"));
    let f = d.complete(&SendOutcome::Failed);
    assert_eq!(f, Followup::Fatal);
    assert!(d.is_dead());
    assert!(d.next_to_send().is_none());
}
