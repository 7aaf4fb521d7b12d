use nitori::driver::Emission;
use nitori::driver::drive;
use nitori::driver::plan;
use nitori::driver::result_message;
use nitori::driver::started_message;
use nitori::kaizo::Kaizo;

fn request(name: &str, id: u64, from: &str, to: &str) -> Kaizo {
    Kaizo {
        screen_name: name.to_string(),
        status_id: id,
        from: from.to_string(),
        to: to.to_string(),
    }
}

#[test]
fn one_job_announces_waits_reports() {
    let k = request("tester", 11, "집", "성");
    let p = plan(k.clone());
    let started = started_message(&p);
    let report = result_message(&p);
    let emissions = drive(vec![k]);
    assert_eq!(emissions.len(), 3);
    match &emissions[0] {
        Emission::Post(t) => {
            assert_eq!(t.in_reply_to, Some(11));
            assert_eq!(t.text, started.text);
        }
        _ => panic!(),
    }
    match &emissions[1] {
        Emission::Wait(d) => assert_eq!(*d, p.actual_time),
        _ => panic!(),
    }
    match &emissions[2] {
        Emission::Post(t) => {
            assert_eq!(t.in_reply_to, Some(11));
            assert_eq!(t.text, report.text);
        }
        _ => panic!(),
    }
}

#[test]
fn jobs_are_never_interleaved() {
    // two requests back to back: the second "started" post comes only after
    // the first "result" post
    let k1 = request("one", 1, "a", "b");
    let k2 = request("two", 2, "c", "d");
    let first_report = result_message(&plan(k1.clone()));
    let second_start = started_message(&plan(k2.clone()));
    let emissions = drive(vec![k1, k2]);
    assert_eq!(emissions.len(), 6);
    let index_of = |text: &str| {
        emissions
            .iter()
            .position(|e| matches!(e, Emission::Post(t) if t.text == text))
            .unwrap()
    };
    assert!(index_of(&first_report.text) < index_of(&second_start.text));
}

#[test]
fn queue_order_is_arrival_order() {
    let k1 = request("one", 1, "a", "b");
    let k2 = request("two", 2, "c", "d");
    let emissions = drive(vec![k1, k2]);
    match &emissions[0] {
        Emission::Post(t) => assert_eq!(t.in_reply_to, Some(1)),
        _ => panic!(),
    }
    match &emissions[3] {
        Emission::Post(t) => assert_eq!(t.in_reply_to, Some(2)),
        _ => panic!(),
    }
}

#[test]
fn empty_queue_emits_nothing() {
    assert_eq!(drive(Vec::new()).len(), 0);
}
