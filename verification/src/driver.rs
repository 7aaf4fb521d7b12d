//! The outcome generator and the job driver. A request's plan — its outcome
//! and its expected and actual durations — is derived deterministically from
//! a 64-bit keyed hash of the request's identity, so a re-run over the same
//! request recomputes the same plan. The driver narrates one remodel at a
//! time: it announces the job, waits out the simulated duration, and reports
//! the outcome, strictly in arrival order.
use vstd::prelude::*;

use crate::dispatcher::TweetSpec;
use crate::kaizo::Kaizo;
use vstd::bytes::spec_u64_to_le_bytes;
use vstd::bytes::u64_to_le_bytes;
use vstd::utf8::encode_utf8;

verus! {

/// How a simulated remodel fails, when it fails.
#[derive(Clone, Copy, Debug, PartialEq, Eq, Structural)]
pub enum FailureKind {
    Normal,
    Explosion,
    Heroes,
}

/// The outcome of a simulated remodel.
#[derive(Clone, Copy, Debug, PartialEq, Eq, Structural)]
pub enum KaizoResult {
    Success,
    Failure(FailureKind),
}

/// A fully planned remodel job: the request it answers, the announced and
/// the real duration in seconds, and the outcome.
#[derive(Clone, Debug)]
pub struct KaizoPlan {
    pub kaizo: Kaizo,
    pub expected_time: u64,
    pub actual_time: u64,
    pub result: KaizoResult,
}

/// The 64-bit digest that `twox_hash`'s XXH64 computes over `data` with the
/// given seed; a function of the seed and the bytes alone.
pub uninterp spec fn xxhash64_of(seed: u64, data: Seq<u8>) -> u64;

/// Relies on `twox_hash::XxHash64::oneshot`: the digest depends on the seed
/// and the input bytes alone.
#[verifier::external_body]
fn xxhash64(seed: u64, data: &Vec<u8>) -> (r: u64)
    ensures
        r == xxhash64_of(seed, data@),
{
    twox_hash::XxHash64::oneshot(seed, data.as_slice())
}

/// One hashed text field: its UTF-8 byte length in little-endian, then its
/// UTF-8 bytes. The length prefix keeps the field boundaries, so two
/// requests that only split the same text differently between fields
/// serialize — and hash — differently.
pub open spec fn field_bytes(s: Seq<char>) -> Seq<u8> {
    spec_u64_to_le_bytes(encode_utf8(s).len() as u64) + encode_utf8(s)
}

/// The canonical serialization of a request for hashing: the length-prefixed
/// UTF-8 bytes of the handle, the little-endian bytes of the post id, then
/// the length-prefixed UTF-8 bytes of the two object names.
pub open spec fn canonical_bytes(
    screen_name: Seq<char>,
    status_id: u64,
    from: Seq<char>,
    to: Seq<char>,
) -> Seq<u8> {
    field_bytes(screen_name) + spec_u64_to_le_bytes(status_id) + field_bytes(from) + field_bytes(
        to,
    )
}

/// The hash a request's plan is derived from: its id seeds the digest over
/// its full structural content.
pub open spec fn spec_request_hash(k: Kaizo) -> u64 {
    xxhash64_of(k.status_id, canonical_bytes(k.screen_name@, k.status_id, k.from@, k.to@))
}

fn push_bytes(dst: &mut Vec<u8>, src: &[u8])
    ensures
        final(dst)@ == old(dst)@ + src@,
{
    let ghost dst0 = old(dst)@;
    let n = src.len();
    let mut i: usize = 0;
    while i < n
        invariant
            n == src@.len(),
            i <= n,
            dst@ == dst0 + src@.subrange(0, i as int),
        decreases n - i,
    {
        dst.push(src[i]);
        i = i + 1;
        proof {
            assert(dst@ =~= dst0 + src@.subrange(0, i as int));
        }
    }
    proof {
        assert(dst@ =~= dst0 + src@);
    }
}

fn push_field(dst: &mut Vec<u8>, s: &str)
    ensures
        final(dst)@ == old(dst)@ + field_bytes(s@),
{
    let bytes = s.as_bytes();
    let len_bytes = u64_to_le_bytes(bytes.len() as u64);
    push_bytes(dst, len_bytes.as_slice());
    push_bytes(dst, bytes);
    proof {
        assert(dst@ =~= old(dst)@ + field_bytes(s@));
    }
}

/// Computes the request's keyed hash over its canonical serialization.
fn compute_request_hash(k: &Kaizo) -> (r: u64)
    ensures
        r == spec_request_hash(*k),
{
    let mut data: Vec<u8> = Vec::new();
    push_field(&mut data, k.screen_name.as_str());
    let id_bytes = u64_to_le_bytes(k.status_id);
    push_bytes(&mut data, id_bytes.as_slice());
    push_field(&mut data, k.from.as_str());
    push_field(&mut data, k.to.as_str());
    proof {
        assert(data@ =~= canonical_bytes(k.screen_name@, k.status_id, k.from@, k.to@));
    }
    xxhash64(k.status_id, &data)
}

/// The hash's low byte, which picks the outcome.
pub open spec fn chance_of(h: u64) -> int {
    (h as int) % 256
}

/// The announced duration in seconds: the hash's second byte, offset so that
/// it always lies in 180..=435.
pub open spec fn expected_of(h: u64) -> int {
    ((h as int) / 256) % 256 + 180
}

/// The real duration in seconds: the hash's third byte folded into
/// 60..expected, so a job always takes at least a minute and strictly less
/// than announced.
pub open spec fn actual_of(h: u64) -> int {
    (((h as int) / 65536) % 256) % (expected_of(h) - 60) + 60
}

/// The outcome the hash's low byte picks, by fixed thresholds.
pub open spec fn outcome_of(h: u64) -> KaizoResult {
    if chance_of(h) < 0x90 {
        KaizoResult::Success
    } else if chance_of(h) < 0xd0 {
        KaizoResult::Failure(FailureKind::Normal)
    } else if chance_of(h) < 0xf0 {
        KaizoResult::Failure(FailureKind::Explosion)
    } else {
        KaizoResult::Failure(FailureKind::Heroes)
    }
}

/// The plan a request determines.
pub open spec fn spec_plan(k: Kaizo) -> KaizoPlan {
    let h = spec_request_hash(k);
    KaizoPlan {
        kaizo: k,
        expected_time: expected_of(h) as u64,
        actual_time: actual_of(h) as u64,
        result: outcome_of(h),
    }
}

/// Plans a remodel: derives outcome and durations from the request's hash.
pub fn plan(kaizo: Kaizo) -> (r: KaizoPlan)
    ensures
        r == spec_plan(kaizo),
{
    let h = compute_request_hash(&kaizo);
    proof {
        assert(h & 0xff == h % 256) by (bit_vector);
        assert((h & 0xff00) >> 8 == (h / 256) % 256) by (bit_vector);
        assert((h & 0xff0000) >> 16 == (h / 65536) % 256) by (bit_vector);
        assert((h & 0xff00) >> 8 <= 255) by (bit_vector);
        assert((h & 0xff0000) >> 16 <= 255) by (bit_vector);
    }
    let chance = h & 0xff;
    let expected = ((h & 0xff00) >> 8) + 180;
    let actual = ((h & 0xff0000) >> 16) % (expected - 60) + 60;
    let result = if chance < 0x90 {
        KaizoResult::Success
    } else if chance < 0xd0 {
        KaizoResult::Failure(FailureKind::Normal)
    } else if chance < 0xf0 {
        KaizoResult::Failure(FailureKind::Explosion)
    } else {
        KaizoResult::Failure(FailureKind::Heroes)
    };
    KaizoPlan { kaizo, expected_time: expected, actual_time: actual, result }
}

/// Law: planning is deterministic — requests that agree on all identity
/// fields are planned identically, however often and wherever the plan is
/// recomputed.
pub proof fn lemma_plan_deterministic(k1: Kaizo, k2: Kaizo)
    requires
        k1.screen_name@ == k2.screen_name@,
        k1.status_id == k2.status_id,
        k1.from@ == k2.from@,
        k1.to@ == k2.to@,
    ensures
        spec_plan(k1).expected_time == spec_plan(k2).expected_time,
        spec_plan(k1).actual_time == spec_plan(k2).actual_time,
        spec_plan(k1).result == spec_plan(k2).result,
{
}

/// Law: every plan announces between 180 and 435 seconds, and really takes
/// at least 60 seconds but strictly less than announced.
pub proof fn lemma_plan_bounds(k: Kaizo)
    ensures
        180 <= spec_plan(k).expected_time < 436,
        60 <= spec_plan(k).actual_time < spec_plan(k).expected_time,
{
    let h = spec_request_hash(k);
    assert(0 <= ((h as int) / 256) % 256 < 256);
    assert(0 <= (((h as int) / 65536) % 256) % (expected_of(h) - 60) < expected_of(h) - 60);
}

/// The digit character of a value below ten.
pub open spec fn digit_char(d: int) -> char {
    if d == 0 {
        '0'
    } else if d == 1 {
        '1'
    } else if d == 2 {
        '2'
    } else if d == 3 {
        '3'
    } else if d == 4 {
        '4'
    } else if d == 5 {
        '5'
    } else if d == 6 {
        '6'
    } else if d == 7 {
        '7'
    } else if d == 8 {
        '8'
    } else {
        '9'
    }
}

/// The decimal digits of a non-negative number, most significant first.
pub open spec fn spec_dec(n: int) -> Seq<char>
    decreases n,
{
    if n < 10 {
        seq![digit_char(n)]
    } else {
        spec_dec(n / 10).push(digit_char(n % 10))
    }
}

fn digit_str(d: u64) -> (r: &'static str)
    requires
        d < 10,
    ensures
        r@ == seq![digit_char(d as int)],
{
    proof {
        reveal_strlit("0");
        reveal_strlit("1");
        reveal_strlit("2");
        reveal_strlit("3");
        reveal_strlit("4");
        reveal_strlit("5");
        reveal_strlit("6");
        reveal_strlit("7");
        reveal_strlit("8");
        reveal_strlit("9");
    }
    let r = if d == 0 {
        "0"
    } else if d == 1 {
        "1"
    } else if d == 2 {
        "2"
    } else if d == 3 {
        "3"
    } else if d == 4 {
        "4"
    } else if d == 5 {
        "5"
    } else if d == 6 {
        "6"
    } else if d == 7 {
        "7"
    } else if d == 8 {
        "8"
    } else {
        "9"
    };
    proof {
        assert(r@ =~= seq![digit_char(d as int)]);
    }
    r
}

/// Writes a number in decimal.
pub fn u64_to_dec(n: u64) -> (r: String)
    ensures
        r@ == spec_dec(n as int),
    decreases n,
{
    if n < 10 {
        let mut s = String::new();
        s.append(digit_str(n));
        proof {
            assert(s@ =~= spec_dec(n as int));
        }
        s
    } else {
        let mut s = u64_to_dec(n / 10);
        s.append(digit_str(n % 10));
        proof {
            assert(s@ =~= spec_dec((n as int) / 10).push(digit_char((n as int) % 10)));
        }
        s
    }
}

/// The announced duration in whole minutes, rounded half-up at the
/// 30-second mark.
pub open spec fn minutes_of(expected: u64) -> int {
    expected as int / 60 + if expected as int % 60 >= 30 {
        1int
    } else {
        0int
    }
}

/// Rounds the announced duration to whole minutes, half-up.
pub fn eta_minutes(expected: u64) -> (r: u64)
    ensures
        r == minutes_of(expected),
{
    expected / 60 + if expected % 60 >= 30 {
        1
    } else {
        0
    }
}

/// The text announcing that a remodel has started, with its rounded ETA.
pub open spec fn spec_started_text(k: Kaizo, expected: u64) -> Seq<char> {
    "@"@ + k.screen_name@ + " '"@ + k.from@ + "' -> '"@ + k.to@ + "'의 개조를 시작했어. "@
        + spec_dec(minutes_of(expected)) + "분 정도 걸릴 거야."@
}

/// The text reporting a remodel's outcome, one template per outcome.
pub open spec fn spec_result_text(k: Kaizo, result: KaizoResult) -> Seq<char> {
    match result {
        KaizoResult::Success => "@"@ + k.screen_name@ + " '"@ + k.from@ + "' -> '"@ + k.to@
            + "'의 개조에 성공했어."@,
        KaizoResult::Failure(FailureKind::Normal) => "@"@ + k.screen_name@ + " '"@ + k.from@
            + "' -> '"@ + k.to@ + "'의 개조에 실패했어."@,
        KaizoResult::Failure(FailureKind::Explosion) => "@"@ + k.screen_name@ + " '"@ + k.from@
            + "'을 개조하다가 폭발해 버렸어."@,
        KaizoResult::Failure(FailureKind::Heroes) => "@"@ + k.screen_name@ + " '"@ + k.from@
            + "'가 시공의 폭풍에 휩쓸려 버렸어."@,
    }
}

/// Builds the "started" announcement for a planned job, in reply to the
/// request's post.
pub fn started_message(p: &KaizoPlan) -> (r: TweetSpec)
    ensures
        r.in_reply_to == Some(p.kaizo.status_id),
        r.text@ == spec_started_text(p.kaizo, p.expected_time),
{
    let mut text = String::new();
    text.append("@");
    text.append(p.kaizo.screen_name.as_str());
    text.append(" '");
    text.append(p.kaizo.from.as_str());
    text.append("' -> '");
    text.append(p.kaizo.to.as_str());
    text.append("'의 개조를 시작했어. ");
    let minutes = u64_to_dec(eta_minutes(p.expected_time));
    text.append(minutes.as_str());
    text.append("분 정도 걸릴 거야.");
    proof {
        assert(text@ =~= spec_started_text(p.kaizo, p.expected_time));
    }
    TweetSpec { in_reply_to: Some(p.kaizo.status_id), text }
}

/// Builds the outcome report for a finished job, in reply to the request's
/// post.
pub fn result_message(p: &KaizoPlan) -> (r: TweetSpec)
    ensures
        r.in_reply_to == Some(p.kaizo.status_id),
        r.text@ == spec_result_text(p.kaizo, p.result),
{
    let mut text = String::new();
    text.append("@");
    text.append(p.kaizo.screen_name.as_str());
    match p.result {
        KaizoResult::Success => {
            text.append(" '");
            text.append(p.kaizo.from.as_str());
            text.append("' -> '");
            text.append(p.kaizo.to.as_str());
            text.append("'의 개조에 성공했어.");
        },
        KaizoResult::Failure(FailureKind::Normal) => {
            text.append(" '");
            text.append(p.kaizo.from.as_str());
            text.append("' -> '");
            text.append(p.kaizo.to.as_str());
            text.append("'의 개조에 실패했어.");
        },
        KaizoResult::Failure(FailureKind::Explosion) => {
            text.append(" '");
            text.append(p.kaizo.from.as_str());
            text.append("'을 개조하다가 폭발해 버렸어.");
        },
        KaizoResult::Failure(FailureKind::Heroes) => {
            text.append(" '");
            text.append(p.kaizo.from.as_str());
            text.append("'가 시공의 폭풍에 휩쓸려 버렸어.");
        },
    }
    proof {
        assert(text@ =~= spec_result_text(p.kaizo, p.result));
    }
    TweetSpec { in_reply_to: Some(p.kaizo.status_id), text }
}

/// The text acknowledging a freshly accepted request, or declining names
/// that are over thirty characters long.
pub open spec fn spec_ack_text(k: Kaizo) -> Seq<char> {
    if k.from@.len() > 30 || k.to@.len() > 30 {
        "@"@ + k.screen_name@ + " 물건 이름이 너무 길어."@
    } else {
        "@"@ + k.screen_name@ + " '"@ + k.from@ + "' -> '"@ + k.to@ + "' 말이지? 알겠어!"@
    }
}

/// Builds the acknowledgment sent as soon as a request is accepted.
pub fn ack_message(k: &Kaizo) -> (r: TweetSpec)
    ensures
        r.in_reply_to == Some(k.status_id),
        r.text@ == spec_ack_text(*k),
{
    let mut text = String::new();
    text.append("@");
    text.append(k.screen_name.as_str());
    if k.from.as_str().unicode_len() > 30 || k.to.as_str().unicode_len() > 30 {
        text.append(" 물건 이름이 너무 길어.");
    } else {
        text.append(" '");
        text.append(k.from.as_str());
        text.append("' -> '");
        text.append(k.to.as_str());
        text.append("' 말이지? 알겠어!");
    }
    proof {
        assert(text@ =~= spec_ack_text(*k));
    }
    TweetSpec { in_reply_to: Some(k.status_id), text }
}

/// One step of a job's narration: post a message, or wait this many seconds.
#[derive(Clone, Debug)]
pub enum Emission {
    Post(TweetSpec),
    Wait(u64),
}

/// Whether `e` is the "started" announcement of request `k`.
pub open spec fn is_started_post(e: Emission, k: Kaizo) -> bool {
    e matches Emission::Post(t) && t.in_reply_to == Some(k.status_id) && t.text@
        == spec_started_text(k, spec_plan(k).expected_time)
}

/// Whether `e` is the wait for request `k`'s real duration.
pub open spec fn is_job_wait(e: Emission, k: Kaizo) -> bool {
    e matches Emission::Wait(d) && d == spec_plan(k).actual_time
}

/// Whether `e` is the outcome report of request `k`.
pub open spec fn is_result_post(e: Emission, k: Kaizo) -> bool {
    e matches Emission::Post(t) && t.in_reply_to == Some(k.status_id) && t.text@
        == spec_result_text(k, spec_plan(k).result)
}

/// Whether `r` narrates the queued requests one after another, each through
/// its full started / wait / result lifecycle before the next begins.
pub open spec fn drive_script(queue: Seq<Kaizo>, r: Seq<Emission>) -> bool {
    &&& r.len() == 3 * queue.len()
    &&& forall|i: int|
        0 <= i < queue.len() ==> {
            &&& is_started_post(#[trigger] r[3 * i], queue[i])
            &&& is_job_wait(r[3 * i + 1], queue[i])
            &&& is_result_post(r[3 * i + 2], queue[i])
        }
}

/// Plans every queued request in arrival order and lays out the driver's
/// serialized narration: announce, wait out the real duration, report.
pub fn drive(queue: Vec<Kaizo>) -> (r: Vec<Emission>)
    ensures
        drive_script(queue@, r@),
{
    let ghost q0 = queue@;
    let mut q = queue;
    let mut r: Vec<Emission> = Vec::new();
    let ghost mut done: int = 0;
    while q.len() > 0
        invariant
            0 <= done,
            done + q@.len() == q0.len(),
            q@ == q0.subrange(done, q0.len() as int),
            r@.len() == 3 * done,
            forall|i: int|
                0 <= i < done ==> {
                    &&& is_started_post(#[trigger] r@[3 * i], q0[i])
                    &&& is_job_wait(r@[3 * i + 1], q0[i])
                    &&& is_result_post(r@[3 * i + 2], q0[i])
                },
        decreases q@.len(),
    {
        let k = q.remove(0);
        proof {
            assert(q@ =~= q0.subrange(done + 1, q0.len() as int));
            assert(k == q0[done]);
        }
        let p = plan(k);
        let started = started_message(&p);
        let wait = p.actual_time;
        let report = result_message(&p);
        r.push(Emission::Post(started));
        r.push(Emission::Wait(wait));
        r.push(Emission::Post(report));
        proof {
            done = done + 1;
        }
    }
    proof {
        assert(q0.subrange(done, q0.len() as int).len() == 0);
    }
    r
}

/// Law: jobs are narrated strictly in arrival order and never interleaved —
/// in the driver's emission sequence, a later request's "started" post
/// stands strictly after every earlier request's "result" post.
pub proof fn lemma_drive_ordering(queue: Seq<Kaizo>, r: Seq<Emission>, i: int, j: int)
    requires
        drive_script(queue, r),
        0 <= i < j < queue.len(),
    ensures
        is_result_post(r[3 * i + 2], queue[i]),
        is_started_post(r[3 * j], queue[j]),
        3 * i + 2 < 3 * j,
{
    assert(is_started_post(r[3 * i], queue[i]));
    assert(is_started_post(r[3 * j], queue[j]));
}

} // verus!
