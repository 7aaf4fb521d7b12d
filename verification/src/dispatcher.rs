//! The dispatcher: the sole writer to the external posting API. It services
//! submitted posts strictly in arrival order, one attempt in flight at a
//! time, paces itself after each delivery, and absorbs rate-limit rejections
//! by re-queuing the post after a cooldown. Any other failure is fatal.
use vstd::prelude::*;

verus! {

/// The numeric code with which the external API reports a rate limit.
pub const RATE_LIMIT_CODE: i32 = 185;

/// Seconds slept after every successful delivery.
pub const PACE_SECONDS: u64 = 5;

/// Seconds slept before a rate-limited post is attempted again.
pub const COOLDOWN_SECONDS: u64 = 300;

/// One outgoing post: its text, and the post it replies to, if any.
#[derive(Clone, Debug)]
pub struct TweetSpec {
    pub in_reply_to: Option<u64>,
    pub text: String,
}

/// What the external API reported for one delivery attempt, reduced to plain
/// values: accepted, rejected with a list of numeric error codes, or failed
/// in some other way (transport, serialization, and the like).
#[derive(Clone, Debug)]
pub enum SendOutcome {
    Delivered,
    ApiErrors(Vec<i32>),
    Failed,
}

/// What the dispatcher's driving loop must do after an attempt was resolved.
#[derive(Clone, Copy, Debug, PartialEq, Eq, Structural)]
pub enum Followup {
    /// Sleep this many seconds, then continue with the next post.
    Pace(u64),
    /// Sleep this many seconds; the attempted post was re-queued.
    Cooldown(u64),
    /// Stop: the failure is fatal and no further post may be attempted.
    Fatal,
}

/// Whether an outcome is the recognized rate-limit rejection: some reported
/// error carries the rate-limit code.
pub open spec fn spec_rate_limited(outcome: SendOutcome) -> bool {
    outcome matches SendOutcome::ApiErrors(codes) && exists|i: int|
        0 <= i < codes@.len() && codes@[i] == RATE_LIMIT_CODE
}

/// Whether an outcome kills the dispatcher: anything that is neither a
/// delivery nor the recognized rate-limit rejection.
pub open spec fn spec_fatal(outcome: SendOutcome) -> bool {
    !(outcome is Delivered) && !spec_rate_limited(outcome)
}

/// The queue after the front post's attempt is resolved: the rate-limit
/// rejection moves the post to the back; everything else consumes it.
pub open spec fn spec_complete_queue(q: Seq<TweetSpec>, outcome: SendOutcome) -> Seq<TweetSpec> {
    if spec_rate_limited(outcome) {
        q.drop_first().push(q[0])
    } else {
        q.drop_first()
    }
}

/// What the driving loop must do after an attempt with this outcome.
pub open spec fn spec_followup(outcome: SendOutcome) -> Followup {
    if outcome is Delivered {
        Followup::Pace(PACE_SECONDS)
    } else if spec_rate_limited(outcome) {
        Followup::Cooldown(COOLDOWN_SECONDS)
    } else {
        Followup::Fatal
    }
}

fn has_rate_limit_code(codes: &Vec<i32>) -> (r: bool)
    ensures
        r == exists|i: int| 0 <= i < codes@.len() && codes@[i] == RATE_LIMIT_CODE,
{
    let mut i: usize = 0;
    while i < codes.len()
        invariant
            i <= codes@.len(),
            forall|j: int| 0 <= j < i ==> codes@[j] != RATE_LIMIT_CODE,
        decreases codes@.len() - i,
    {
        if codes[i] == RATE_LIMIT_CODE {
            return true;
        }
        i = i + 1;
    }
    false
}

/// The dispatcher's state: the pending posts in service order, and whether a
/// fatal failure has shut it down.
pub struct Dispatcher {
    queue: Vec<TweetSpec>,
    dead: bool,
}

impl Dispatcher {
    /// The pending posts, front first. New submissions and rate-limited
    /// retries share this one queue.
    pub closed spec fn spec_queue(&self) -> Seq<TweetSpec> {
        self.queue@
    }

    /// Whether a fatal failure has terminated the dispatcher.
    pub closed spec fn spec_dead(&self) -> bool {
        self.dead
    }

    pub fn new() -> (d: Dispatcher)
        ensures
            d.spec_queue() == Seq::<TweetSpec>::empty(),
            !d.spec_dead(),
    {
        Dispatcher { queue: Vec::new(), dead: false }
    }

    /// Accepts a post for delivery; it joins the back of the queue.
    pub fn submit(&mut self, post: TweetSpec)
        ensures
            final(self).spec_queue() == old(self).spec_queue().push(post),
            final(self).spec_dead() == old(self).spec_dead(),
    {
        self.queue.push(post);
    }

    pub fn pending(&self) -> (n: usize)
        ensures
            n == self.spec_queue().len(),
    {
        self.queue.len()
    }

    pub fn is_dead(&self) -> (b: bool)
        ensures
            b == self.spec_dead(),
    {
        self.dead
    }

    /// The post to attempt next: the front of the queue, unless the
    /// dispatcher is dead or idle. A dead dispatcher hands out nothing, so no
    /// post is ever attempted after a fatal failure.
    pub fn next_to_send(&self) -> (r: Option<&TweetSpec>)
        ensures
            match r {
                Some(t) => !self.spec_dead() && self.spec_queue().len() > 0 && *t
                    == self.spec_queue()[0],
                None => self.spec_dead() || self.spec_queue().len() == 0,
            },
    {
        if self.dead || self.queue.len() == 0 {
            None
        } else {
            Some(&self.queue[0])
        }
    }

    /// Resolves the attempt on the front post. A delivery removes it and asks
    /// for the pacing sleep; the recognized rate-limit rejection moves the
    /// same post to the back of the queue and asks for the cooldown sleep —
    /// the caller is never told of a failure; any other error is fatal: the
    /// dispatcher dies and no further post is attempted.
    pub fn complete(&mut self, outcome: &SendOutcome) -> (f: Followup)
        requires
            !old(self).spec_dead(),
            old(self).spec_queue().len() > 0,
        ensures
            final(self).spec_queue() == spec_complete_queue(old(self).spec_queue(), *outcome),
            final(self).spec_dead() == spec_fatal(*outcome),
            f == spec_followup(*outcome),
    {
        let ghost q = self.queue@;
        match outcome {
            SendOutcome::Delivered => {
                let _sent = self.queue.remove(0);
                proof {
                    assert(self.queue@ =~= q.drop_first());
                }
                Followup::Pace(PACE_SECONDS)
            },
            SendOutcome::ApiErrors(codes) => {
                if has_rate_limit_code(codes) {
                    let front = self.queue.remove(0);
                    proof {
                        assert(self.queue@ =~= q.drop_first());
                    }
                    self.queue.push(front);
                    Followup::Cooldown(COOLDOWN_SECONDS)
                } else {
                    let _lost = self.queue.remove(0);
                    self.dead = true;
                    proof {
                        assert(self.queue@ =~= q.drop_first());
                    }
                    Followup::Fatal
                }
            },
            SendOutcome::Failed => {
                let _lost = self.queue.remove(0);
                self.dead = true;
                proof {
                    assert(self.queue@ =~= q.drop_first());
                }
                Followup::Fatal
            },
        }
    }
}

/// The queue after a row of attempts, the front post of each step resolved
/// with the matching outcome.
pub open spec fn spec_queue_after(q: Seq<TweetSpec>, outcomes: Seq<SendOutcome>) -> Seq<TweetSpec>
    decreases outcomes.len(),
{
    if outcomes.len() == 0 {
        q
    } else {
        spec_queue_after(spec_complete_queue(q, outcomes[0]), outcomes.drop_first())
    }
}

/// Law: a rate-limited post is eventually delivered. However many attempts
/// in a row the external API rejects with the rate-limit code, none of them
/// is fatal, and a lone queued post is re-queued each time, so the queue
/// still holds exactly that post; the first accepted attempt that follows
/// therefore delivers that very post and leaves the queue empty.
pub proof fn lemma_rate_limited_post_eventually_delivered(
    p: TweetSpec,
    rejections: Seq<SendOutcome>,
    accept: SendOutcome,
)
    requires
        forall|i: int| 0 <= i < rejections.len() ==> spec_rate_limited(#[trigger] rejections[i]),
        accept is Delivered,
    ensures
        forall|i: int| 0 <= i < rejections.len() ==> !spec_fatal(#[trigger] rejections[i]),
        spec_queue_after(seq![p], rejections) == seq![p],
        spec_queue_after(seq![p], rejections.push(accept)) == Seq::<TweetSpec>::empty(),
    decreases rejections.len(),
{
    let steps = rejections.push(accept);
    if rejections.len() == 0 {
        assert(steps[0] == accept);
        assert(steps.drop_first() =~= rejections);
        assert(spec_complete_queue(seq![p], accept) =~= Seq::<TweetSpec>::empty());
        assert(spec_queue_after(Seq::<TweetSpec>::empty(), rejections)
            == Seq::<TweetSpec>::empty());
    } else {
        assert(steps[0] == rejections[0]);
        assert(spec_complete_queue(seq![p], rejections[0]) =~= seq![p]);
        lemma_rate_limited_post_eventually_delivered(p, rejections.drop_first(), accept);
        assert(steps.drop_first() =~= rejections.drop_first().push(accept));
    }
}

} // verus!
