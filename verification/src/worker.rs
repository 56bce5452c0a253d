//! The worker's side: how it asks for jobs, backing off while the queue is
//! empty, and how it reports what became of a job.

use crate::payload::{
    Code, GetJobResponse, JobResult, JobResultModel, OkPayload, ReturnJobRequest, ServiceError,
};
use exponential_backoff::Backoff;
use std::time::Duration;
use vstd::prelude::*;

verus! {

/// How often a worker asks for a job before it gives up.
pub const MAX_ATTEMPTS: u32 = 128;

/// The shortest wait between two attempts, in milliseconds.
pub const MIN_DELAY_MILLIS: u64 = 100;

/// The longest wait between two attempts, in milliseconds.
pub const MAX_DELAY_MILLIS: u64 = 600_000;

/// The factor by which the shortest wait has grown at attempt `attempt`,
/// counted from 0: it doubles with each attempt, and stays at the largest
/// 32-bit number once it would pass it.
pub open spec fn growth(attempt: nat) -> nat
    decreases attempt,
{
    if attempt == 0 {
        1
    } else if attempt >= 32 {
        0xffff_ffff
    } else {
        2 * growth((attempt - 1) as nat)
    }
}

/// `value`, held between `low` and `high`.
pub open spec fn clamped(value: int, low: int, high: int) -> int {
    if value < low {
        low
    } else if value > high {
        high
    } else {
        value
    }
}

/// The least wait that can be drawn for an attempt: 71 hundredths of the
/// grown wait, held between the two bounds.
pub open spec fn least_wait(min_millis: int, max_millis: int, attempt: nat) -> int {
    clamped(71 * (min_millis * growth(attempt)) / 100, min_millis, max_millis)
}

/// The greatest wait that can be drawn for an attempt: 129 hundredths of
/// the grown wait, held between the two bounds.
pub open spec fn greatest_wait(min_millis: int, max_millis: int, attempt: nat) -> int {
    clamped(129 * (min_millis * growth(attempt)) / 100, min_millis, max_millis)
}

/// The largest grown wait, in milliseconds, for which the window of the
/// waits is stated: beyond it the arithmetic of the backoff may saturate.
pub const GROWN_LIMIT: u64 = 0xffff_ffff_ffff;

/// Calls `Backoff::new` and `Backoff::next`. Trusted: there is a delay for
/// every attempt up to `retries`, and none for the one after. The delay is
/// drawn at random: the shortest wait, grown by the attempt's factor, is
/// lowered by up to 29 hundredths or raised by 15 to 29 hundredths, and then
/// held between the two bounds.
#[verifier::external_body]
fn backoff_delay(retries: u32, min_millis: u64, max_millis: u64, attempt: u32) -> (delay: Option<
    u64,
>)
    requires
        1 <= retries < u32::MAX,
        attempt <= retries + 1,
        min_millis <= max_millis,
    ensures
        delay is Some == (attempt <= retries),
        delay matches Some(millis) ==> min_millis <= millis <= max_millis,
        delay matches Some(millis) ==> (min_millis * growth(attempt as nat) <= GROWN_LIMIT
            ==> least_wait(min_millis as int, max_millis as int, attempt as nat) <= millis
            <= greatest_wait(min_millis as int, max_millis as int, attempt as nat)),
{
    let backoff = Backoff::new(
        retries,
        Duration::from_millis(min_millis),
        Duration::from_millis(max_millis),
    );
    backoff.next(attempt).map(|delay| delay.as_millis() as u64)
}

/// The growth never passes the largest 32-bit number, and never shrinks.
pub proof fn lemma_growth(attempt: nat)
    ensures
        1 <= growth(attempt) <= 0xffff_ffff,
        attempt < 32 ==> growth(attempt) <= 0x8000_0000,
        attempt > 0 ==> growth((attempt - 1) as nat) <= growth(attempt),
        attempt >= 14 ==> growth(attempt) >= 16384,
    decreases attempt,
{
    reveal_with_fuel(growth, 33);
    if attempt > 0 && attempt < 32 {
        lemma_growth((attempt - 1) as nat);
        assert(growth(31) == 0x8000_0000);
        lemma_growth_monotone(attempt, 31);
        if attempt >= 14 {
            assert(growth(14) == 16384);
            lemma_growth_monotone(14, attempt);
        }
    } else if attempt == 32 {
        assert(growth(31) == 0x8000_0000);
    }
}

/// Between two attempts below 32 the growth does not shrink.
pub proof fn lemma_growth_monotone(earlier: nat, later: nat)
    requires
        earlier <= later < 32,
    ensures
        growth(earlier) <= growth(later),
    decreases later - earlier,
{
    if earlier < later {
        lemma_growth_monotone(earlier, (later - 1) as nat);
    }
}

/// The wait of a worker after an empty queue: drawn between 100 ms and 10
/// minutes, around a value that starts at 100 ms and doubles with each
/// attempt; from the fifteenth attempt on it is 10 minutes.
pub proof fn law_waits_grow(attempt: nat)
    ensures
        MIN_DELAY_MILLIS <= least_wait(100, 600_000, attempt) <= greatest_wait(
            100,
            600_000,
            attempt,
        ) <= MAX_DELAY_MILLIS,
        least_wait(100, 600_000, 0) == 100 && greatest_wait(100, 600_000, 0) == 129,
        least_wait(100, 600_000, 1) == 142 && greatest_wait(100, 600_000, 1) == 258,
        least_wait(100, 600_000, 2) == 284 && greatest_wait(100, 600_000, 2) == 516,
        attempt >= 14 ==> least_wait(100, 600_000, attempt) == 600_000 && greatest_wait(
            100,
            600_000,
            attempt,
        ) == 600_000,
        100 * growth(attempt) <= GROWN_LIMIT,
{
    reveal_with_fuel(growth, 4);
    lemma_growth(attempt);
    let grown = 100 * growth(attempt);
    assert(71 * grown / 100 <= 129 * grown / 100) by (nonlinear_arith)
        requires
            grown >= 0,
    ;
    if attempt >= 14 {
        assert(71 * grown / 100 >= 600_000) by (nonlinear_arith)
            requires
                grown >= 1_638_400,
        ;
    }
}

/// What came back from asking the coordinator for a job.
#[derive(Debug)]
pub enum Reply {
    /// A job.
    Job(GetJobResponse),
    /// The queue is empty.
    Empty,
    /// Another error, with its status code.
    Failed(Code),
}

/// What the worker does next.
#[derive(Debug)]
pub enum Next {
    /// Work on this job; the next poll starts from attempt 0 again.
    Deliver(GetJobResponse),
    /// Sleep, then ask again as the given attempt.
    Wait { millis: u64, attempt: u32 },
    /// Stop: the coordinator reported this error.
    Abort(Code),
    /// Stop: no attempt is left.
    GiveUp,
}

pub enum ReplyModel {
    Job { id: i32, url: Seq<char>, lease: i64 },
    Empty,
    Failed(Code),
}

pub enum NextModel {
    Deliver { id: i32, url: Seq<char>, lease: i64 },
    Wait { millis: u64, attempt: u32 },
    Abort(Code),
    GiveUp,
}

impl DeepView for Reply {
    type V = ReplyModel;

    open spec fn deep_view(&self) -> ReplyModel {
        match self {
            Reply::Job(job) => ReplyModel::Job { id: job.id, url: job.url@, lease: job.lease },
            Reply::Empty => ReplyModel::Empty,
            Reply::Failed(code) => ReplyModel::Failed(*code),
        }
    }
}

impl DeepView for Next {
    type V = NextModel;

    open spec fn deep_view(&self) -> NextModel {
        match self {
            Next::Deliver(job) => NextModel::Deliver {
                id: job.id,
                url: job.url@,
                lease: job.lease,
            },
            Next::Wait { millis, attempt } => NextModel::Wait {
                millis: *millis,
                attempt: *attempt,
            },
            Next::Abort(code) => NextModel::Abort(*code),
            Next::GiveUp => NextModel::GiveUp,
        }
    }
}

/// What follows a reply to attempt number `attempt`, counted from 0, when
/// `delay` is the wait that was drawn for it. A job is delivered. An empty
/// queue makes the worker wait and ask again, as long as an attempt is left.
/// Any other error stops it.
pub open spec fn decided(attempt: u32, reply: ReplyModel, delay: Option<u64>) -> NextModel {
    match reply {
        ReplyModel::Job { id, url, lease } => NextModel::Deliver { id, url, lease },
        ReplyModel::Failed(code) => NextModel::Abort(code),
        ReplyModel::Empty => match delay {
            Some(millis) => if attempt < MAX_ATTEMPTS - 1 {
                NextModel::Wait { millis, attempt: (attempt + 1) as u32 }
            } else {
                NextModel::GiveUp
            },
            None => NextModel::GiveUp,
        },
    }
}

/// Decides what follows a reply, given the wait that was drawn.
pub fn decide(attempt: u32, reply: Reply, delay: Option<u64>) -> (next: Next)
    ensures
        next.deep_view() == decided(attempt, reply.deep_view(), delay),
{
    match reply {
        Reply::Job(job) => Next::Deliver(job),
        Reply::Failed(code) => Next::Abort(code),
        Reply::Empty => match delay {
            Some(millis) => if attempt < MAX_ATTEMPTS - 1 {
                Next::Wait { millis, attempt: attempt + 1 }
            } else {
                Next::GiveUp
            },
            None => Next::GiveUp,
        },
    }
}

/// Whether a worker that has made `attempt` attempts may make another.
pub fn may_attempt(attempt: u32) -> (r: bool)
    ensures
        r == (attempt < MAX_ATTEMPTS),
{
    attempt < MAX_ATTEMPTS
}

/// Decides what follows the reply to attempt number `attempt`, counted from
/// 0. The wait after an empty queue is drawn at random, between the least
/// and the greatest wait of the attempt, which grow from 100 ms to 10
/// minutes; whatever is drawn, the decision is the one that `decide` takes
/// with it. After `MAX_ATTEMPTS` attempts the worker gives up.
pub fn poll(attempt: u32, reply: Reply) -> (next: Next)
    ensures
        attempt >= MAX_ATTEMPTS ==> next.deep_view() == decided(attempt, reply.deep_view(), None),
        attempt < MAX_ATTEMPTS ==> exists|millis: u64|
            least_wait(MIN_DELAY_MILLIS as int, MAX_DELAY_MILLIS as int, attempt as nat) <= millis
                <= greatest_wait(MIN_DELAY_MILLIS as int, MAX_DELAY_MILLIS as int, attempt as nat)
                && MIN_DELAY_MILLIS <= millis <= MAX_DELAY_MILLIS && next.deep_view() == decided(
                attempt,
                reply.deep_view(),
                Some(millis),
            ),
{
    if attempt >= MAX_ATTEMPTS {
        return decide(attempt, reply, None);
    }
    proof {
        law_waits_grow(attempt as nat);
    }
    match reply {
        Reply::Empty => {
            let delay = backoff_delay(MAX_ATTEMPTS, MIN_DELAY_MILLIS, MAX_DELAY_MILLIS, attempt);
            decide(attempt, reply, delay)
        },
        _ => {
            let ghost drawn = least_wait(100, 600_000, attempt as nat) as u64;
            let next = decide(attempt, reply, Some(MIN_DELAY_MILLIS));
            assert(next.deep_view() == decided(attempt, reply.deep_view(), Some(drawn)));
            next
        },
    }
}

/// The request with which a worker reports what became of a job that it
/// holds: the result of the crawl, or that it failed.
pub fn report_job(job: &GetJobResponse, outcome: Option<OkPayload>) -> (request: ReturnJobRequest)
    ensures
        request.id == job.id,
        request.url@ == job.url@,
        request.lease == job.lease,
        request.result.deep_view() == match outcome {
            Some(payload) => Some(JobResultModel::Done(payload.deep_view())),
            None => Some(JobResultModel::Failed),
        },
{
    let result = match outcome {
        Some(payload) => Some(JobResult::Done(payload)),
        None => Some(JobResult::Failed),
    };
    ReturnJobRequest { id: job.id, url: job.url.clone(), lease: job.lease, result }
}

/// The error with which a worker that has given up ends.
pub fn gave_up() -> (error: ServiceError)
    ensures
        error == ServiceError::Unreachable,
        crate::payload::code_of(error) == Code::Unavailable,
{
    ServiceError::Unreachable
}

} // verus!
