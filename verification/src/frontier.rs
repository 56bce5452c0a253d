//! The frontier: one row per known URL, handed out to workers under a lease.
//!
//! A row starts `Queued`, becomes `Executing` when a worker is given a lease
//! on it, and ends `Complete` when the worker's result has been recorded. A
//! lease that has run out makes the row claimable again. Rows are never
//! removed, so a row's id is its position plus one.

use vstd::prelude::*;

verus! {

/// Seconds since the Unix epoch.
pub type Timestamp = i64;

/// How long a worker may hold a job before it can be handed out again.
pub const LEASE_DURATION: i64 = 300;

/// The latest instant at which a lease can still be granted.
pub const MAX_TIME: i64 = 0x7fff_ffff_ffff_ffff - 300;

/// The largest number of rows a table holds: ids are positive `i32`s.
pub const MAX_ROWS: usize = 0x7fff_ffff;

#[derive(Clone, Copy, PartialEq, Eq, Debug, Structural)]
pub enum Status {
    Queued,
    Executing,
    Complete,
}

/// Why the frontier refused an operation.
#[derive(Clone, Copy, PartialEq, Eq, Debug, Structural)]
pub enum FrontierError {
    /// A row with this URL exists already.
    DuplicateUrl,
    /// The table has reached `MAX_ROWS`.
    Full,
    /// No row has this id and this URL.
    NotFound,
    /// The row is not `Executing`.
    NotActive,
    /// The row's lease has run out.
    Expired,
}

/// One row of the frontier.
#[derive(Debug)]
pub struct Job {
    pub id: i32,
    pub url: String,
    pub status: Status,
    pub expiry: Option<Timestamp>,
    pub last_updated: Timestamp,
    pub created_at: Timestamp,
}

/// What a row holds, as mathematical values. The id is left out: it follows
/// from the row's position.
pub struct JobModel {
    pub url: Seq<char>,
    pub status: Status,
    pub expiry: Option<int>,
    pub last_updated: int,
    pub created_at: int,
}

pub open spec fn time_model(t: Option<Timestamp>) -> Option<int> {
    match t {
        Some(v) => Some(v as int),
        None => None,
    }
}

impl View for Job {
    type V = JobModel;

    open spec fn view(&self) -> JobModel {
        JobModel {
            url: self.url@,
            status: self.status,
            expiry: time_model(self.expiry),
            last_updated: self.last_updated as int,
            created_at: self.created_at as int,
        }
    }
}

/// The instant at which a lease granted at `now` runs out.
pub open spec fn lease_end(now: int) -> int {
    now + LEASE_DURATION
}

/// A row can be handed out at `now` when it waits in the queue, or when it
/// is being worked on under a lease that has run out.
pub open spec fn claimable(job: JobModel, now: int) -> bool {
    job.status == Status::Queued || (job.status == Status::Executing && job.expiry is Some
        && job.expiry->0 <= now)
}

/// A lease on the row is live at `now`.
pub open spec fn lease_live(job: JobModel, now: int) -> bool {
    job.status == Status::Executing && job.expiry is Some && job.expiry->0 > now
}

/// The row as `enqueue` inserts it.
pub open spec fn queued_row(url: Seq<char>, now: int) -> JobModel {
    JobModel { url, status: Status::Queued, expiry: None, last_updated: now, created_at: now }
}

/// The row after a lease has been granted on it at `now`.
pub open spec fn leased(job: JobModel, now: int) -> JobModel {
    JobModel {
        status: Status::Executing,
        expiry: Some(lease_end(now)),
        last_updated: now,
        ..job
    }
}

/// The row after its result has been recorded at `now`.
pub open spec fn completed(job: JobModel, now: int) -> JobModel {
    JobModel { status: Status::Complete, expiry: None, last_updated: now, ..job }
}

/// The row after its worker gave it back unfinished at `now`.
pub open spec fn requeued(job: JobModel, now: int) -> JobModel {
    JobModel { status: Status::Queued, expiry: None, last_updated: now, ..job }
}

/// The expiry a row's status allows: while `Executing`, the end of the
/// lease that was granted or renewed when the row was last written; none
/// otherwise.
pub open spec fn row_wf(job: JobModel) -> bool {
    if job.status == Status::Executing {
        job.expiry == Some(lease_end(job.last_updated))
    } else {
        job.expiry is None
    }
}

/// The lease under which a row is held is known by the instant at which it
/// was granted or last renewed: the row's `last_updated`. A request names
/// the row's current lease when it names that instant.
pub open spec fn holds_lease(job: JobModel, lease: int) -> bool {
    job.status == Status::Executing && job.last_updated == lease
}

/// No URL occurs in two rows.
pub open spec fn urls_unique(jobs: Seq<JobModel>) -> bool {
    forall|i: int, j: int|
        0 <= i < j < jobs.len() ==> (#[trigger] jobs[i]).url != (#[trigger] jobs[j]).url
}

pub open spec fn rows_wf(jobs: Seq<JobModel>) -> bool {
    &&& jobs.len() <= MAX_ROWS
    &&& urls_unique(jobs)
    &&& forall|i: int| 0 <= i < jobs.len() ==> row_wf(#[trigger] jobs[i])
}

/// Some row has this URL.
pub open spec fn knows(jobs: Seq<JobModel>, url: Seq<char>) -> bool {
    exists|i: int| 0 <= i < jobs.len() && (#[trigger] jobs[i]).url == url
}

/// The position of the first row from `from` on that can be handed out at
/// `now`, or the number of rows when there is none.
pub open spec fn next_claimable(jobs: Seq<JobModel>, now: int, from: int) -> int
    decreases jobs.len() - from,
{
    if from >= jobs.len() {
        jobs.len() as int
    } else if claimable(jobs[from], now) {
        from
    } else {
        next_claimable(jobs, now, from + 1)
    }
}

/// `next_claimable` finds the first row at or after `from` that can be
/// handed out, and passes over none that can.
pub proof fn lemma_next_claimable(jobs: Seq<JobModel>, now: int, from: int)
    requires
        0 <= from <= jobs.len(),
    ensures
        from <= next_claimable(jobs, now, from) <= jobs.len(),
        next_claimable(jobs, now, from) < jobs.len() ==> claimable(
            jobs[next_claimable(jobs, now, from)],
            now,
        ),
        forall|k: int|
            from <= k < next_claimable(jobs, now, from) ==> !claimable(#[trigger] jobs[k], now),
    decreases jobs.len() - from,
{
    if from < jobs.len() && !claimable(jobs[from], now) {
        lemma_next_claimable(jobs, now, from + 1);
    }
}

/// The position of the row with this id and URL, if there is one.
pub open spec fn locate(jobs: Seq<JobModel>, id: int, url: Seq<char>) -> Option<int> {
    if 1 <= id <= jobs.len() && jobs[id - 1].url == url {
        Some(id - 1)
    } else {
        None
    }
}

/// The rows after `enqueue`: a new `Queued` row at the end, unless the URL
/// is known or the table is full.
pub open spec fn after_enqueue(jobs: Seq<JobModel>, url: Seq<char>, now: int) -> Seq<JobModel> {
    if knows(jobs, url) || jobs.len() >= MAX_ROWS {
        jobs
    } else {
        jobs.push(queued_row(url, now))
    }
}

/// The rows after `claim_next`.
pub open spec fn after_claim(jobs: Seq<JobModel>, now: int) -> Seq<JobModel> {
    let at = next_claimable(jobs, now, 0);
    if at < jobs.len() {
        jobs.update(at, leased(jobs[at], now))
    } else {
        jobs
    }
}

/// What `complete` answers: the row must have this id and URL, be
/// `Executing` under the lease that the request names, and that lease must
/// be live. A lease that was taken over counts as expired.
pub open spec fn complete_verdict(
    jobs: Seq<JobModel>,
    id: int,
    url: Seq<char>,
    lease: int,
    now: int,
) -> Result<(), FrontierError> {
    match locate(jobs, id, url) {
        None => Err(FrontierError::NotFound),
        Some(at) => if jobs[at].status != Status::Executing {
            Err(FrontierError::NotActive)
        } else if !holds_lease(jobs[at], lease) || !lease_live(jobs[at], now) {
            Err(FrontierError::Expired)
        } else {
            Ok(())
        },
    }
}

/// The rows after `complete`.
pub open spec fn after_complete(
    jobs: Seq<JobModel>,
    id: int,
    url: Seq<char>,
    lease: int,
    now: int,
) -> Seq<JobModel> {
    if complete_verdict(jobs, id, url, lease, now) is Ok {
        jobs.update(id - 1, completed(jobs[id - 1], now))
    } else {
        jobs
    }
}

/// What `fail` and `extend_lease` answer: they ask for a row that is
/// `Executing` under the lease that the request names, whatever its expiry.
pub open spec fn active_verdict(jobs: Seq<JobModel>, id: int, url: Seq<char>, lease: int) -> Result<
    (),
    FrontierError,
> {
    match locate(jobs, id, url) {
        None => Err(FrontierError::NotFound),
        Some(at) => if jobs[at].status != Status::Executing {
            Err(FrontierError::NotActive)
        } else if !holds_lease(jobs[at], lease) {
            Err(FrontierError::Expired)
        } else {
            Ok(())
        },
    }
}

/// The rows after `fail`.
pub open spec fn after_fail(jobs: Seq<JobModel>, id: int, url: Seq<char>, lease: int, now: int) -> Seq<
    JobModel,
> {
    if active_verdict(jobs, id, url, lease) is Ok {
        jobs.update(id - 1, requeued(jobs[id - 1], now))
    } else {
        jobs
    }
}

/// The rows after `extend_lease`.
pub open spec fn after_extend(jobs: Seq<JobModel>, id: int, url: Seq<char>, lease: int, now: int) -> Seq<
    JobModel,
> {
    if active_verdict(jobs, id, url, lease) is Ok {
        jobs.update(id - 1, leased(jobs[id - 1], now))
    } else {
        jobs
    }
}

/// The rows after a lease attempt by a caller that saw row `id` with
/// `last_updated == seen`: the lease is granted only if nobody has touched
/// the row since.
pub open spec fn after_lease(jobs: Seq<JobModel>, id: int, seen: int, now: int) -> Seq<JobModel> {
    if lease_granted(jobs, id, seen, now) {
        jobs.update(id - 1, leased(jobs[id - 1], now))
    } else {
        jobs
    }
}

pub open spec fn lease_granted(jobs: Seq<JobModel>, id: int, seen: int, now: int) -> bool {
    1 <= id <= jobs.len() && jobs[id - 1].last_updated == seen && claimable(jobs[id - 1], now)
}

/// The URLs of the rows that are not `Complete`, in row order.
pub open spec fn pending(jobs: Seq<JobModel>) -> Seq<Seq<char>>
    decreases jobs.len(),
{
    if jobs.len() == 0 {
        Seq::empty()
    } else if jobs.last().status != Status::Complete {
        pending(jobs.drop_last()).push(jobs.last().url)
    } else {
        pending(jobs.drop_last())
    }
}

/// Rows are only ever added, a row keeps its URL and its creation time,
/// and a `Complete` row never changes again.
pub open spec fn evolves(before: Seq<JobModel>, after: Seq<JobModel>) -> bool {
    &&& before.len() <= after.len()
    &&& forall|i: int|
        0 <= i < before.len() ==> {
            &&& (#[trigger] after[i]).url == before[i].url
            &&& after[i].created_at == before[i].created_at
            &&& before[i].status == Status::Complete ==> after[i] == before[i]
        }
}

/// `enqueue` and `enqueue_if_absent` keep the rows well formed and leave the
/// rows that exist as they are; afterwards the URL is known unless the table
/// was full.
pub proof fn lemma_after_enqueue(jobs: Seq<JobModel>, url: Seq<char>, now: int)
    requires
        rows_wf(jobs),
    ensures
        rows_wf(after_enqueue(jobs, url, now)),
        evolves(jobs, after_enqueue(jobs, url, now)),
        forall|i: int| 0 <= i < jobs.len() ==> after_enqueue(jobs, url, now)[i] == jobs[i],
        jobs.len() < MAX_ROWS ==> knows(after_enqueue(jobs, url, now), url),
{
    let after = after_enqueue(jobs, url, now);
    if !knows(jobs, url) && jobs.len() < MAX_ROWS {
        assert(after[jobs.len() as int].url == url);
        assert forall|i: int, j: int| 0 <= i < j < after.len() implies (#[trigger] after[i]).url != (
        #[trigger] after[j]).url by {
            if j == jobs.len() {
                assert(jobs[i].url != url);
            } else {
                assert(jobs[i].url != jobs[j].url);
            }
        }
    }
}

/// `claim_next` keeps the rows well formed and touches no `Complete` row.
pub proof fn lemma_after_claim(jobs: Seq<JobModel>, now: int)
    requires
        rows_wf(jobs),
    ensures
        rows_wf(after_claim(jobs, now)),
        evolves(jobs, after_claim(jobs, now)),
        after_claim(jobs, now).len() == jobs.len(),
{
    lemma_next_claimable(jobs, now, 0);
    let after = after_claim(jobs, now);
    assert forall|i: int, j: int| 0 <= i < j < after.len() implies (#[trigger] after[i]).url != (
    #[trigger] after[j]).url by {
        assert(jobs[i].url != jobs[j].url);
    }
}

/// A lease attempt keeps the rows well formed and touches no `Complete` row.
pub proof fn lemma_after_lease(jobs: Seq<JobModel>, id: int, seen: int, now: int)
    requires
        rows_wf(jobs),
    ensures
        rows_wf(after_lease(jobs, id, seen, now)),
        evolves(jobs, after_lease(jobs, id, seen, now)),
        after_lease(jobs, id, seen, now).len() == jobs.len(),
{
    let after = after_lease(jobs, id, seen, now);
    assert forall|i: int, j: int| 0 <= i < j < after.len() implies (#[trigger] after[i]).url != (
    #[trigger] after[j]).url by {
        assert(jobs[i].url != jobs[j].url);
    }
}

/// `complete` keeps the rows well formed and touches no `Complete` row.
pub proof fn lemma_after_complete(jobs: Seq<JobModel>, id: int, url: Seq<char>, lease: int, now: int)
    requires
        rows_wf(jobs),
    ensures
        rows_wf(after_complete(jobs, id, url, lease, now)),
        evolves(jobs, after_complete(jobs, id, url, lease, now)),
        after_complete(jobs, id, url, lease, now).len() == jobs.len(),
{
    let after = after_complete(jobs, id, url, lease, now);
    assert forall|i: int, j: int| 0 <= i < j < after.len() implies (#[trigger] after[i]).url != (
    #[trigger] after[j]).url by {
        assert(jobs[i].url != jobs[j].url);
    }
}

/// `fail` keeps the rows well formed and touches no `Complete` row.
pub proof fn lemma_after_fail(jobs: Seq<JobModel>, id: int, url: Seq<char>, lease: int, now: int)
    requires
        rows_wf(jobs),
    ensures
        rows_wf(after_fail(jobs, id, url, lease, now)),
        evolves(jobs, after_fail(jobs, id, url, lease, now)),
        after_fail(jobs, id, url, lease, now).len() == jobs.len(),
{
    let after = after_fail(jobs, id, url, lease, now);
    assert forall|i: int, j: int| 0 <= i < j < after.len() implies (#[trigger] after[i]).url != (
    #[trigger] after[j]).url by {
        assert(jobs[i].url != jobs[j].url);
    }
}

/// `extend_lease` keeps the rows well formed and touches no `Complete` row.
pub proof fn lemma_after_extend(jobs: Seq<JobModel>, id: int, url: Seq<char>, lease: int, now: int)
    requires
        rows_wf(jobs),
    ensures
        rows_wf(after_extend(jobs, id, url, lease, now)),
        evolves(jobs, after_extend(jobs, id, url, lease, now)),
        after_extend(jobs, id, url, lease, now).len() == jobs.len(),
{
    let after = after_extend(jobs, id, url, lease, now);
    assert forall|i: int, j: int| 0 <= i < j < after.len() implies (#[trigger] after[i]).url != (
    #[trigger] after[j]).url by {
        assert(jobs[i].url != jobs[j].url);
    }
}

/// Computes the expiry of a lease granted at `now`.
pub fn lease_expiry(now: Timestamp) -> (expiry: Timestamp)
    requires
        now <= MAX_TIME,
    ensures
        expiry == lease_end(now as int),
{
    now + LEASE_DURATION
}

impl Job {
    /// Whether the row can be handed out at `now`.
    pub fn is_claimable(&self, now: Timestamp) -> (r: bool)
        ensures
            r == claimable(self@, now as int),
    {
        match self.status {
            Status::Queued => true,
            Status::Executing => match self.expiry {
                Some(expiry) => expiry <= now,
                None => false,
            },
            Status::Complete => false,
        }
    }

    /// Whether the row is held under a lease that has not run out at `now`.
    pub fn has_live_lease(&self, now: Timestamp) -> (r: bool)
        ensures
            r == lease_live(self@, now as int),
    {
        match self.status {
            Status::Executing => match self.expiry {
                Some(expiry) => expiry > now,
                None => false,
            },
            _ => false,
        }
    }

    /// A copy of the row.
    pub fn duplicate(&self) -> (r: Job)
        ensures
            r@ == self@,
            r.id == self.id,
    {
        Job {
            id: self.id,
            url: self.url.clone(),
            status: self.status,
            expiry: self.expiry,
            last_updated: self.last_updated,
            created_at: self.created_at,
        }
    }
}

/// The frontier table.
pub struct Frontier {
    jobs: Vec<Job>,
}

impl View for Frontier {
    type V = Seq<JobModel>;

    closed spec fn view(&self) -> Seq<JobModel> {
        Seq::new(self.jobs@.len(), |i: int| self.jobs@[i]@)
    }
}

impl Frontier {
    /// Each row's id is its position plus one.
    pub closed spec fn ids_follow(&self) -> bool {
        forall|i: int| 0 <= i < self.jobs@.len() ==> (#[trigger] self.jobs@[i]).id == i + 1
    }

    pub open spec fn wf(&self) -> bool {
        self.ids_follow() && rows_wf(self@)
    }

    /// An empty frontier.
    pub fn new() -> (f: Frontier)
        ensures
            f.wf(),
            f@ == Seq::<JobModel>::empty(),
    {
        let f = Frontier { jobs: Vec::new() };
        assert(f@ =~= Seq::<JobModel>::empty());
        f
    }

    /// The number of rows.
    pub fn len(&self) -> (n: usize)
        ensures
            n == self@.len(),
    {
        self.jobs.len()
    }

    /// The row with this id, if there is one.
    pub fn get(&self, id: i32) -> (r: Option<Job>)
        requires
            self.wf(),
        ensures
            r is Some == (1 <= id <= self@.len()),
            r matches Some(job) ==> job@ == self@[id - 1] && job.id == id,
    {
        if id >= 1 && (id as usize) <= self.jobs.len() {
            let job = self.jobs[(id - 1) as usize].duplicate();
            Some(job)
        } else {
            None
        }
    }

    /// The position of the row with this URL, if there is one.
    pub fn position_of(&self, url: &str) -> (r: Option<usize>)
        ensures
            r is Some == knows(self@, url@),
            r matches Some(at) ==> at < self@.len() && self@[at as int].url == url@,
    {
        let wanted = url.to_owned();
        let mut i: usize = 0;
        while i < self.jobs.len()
            invariant
                i <= self.jobs@.len(),
                wanted@ == url@,
                forall|k: int| 0 <= k < i ==> (#[trigger] self@[k]).url != url@,
            decreases self.jobs@.len() - i,
        {
            if self.jobs[i].url == wanted {
                return Some(i);
            }
            i += 1;
        }
        None
    }

    /// Whether a row with this URL exists, in any state.
    pub fn contains(&self, url: &str) -> (r: bool)
        ensures
            r == knows(self@, url@),
    {
        self.position_of(url).is_some()
    }

    /// Inserts a `Queued` row for `url` and returns its id. A URL that is
    /// known already is refused, and so is any URL once the table is full.
    pub fn enqueue(&mut self, url: &str, now: Timestamp) -> (r: Result<i32, FrontierError>)
        requires
            old(self).wf(),
        ensures
            final(self).wf(),
            final(self)@ == after_enqueue(old(self)@, url@, now as int),
            r == if knows(old(self)@, url@) {
                Err::<i32, FrontierError>(FrontierError::DuplicateUrl)
            } else if old(self)@.len() >= MAX_ROWS {
                Err(FrontierError::Full)
            } else {
                Ok((old(self)@.len() + 1) as i32)
            },
    {
        if self.contains(url) {
            return Err(FrontierError::DuplicateUrl);
        }
        if self.jobs.len() >= MAX_ROWS {
            return Err(FrontierError::Full);
        }
        let id = (self.jobs.len() + 1) as i32;
        let job = Job {
            id,
            url: url.to_owned(),
            status: Status::Queued,
            expiry: None,
            last_updated: now,
            created_at: now,
        };
        self.jobs.push(job);
        assert(self@ =~= old(self)@.push(queued_row(url@, now as int)));
        Ok(id)
    }

    /// Inserts a `Queued` row for `url` unless a row with that URL exists, in
    /// whatever state. Returns whether a row was inserted.
    pub fn enqueue_if_absent(&mut self, url: &str, now: Timestamp) -> (inserted: bool)
        requires
            old(self).wf(),
        ensures
            final(self).wf(),
            final(self)@ == after_enqueue(old(self)@, url@, now as int),
            inserted == (!knows(old(self)@, url@) && old(self)@.len() < MAX_ROWS),
    {
        self.enqueue(url, now).is_ok()
    }

    /// The first row that can be handed out at `now`, if there is one. The
    /// frontier is left as it is: `lease` grants the lease.
    pub fn find_claimable(&self, now: Timestamp) -> (r: Option<Job>)
        requires
            self.wf(),
        ensures
            r is Some == (next_claimable(self@, now as int, 0) < self@.len()),
            r matches Some(job) ==> {
                &&& job.id == next_claimable(self@, now as int, 0) + 1
                &&& job@ == self@[job.id - 1]
            },
    {
        let mut i: usize = 0;
        while i < self.jobs.len()
            invariant
                i <= self.jobs@.len(),
                self.wf(),
                next_claimable(self@, now as int, 0) == next_claimable(self@, now as int, i as int),
            decreases self.jobs@.len() - i,
        {
            if self.jobs[i].is_claimable(now) {
                let job = self.jobs[i].duplicate();
                return Some(job);
            }
            i += 1;
        }
        None
    }

    /// Grants a lease on row `id` to a caller that saw the row with
    /// `last_updated == seen`. The lease is granted only if the row has not
    /// been touched since and can still be handed out.
    pub fn lease(&mut self, id: i32, seen: Timestamp, now: Timestamp) -> (granted: bool)
        requires
            old(self).wf(),
            now <= MAX_TIME,
        ensures
            final(self).wf(),
            granted == lease_granted(old(self)@, id as int, seen as int, now as int),
            final(self)@ == after_lease(old(self)@, id as int, seen as int, now as int),
    {
        if id < 1 || (id as usize) > self.jobs.len() {
            return false;
        }
        let at = (id - 1) as usize;
        if self.jobs[at].last_updated != seen || !self.jobs[at].is_claimable(now) {
            return false;
        }
        let expiry = lease_expiry(now);
        let row = &mut self.jobs[at];
        row.status = Status::Executing;
        row.expiry = Some(expiry);
        row.last_updated = now;
        assert(self@ =~= old(self)@.update(at as int, leased(old(self)@[at as int], now as int)));
        true
    }

    /// Hands out the first row that can be handed out at `now`, under a
    /// lease that runs for `LEASE_DURATION`. The row is returned as it is
    /// after the lease was granted.
    pub fn claim_next(&mut self, now: Timestamp) -> (r: Option<Job>)
        requires
            old(self).wf(),
            now <= MAX_TIME,
        ensures
            final(self).wf(),
            final(self)@ == after_claim(old(self)@, now as int),
            r is Some == (next_claimable(old(self)@, now as int, 0) < old(self)@.len()),
            r matches Some(job) ==> {
                &&& job.id == next_claimable(old(self)@, now as int, 0) + 1
                &&& job@ == leased(old(self)@[job.id - 1], now as int)
            },
    {
        match self.find_claimable(now) {
            None => None,
            Some(found) => {
                proof {
                    lemma_next_claimable(self@, now as int, 0);
                }
                let granted = self.lease(found.id, found.last_updated, now);
                assert(granted);
                self.get(found.id)
            },
        }
    }

    /// Checks that row `id` has this URL and is held under the lease
    /// `lease`, and that this lease is live at `now`.
    pub fn check_lease(&self, id: i32, url: &str, lease: Timestamp, now: Timestamp) -> (r: Result<
        (),
        FrontierError,
    >)
        requires
            self.wf(),
        ensures
            r == complete_verdict(self@, id as int, url@, lease as int, now as int),
    {
        if id < 1 || (id as usize) > self.jobs.len() {
            return Err(FrontierError::NotFound);
        }
        let at = (id - 1) as usize;
        let wanted = url.to_owned();
        if !(self.jobs[at].url == wanted) {
            return Err(FrontierError::NotFound);
        }
        match self.jobs[at].status {
            Status::Executing => {},
            _ => {
                return Err(FrontierError::NotActive);
            },
        }
        if self.jobs[at].last_updated != lease || !self.jobs[at].has_live_lease(now) {
            return Err(FrontierError::Expired);
        }
        Ok(())
    }

    /// Checks that row `id` has this URL and is `Executing` under the lease
    /// `lease`.
    pub fn check_active(&self, id: i32, url: &str, lease: Timestamp) -> (r: Result<
        (),
        FrontierError,
    >)
        requires
            self.wf(),
        ensures
            r == active_verdict(self@, id as int, url@, lease as int),
    {
        if id < 1 || (id as usize) > self.jobs.len() {
            return Err(FrontierError::NotFound);
        }
        let at = (id - 1) as usize;
        let wanted = url.to_owned();
        if !(self.jobs[at].url == wanted) {
            return Err(FrontierError::NotFound);
        }
        match self.jobs[at].status {
            Status::Executing => {},
            _ => {
                return Err(FrontierError::NotActive);
            },
        }
        if self.jobs[at].last_updated != lease {
            return Err(FrontierError::Expired);
        }
        Ok(())
    }

    /// Marks row `id` as `Complete` and clears its expiry. The row must
    /// have this URL and be held under the lease `lease`, live at `now`;
    /// otherwise nothing changes.
    pub fn complete(&mut self, id: i32, url: &str, lease: Timestamp, now: Timestamp) -> (r: Result<
        (),
        FrontierError,
    >)
        requires
            old(self).wf(),
        ensures
            final(self).wf(),
            r == complete_verdict(old(self)@, id as int, url@, lease as int, now as int),
            final(self)@ == after_complete(old(self)@, id as int, url@, lease as int, now as int),
    {
        match self.check_lease(id, url, lease, now) {
            Err(e) => Err(e),
            Ok(()) => {
                let at = (id - 1) as usize;
                let row = &mut self.jobs[at];
                row.status = Status::Complete;
                row.expiry = None;
                row.last_updated = now;
                assert(self@ =~= old(self)@.update(
                    at as int,
                    completed(old(self)@[at as int], now as int),
                ));
                Ok(())
            },
        }
    }

    /// Puts row `id` back in the queue and releases its lease. The row must
    /// have this URL and be `Executing` under the lease `lease`; otherwise
    /// nothing changes.
    pub fn fail(&mut self, id: i32, url: &str, lease: Timestamp, now: Timestamp) -> (r: Result<
        (),
        FrontierError,
    >)
        requires
            old(self).wf(),
        ensures
            final(self).wf(),
            r == active_verdict(old(self)@, id as int, url@, lease as int),
            final(self)@ == after_fail(old(self)@, id as int, url@, lease as int, now as int),
    {
        match self.check_active(id, url, lease) {
            Err(e) => Err(e),
            Ok(()) => {
                let at = (id - 1) as usize;
                let row = &mut self.jobs[at];
                row.status = Status::Queued;
                row.expiry = None;
                row.last_updated = now;
                assert(self@ =~= old(self)@.update(
                    at as int,
                    requeued(old(self)@[at as int], now as int),
                ));
                Ok(())
            },
        }
    }

    /// Renews the lease on row `id` for `LEASE_DURATION` from `now`. The
    /// row must have this URL and be `Executing` under the lease `lease`,
    /// whether or not that lease has run out; otherwise nothing changes. The
    /// renewed lease is known by `now`.
    pub fn extend_lease(&mut self, id: i32, url: &str, lease: Timestamp, now: Timestamp) -> (r: Result<
        (),
        FrontierError,
    >)
        requires
            old(self).wf(),
            now <= MAX_TIME,
        ensures
            final(self).wf(),
            r == active_verdict(old(self)@, id as int, url@, lease as int),
            final(self)@ == after_extend(old(self)@, id as int, url@, lease as int, now as int),
    {
        match self.check_active(id, url, lease) {
            Err(e) => Err(e),
            Ok(()) => {
                let at = (id - 1) as usize;
                let expiry = lease_expiry(now);
                let row = &mut self.jobs[at];
                row.expiry = Some(expiry);
                row.last_updated = now;
                assert(self@ =~= old(self)@.update(
                    at as int,
                    leased(old(self)@[at as int], now as int),
                ));
                Ok(())
            },
        }
    }

    /// The URLs of the rows that are not `Complete`, in row order.
    pub fn pending_urls(&self) -> (urls: Vec<String>)
        ensures
            urls.deep_view() == pending(self@),
    {
        let mut urls: Vec<String> = Vec::new();
        let mut i: usize = 0;
        assert(self@.take(0) =~= Seq::<JobModel>::empty());
        assert(urls.deep_view() =~= pending(self@.take(0)));
        while i < self.jobs.len()
            invariant
                i <= self.jobs@.len(),
                urls.deep_view() == pending(self@.take(i as int)),
            decreases self.jobs@.len() - i,
        {
            let ghost before = urls.deep_view();
            assert(self@.take(i + 1).drop_last() =~= self@.take(i as int));
            match self.jobs[i].status {
                Status::Complete => {},
                _ => {
                    urls.push(self.jobs[i].url.clone());
                    assert(urls.deep_view() =~= before.push(self@[i as int].url));
                },
            }
            i += 1;
        }
        assert(self@.take(i as int) =~= self@);
        urls
    }
}

} // verus!
