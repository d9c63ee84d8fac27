//! The artifact cache's bookkeeping: which architectures the marker records,
//! what a selection still needs, and the decisions of one `ensure` run, from
//! its first fetch through retries to the marker that commits it.
use vstd::prelude::*;

use crate::text::{
    clone_strings, holds_string, join, join_strs, no_white_space, owned, split_words, str_eq, words,
};

verus! {

/// The architectures of `req`, in order, that `have` does not hold.
pub open spec fn missing(have: Seq<Seq<char>>, req: Seq<Seq<char>>) -> Seq<Seq<char>>
    decreases req.len(),
{
    if req.len() == 0 {
        seq![]
    } else {
        missing(have, req.drop_last()) + if have.contains(req.last()) {
            seq![]
        } else {
            seq![req.last()]
        }
    }
}

/// `have` followed by each architecture of `req` it does not hold yet, once.
pub open spec fn merged(have: Seq<Seq<char>>, req: Seq<Seq<char>>) -> Seq<Seq<char>>
    decreases req.len(),
{
    if req.len() == 0 {
        have
    } else {
        let m = merged(have, req.drop_last());
        if m.contains(req.last()) {
            m
        } else {
            m.push(req.last())
        }
    }
}

/// Each entry is a non-empty word without white space, as an architecture
/// name is.
pub open spec fn all_words(xs: Seq<Seq<char>>) -> bool {
    forall|i: int| 0 <= i < xs.len() ==> #[trigger] xs[i].len() > 0 && no_white_space(xs[i])
}

/// The architectures a marker file's content records, each once.
pub open spec fn recorded(content: Seq<char>) -> Seq<Seq<char>> {
    merged(seq![], words(content))
}

/// The architectures the cache holds, as its marker file lists them.
pub struct DownloadState {
    pub arches: Vec<String>,
}

impl View for DownloadState {
    type V = Seq<Seq<char>>;

    open spec fn view(&self) -> Seq<Seq<char>> {
        self.arches.deep_view()
    }
}

impl DownloadState {
    /// The state a marker file's content records: its whitespace-separated
    /// words, each once, in order of first appearance. An absent marker reads
    /// as empty content.
    pub fn parse(content: &str) -> (r: DownloadState)
        ensures
            r@ == recorded(content@),
            r@.no_duplicates(),
    {
        let empty = DownloadState { arches: Vec::new() };
        assert(empty@ =~= seq![]);
        proof {
            lemma_merged_distinct(seq![], words(content@));
        }
        empty.merged(&split_words(content))
    }

    /// The content of the marker file for this state.
    pub fn render(&self) -> (r: String)
        ensures
            r@ == join(self@, seq![' ']),
    {
        proof {
            reveal_strlit(" ");
            assert(" "@ =~= seq![' ']);
        }
        join_strs(&self.arches, " ")
    }

    /// The architectures of `requested` that this state does not hold.
    pub fn missing(&self, requested: &Vec<String>) -> (r: Vec<String>)
        ensures
            r.deep_view() == missing(self@, requested.deep_view()),
    {
        let ghost req = requested.deep_view();
        let mut r: Vec<String> = Vec::new();
        let mut i: usize = 0;
        assert(req.take(0) =~= seq![]);
        while i < requested.len()
            invariant
                req == requested.deep_view(),
                i <= requested.len(),
                r.deep_view() == missing(self@, req.take(i as int)),
            decreases requested.len() - i,
        {
            let ghost prev = r.deep_view();
            assert(req.take(i + 1).drop_last() =~= req.take(i as int));
            assert(req.take(i + 1).last() == requested[i as int]@);
            if !holds_string(&self.arches, &requested[i]) {
                r.push(requested[i].clone());
                assert(r.deep_view() =~= prev + seq![requested[i as int]@]);
            } else {
                assert(r.deep_view() =~= prev + seq![]);
            }
            i = i + 1;
        }
        assert(req.take(requested.len() as int) =~= req);
        r
    }

    /// This state with the architectures of `requested` added.
    pub fn merged(&self, requested: &Vec<String>) -> (r: DownloadState)
        ensures
            r@ == merged(self@, requested.deep_view()),
    {
        let ghost req = requested.deep_view();
        let mut acc = clone_strings(&self.arches);
        let mut i: usize = 0;
        assert(req.take(0) =~= seq![]);
        while i < requested.len()
            invariant
                req == requested.deep_view(),
                i <= requested.len(),
                acc.deep_view() == merged(self@, req.take(i as int)),
            decreases requested.len() - i,
        {
            let ghost prev = acc.deep_view();
            assert(req.take(i + 1).drop_last() =~= req.take(i as int));
            assert(req.take(i + 1).last() == requested[i as int]@);
            if !holds_string(&acc, &requested[i]) {
                acc.push(requested[i].clone());
                assert(acc.deep_view() =~= prev.push(requested[i as int]@));
            }
            i = i + 1;
        }
        assert(req.take(requested.len() as int) =~= req);
        DownloadState { arches: acc }
    }
}

/// An architecture is missing exactly when it is requested and not held.
pub proof fn lemma_missing_members(have: Seq<Seq<char>>, req: Seq<Seq<char>>)
    ensures
        forall|x: Seq<char>|
            #[trigger] missing(have, req).contains(x) <==> req.contains(x) && !have.contains(x),
    decreases req.len(),
{
    if req.len() > 0 {
        lemma_missing_members(have, req.drop_last());
        assert forall|x: Seq<char>| #[trigger]
            missing(have, req).contains(x) <==> req.contains(x) && !have.contains(x) by {
            let m = missing(have, req.drop_last());
            let tail = if have.contains(req.last()) {
                seq![]
            } else {
                seq![req.last()]
            };
            if missing(have, req).contains(x) {
                let k = choose|k: int| 0 <= k < (m + tail).len() && (m + tail)[k] == x;
                if k >= m.len() {
                    assert(req[req.len() - 1] == x);
                } else {
                    assert(m[k] == x);
                    assert(m.contains(x));
                    assert(req.drop_last().contains(x));
                    let i = choose|i: int| 0 <= i < req.drop_last().len() && req.drop_last()[i] == x;
                    assert(req[i] == x);
                }
            }
            if req.contains(x) && !have.contains(x) {
                let k = choose|k: int| 0 <= k < req.len() && req[k] == x;
                if k < req.len() - 1 {
                    assert(req.drop_last()[k] == x);
                    assert(req.drop_last().contains(x));
                    assert(m.contains(x));
                    let j = choose|j: int| 0 <= j < m.len() && m[j] == x;
                    assert((m + tail)[j] == x);
                } else {
                    assert((m + tail)[m.len() as int] == x);
                }
            }
        }
    }
}

/// Merging keeps what was held, in place, and adds exactly the requested
/// architectures: the result holds an architecture exactly when either does.
pub proof fn lemma_merged_members(have: Seq<Seq<char>>, req: Seq<Seq<char>>)
    ensures
        merged(have, req).len() >= have.len(),
        merged(have, req).subrange(0, have.len() as int) == have,
        forall|x: Seq<char>|
            #[trigger] merged(have, req).contains(x) <==> have.contains(x) || req.contains(x),
    decreases req.len(),
{
    if req.len() == 0 {
        assert(have.subrange(0, have.len() as int) =~= have);
    } else {
        let m = merged(have, req.drop_last());
        lemma_merged_members(have, req.drop_last());
        if !m.contains(req.last()) {
            assert(m.push(req.last()).subrange(0, have.len() as int) =~= m.subrange(
                0,
                have.len() as int,
            ));
        }
        assert forall|x: Seq<char>| #[trigger]
            merged(have, req).contains(x) <==> have.contains(x) || req.contains(x) by {
            if merged(have, req).contains(x) && !m.contains(x) {
                assert(x == req.last());
                assert(req[req.len() - 1] == x);
            }
            if req.contains(x) {
                let k = choose|k: int| 0 <= k < req.len() && req[k] == x;
                if k < req.len() - 1 {
                    assert(req.drop_last()[k] == x);
                } else if !m.contains(req.last()) {
                    assert(m.push(req.last())[m.len() as int] == x);
                }
            }
            if m.contains(x) && !m.contains(req.last()) {
                let j = choose|j: int| 0 <= j < m.len() && m[j] == x;
                assert(m.push(req.last())[j] == x);
            }
        }
    }
}

/// Merging into a list without duplicates gives a list without duplicates.
pub proof fn lemma_merged_distinct(have: Seq<Seq<char>>, req: Seq<Seq<char>>)
    requires
        have.no_duplicates(),
    ensures
        merged(have, req).no_duplicates(),
    decreases req.len(),
{
    if req.len() > 0 {
        lemma_merged_distinct(have, req.drop_last());
        let m = merged(have, req.drop_last());
        if !m.contains(req.last()) {
            let n = m.push(req.last());
            assert forall|i: int, j: int| 0 <= i < n.len() && 0 <= j < n.len() && i != j implies n[i]
                != n[j] by {
                if i < m.len() && j < m.len() {
                    assert(n[i] == m[i] && n[j] == m[j]);
                } else if i < m.len() {
                    assert(n[i] == m[i]);
                } else if j < m.len() {
                    assert(n[j] == m[j]);
                }
            }
        }
    }
}

/// Merging a list without duplicates into nothing gives the list back.
pub proof fn lemma_merged_of_distinct(xs: Seq<Seq<char>>)
    requires
        xs.no_duplicates(),
    ensures
        merged(seq![], xs) == xs,
    decreases xs.len(),
{
    if xs.len() > 0 {
        let init = xs.drop_last();
        assert(init.no_duplicates()) by {
            assert forall|i: int, j: int| 0 <= i < init.len() && 0 <= j < init.len() && i != j implies init[i]
                != init[j] by {
                assert(init[i] == xs[i] && init[j] == xs[j]);
            }
        }
        lemma_merged_of_distinct(init);
        if init.contains(xs.last()) {
            let k = choose|k: int| 0 <= k < init.len() && init[k] == xs.last();
            assert(xs[k] == xs[xs.len() - 1]);
        }
        assert(init.push(xs.last()) =~= xs);
    }
}

/// Merging words with words gives words.
proof fn lemma_merged_words(have: Seq<Seq<char>>, req: Seq<Seq<char>>)
    requires
        all_words(have),
        all_words(req),
    ensures
        all_words(merged(have, req)),
    decreases req.len(),
{
    if req.len() > 0 {
        assert(all_words(req.drop_last())) by {
            assert forall|i: int| 0 <= i < req.drop_last().len() implies #[trigger] req.drop_last()[i].len()
                > 0 && no_white_space(req.drop_last()[i]) by {
                assert(req.drop_last()[i] == req[i]);
            }
        }
        lemma_merged_words(have, req.drop_last());
        let m = merged(have, req.drop_last());
        assert(req.last() == req[req.len() - 1]);
        if !m.contains(req.last()) {
            assert forall|i: int| 0 <= i < m.push(req.last()).len() implies #[trigger] m.push(
                req.last(),
            )[i].len() > 0 && no_white_space(m.push(req.last())[i]) by {
                if i < m.len() {
                    assert(m.push(req.last())[i] == m[i]);
                }
            }
        }
    }
}

/// Idempotence of `ensure`: after a run commits the marker for a selection,
/// reading that marker back gives the merged state, and a later run whose
/// architectures the state holds has nothing to fetch.
pub proof fn lemma_ensure_idempotent(
    have: Seq<Seq<char>>,
    req: Seq<Seq<char>>,
    later: Seq<Seq<char>>,
)
    requires
        all_words(have),
        have.no_duplicates(),
        all_words(req),
        forall|x: Seq<char>| #[trigger] later.contains(x) ==> have.contains(x) || req.contains(x),
    ensures
        recorded(join(merged(have, req), seq![' '])) == merged(have, req),
        missing(merged(have, req), later).len() == 0,
{
    lemma_merged_words(have, req);
    crate::text::lemma_words_of_join(merged(have, req));
    lemma_merged_distinct(have, req);
    lemma_merged_of_distinct(merged(have, req));
    lemma_merged_members(have, req);
    lemma_missing_members(merged(have, req), later);
    if missing(merged(have, req), later).len() > 0 {
        let x = missing(merged(have, req), later)[0];
        assert(missing(merged(have, req), later).contains(x));
    }
}

/// Monotonic growth: a run for `first` followed by a run for a superset
/// `second` leaves exactly the union of what was held and what was requested,
/// keeps the earlier entries in place, and fetches none of them again.
pub proof fn lemma_cache_growth(
    have: Seq<Seq<char>>,
    first: Seq<Seq<char>>,
    second: Seq<Seq<char>>,
)
    requires
        forall|x: Seq<char>| #[trigger] first.contains(x) ==> second.contains(x),
    ensures
        forall|x: Seq<char>|
            #[trigger] merged(merged(have, first), second).contains(x) <==> have.contains(x)
                || second.contains(x),
        merged(merged(have, first), second).subrange(0, merged(have, first).len() as int)
            == merged(have, first),
        forall|x: Seq<char>| #[trigger]
            missing(merged(have, first), second).contains(x) ==> !merged(have, first).contains(x),
{
    lemma_merged_members(have, first);
    lemma_merged_members(merged(have, first), second);
    lemma_missing_members(merged(have, first), second);
}

/// `base` doubled `k` times.
pub open spec fn doubled(base: nat, k: nat) -> nat
    decreases k,
{
    if k == 0 {
        base
    } else {
        2 * doubled(base, (k - 1) as nat)
    }
}

/// The wait before the next attempt once `failures` attempts have failed
/// (`failures` at least one): the base delay doubled per earlier retry,
/// saturating at the largest `u64`.
pub open spec fn backoff(base: u64, failures: nat) -> u64 {
    let d = doubled(base as nat, (failures - 1) as nat);
    if d > u64::MAX {
        u64::MAX
    } else {
        d as u64
    }
}

/// How often a fetch is attempted and how long to wait between attempts.
#[derive(Clone, Copy, Debug, PartialEq, Eq, Structural)]
pub struct RetryPolicy {
    /// The number of attempts, the first included.
    pub max_attempts: u32,
    /// The wait before the first retry, in seconds.
    pub base_delay_secs: u64,
}

/// The attempts made under a policy so far, all of which failed.
#[derive(Clone, Copy, Debug, PartialEq, Eq, Structural)]
pub struct Retry {
    pub policy: RetryPolicy,
    pub failures: u32,
}

impl Retry {
    /// No attempt made yet.
    pub fn new(policy: RetryPolicy) -> (r: Retry)
        ensures
            r.policy == policy,
            r.failures == 0,
    {
        Retry { policy, failures: 0 }
    }

    /// Whether an attempt may be made.
    pub fn may_attempt(&self) -> (r: bool)
        ensures
            r == (self.failures < self.policy.max_attempts),
    {
        self.failures < self.policy.max_attempts
    }

    /// Records a failed attempt; returns the wait before the next attempt, or
    /// `None` when the attempts are spent.
    pub fn after_failure(&mut self) -> (r: Option<u64>)
        requires
            old(self).failures < old(self).policy.max_attempts,
        ensures
            final(self).policy == old(self).policy,
            final(self).failures == old(self).failures + 1,
            r is Some <==> final(self).failures < final(self).policy.max_attempts,
            r matches Some(d) ==> d == backoff(
                old(self).policy.base_delay_secs,
                final(self).failures as nat,
            ),
    {
        self.failures = self.failures + 1;
        if self.failures >= self.policy.max_attempts {
            return None;
        }
        let mut d: u64 = self.policy.base_delay_secs;
        let mut k: u32 = 1;
        while k < self.failures
            invariant
                1 <= k <= self.failures,
                d == backoff(self.policy.base_delay_secs, k as nat),
            decreases self.failures - k,
        {
            assert(doubled(self.policy.base_delay_secs as nat, k as nat) == 2 * doubled(
                self.policy.base_delay_secs as nat,
                (k - 1) as nat,
            ));
            if d > u64::MAX / 2 {
                d = u64::MAX;
            } else {
                d = d * 2;
            }
            k = k + 1;
        }
        Some(d)
    }
}

/// The result of one fetch-and-unpack attempt.
#[derive(Clone, Copy, Debug, PartialEq, Eq, Structural)]
pub enum AttemptOutcome {
    /// Every payload was unpacked.
    Unpacked,
    /// A network, manifest or archive error: worth another attempt.
    Transient,
    /// A local filesystem error: another attempt cannot help.
    Fatal,
}

/// What the caller of an `ensure` run does next.
pub enum CacheStep {
    /// The cache holds every requested architecture: nothing to fetch.
    UpToDate,
    /// Wait `delay_secs`, remove the staging directories if `clear_staging`,
    /// then fetch and unpack `arches`, and report the outcome.
    Fetch { arches: Vec<String>, delay_secs: u64, clear_staging: bool },
    /// Write `marker` to the marker file, then remove the staging directories.
    Commit { marker: String },
    /// Give up; the marker file is left as it was.
    Failed,
}

/// One `ensure` run of the artifact cache.
pub struct EnsureSession {
    /// The state the marker recorded when the run began.
    pub before: DownloadState,
    /// The architectures of the selection.
    pub requested: Vec<String>,
    /// Those the state did not hold.
    pub missing: Vec<String>,
    /// The attempts so far.
    pub retry: Retry,
    /// Whether an attempt is under way.
    pub pending: bool,
}

impl EnsureSession {
    /// The session's fields agree with each other.
    pub open spec fn wf(&self) -> bool {
        &&& self.missing.deep_view() == missing(self.before@, self.requested.deep_view())
        &&& self.pending ==> self.retry.failures < self.retry.policy.max_attempts
    }

    /// The marker content that commits the run.
    pub open spec fn commit_marker(&self) -> Seq<char> {
        join(merged(self.before@, self.requested.deep_view()), seq![' '])
    }

    /// Begins a run from the marker file's content (empty when there is no
    /// marker) and the selection's architectures.
    pub fn start(marker: &str, requested: &Vec<String>, policy: RetryPolicy) -> (r: (
        EnsureSession,
        CacheStep,
    ))
        ensures
            r.0.wf(),
            r.0.before@ == recorded(marker@),
            r.0.requested.deep_view() == requested.deep_view(),
            r.0.retry == (Retry { policy, failures: 0 }),
            r.1 is UpToDate <==> missing(recorded(marker@), requested.deep_view()).len() == 0,
            r.1 is Failed <==> missing(recorded(marker@), requested.deep_view()).len() > 0
                && policy.max_attempts == 0,
            r.1 is Fetch <==> r.0.pending,
            r.1 matches CacheStep::Fetch { arches, delay_secs, clear_staging } ==> arches.deep_view()
                == missing(recorded(marker@), requested.deep_view()) && delay_secs == 0
                && !clear_staging,
            !(r.1 is Commit),
    {
        let before = DownloadState::parse(marker);
        let missing = before.missing(requested);
        let retry = Retry::new(policy);
        let fetch = missing.len() > 0 && retry.may_attempt();
        let step = if missing.len() == 0 {
            CacheStep::UpToDate
        } else if !retry.may_attempt() {
            CacheStep::Failed
        } else {
            CacheStep::Fetch { arches: clone_strings(&missing), delay_secs: 0, clear_staging: false }
        };
        let session = EnsureSession {
            before,
            requested: clone_strings(requested),
            missing,
            retry,
            pending: fetch,
        };
        (session, step)
    }

    /// Takes the outcome of the attempt under way. Only an unpacked attempt
    /// commits, with the marker for the held and requested architectures; a
    /// failed one never touches the marker.
    pub fn on_outcome(&mut self, outcome: AttemptOutcome) -> (r: CacheStep)
        requires
            old(self).wf(),
            old(self).pending,
        ensures
            final(self).wf(),
            final(self).before == old(self).before,
            final(self).requested == old(self).requested,
            final(self).retry.policy == old(self).retry.policy,
            final(self).pending <==> r is Fetch,
            outcome == AttemptOutcome::Unpacked ==> (r matches CacheStep::Commit { marker }
                && marker@ == old(self).commit_marker()),
            outcome != AttemptOutcome::Unpacked ==> !(r is Commit),
            !(r is UpToDate),
            outcome == AttemptOutcome::Fatal ==> r is Failed,
            outcome == AttemptOutcome::Transient ==> final(self).retry.failures == old(
                self,
            ).retry.failures + 1,
            outcome == AttemptOutcome::Transient ==> (r is Fetch <==> final(self).retry.failures
                < final(self).retry.policy.max_attempts),
            r matches CacheStep::Fetch { arches, delay_secs, clear_staging } ==> arches.deep_view()
                == old(self).missing.deep_view() && delay_secs == backoff(
                old(self).retry.policy.base_delay_secs,
                final(self).retry.failures as nat,
            ) && clear_staging,
    {
        match outcome {
            AttemptOutcome::Unpacked => {
                self.pending = false;
                let marker = self.before.merged(&self.requested).render();
                CacheStep::Commit { marker }
            },
            AttemptOutcome::Fatal => {
                self.pending = false;
                CacheStep::Failed
            },
            AttemptOutcome::Transient => match self.retry.after_failure() {
                Some(delay_secs) => CacheStep::Fetch {
                    arches: clone_strings(&self.missing),
                    delay_secs,
                    clear_staging: true,
                },
                None => {
                    self.pending = false;
                    CacheStep::Failed
                },
            },
        }
    }
}

/// What the caller of a sysroot download does next.
pub enum DownloadStep {
    /// Wait `delay_secs`, remove the partly unpacked sysroot if
    /// `clear_partial`, then download and unpack, and report the result.
    Attempt { delay_secs: u64, clear_partial: bool },
    /// The archive was unpacked: record it as done.
    Done,
    /// Give up with the last attempt's error.
    Failed,
}

/// A download of the MSVC sysroot with retries.
pub struct SysrootDownload {
    /// The attempts so far.
    pub retry: Retry,
    /// Whether an attempt is under way.
    pub pending: bool,
}

impl SysrootDownload {
    /// The download's fields agree with each other.
    pub open spec fn wf(&self) -> bool {
        self.pending ==> self.retry.failures < self.retry.policy.max_attempts
    }

    /// Begins a download: a first attempt without waiting, unless the policy
    /// allows no attempt.
    pub fn start(policy: RetryPolicy) -> (r: (SysrootDownload, DownloadStep))
        ensures
            r.0.wf(),
            r.0.retry == (Retry { policy, failures: 0 }),
            r.0.pending <==> r.1 is Attempt,
            policy.max_attempts > 0 ==> (r.1 matches DownloadStep::Attempt {
                delay_secs,
                clear_partial,
            } && delay_secs == 0 && !clear_partial),
            policy.max_attempts == 0 ==> r.1 is Failed,
    {
        let retry = Retry::new(policy);
        if retry.may_attempt() {
            (SysrootDownload { retry, pending: true }, DownloadStep::Attempt {
                delay_secs: 0,
                clear_partial: false,
            })
        } else {
            (SysrootDownload { retry, pending: false }, DownloadStep::Failed)
        }
    }

    /// Takes the result of the attempt under way. A failed attempt is retried
    /// after the backoff, once what it unpacked is removed.
    pub fn on_result(&mut self, unpacked: bool) -> (r: DownloadStep)
        requires
            old(self).wf(),
            old(self).pending,
        ensures
            final(self).wf(),
            final(self).retry.policy == old(self).retry.policy,
            final(self).pending <==> r is Attempt,
            unpacked ==> r is Done,
            !unpacked ==> final(self).retry.failures == old(self).retry.failures + 1,
            !unpacked ==> (r is Attempt <==> final(self).retry.failures
                < final(self).retry.policy.max_attempts),
            !unpacked ==> !(r is Done),
            r matches DownloadStep::Attempt { delay_secs, clear_partial } ==> delay_secs == backoff(
                old(self).retry.policy.base_delay_secs,
                final(self).retry.failures as nat,
            ) && clear_partial,
    {
        if unpacked {
            self.pending = false;
            return DownloadStep::Done;
        }
        match self.retry.after_failure() {
            Some(delay_secs) => DownloadStep::Attempt { delay_secs, clear_partial: true },
            None => {
                self.pending = false;
                DownloadStep::Failed
            },
        }
    }
}

/// What to do with the MSVC sysroot of the `clang` backend.
#[derive(Clone, Copy, Debug, PartialEq, Eq, Structural)]
pub enum SysrootPlan {
    /// It was downloaded and unpacked completely: use it.
    Reuse,
    /// Download and unpack it, removing first what an interrupted earlier
    /// download left if `remove_stale`.
    Download { remove_stale: bool },
}

/// The sysroot is reused only when its directory and its marker both exist;
/// a directory without a marker is what an interrupted download left.
pub fn plan_sysroot(dir_exists: bool, marker_exists: bool) -> (r: SysrootPlan)
    ensures
        r == (if dir_exists && marker_exists {
            SysrootPlan::Reuse
        } else {
            SysrootPlan::Download { remove_stale: dir_exists }
        }),
{
    if dir_exists {
        if marker_exists {
            SysrootPlan::Reuse
        } else {
            SysrootPlan::Download { remove_stale: true }
        }
    } else {
        SysrootPlan::Download { remove_stale: false }
    }
}

/// The repository whose releases carry the MSVC sysroot.
pub open spec fn sysroot_repository() -> Seq<char> {
    "trcrsired/windows-msvc-sysroot"@
}

/// The name of the sysroot archive among a release's assets.
pub open spec fn sysroot_asset_name() -> Seq<char> {
    "windows-msvc-sysroot.tar.xz"@
}

/// The archive used when the newest release cannot be looked up.
pub open spec fn fallback_sysroot_url() -> Seq<char> {
    "https://github.com/trcrsired/windows-msvc-sysroot/releases/download/2025-01-22/windows-msvc-sysroot.tar.xz"@
}

/// The API address of the newest release of the sysroot repository.
pub fn latest_release_url() -> (r: String)
    ensures
        r@ == "https://api.github.com/repos/"@ + sysroot_repository() + "/releases/latest"@,
{
    let mut r = owned("https://api.github.com/repos/");
    r.append("trcrsired/windows-msvc-sysroot");
    r.append("/releases/latest");
    r
}

/// The value of an `Authorization` header for a bearer token.
pub fn bearer(token: &str) -> (r: String)
    ensures
        r@ == "Bearer "@ + token@,
{
    let mut r = owned("Bearer ");
    r.append(token);
    r
}

/// The download address of the first asset named like the sysroot archive,
/// among `(name, download address)` pairs.
pub fn find_sysroot_asset(assets: &Vec<(String, String)>) -> (r: Option<String>)
    ensures
        r is Some <==> exists|i: int|
            0 <= i < assets.len() && (#[trigger] assets@[i]).0@ == sysroot_asset_name(),
        r matches Some(u) ==> exists|i: int|
            0 <= i < assets.len() && (#[trigger] assets@[i]).0@ == sysroot_asset_name() && u@
                == assets@[i].1@ && forall|j: int|
                0 <= j < i ==> (#[trigger] assets@[j]).0@ != sysroot_asset_name(),
{
    let mut i: usize = 0;
    while i < assets.len()
        invariant
            i <= assets.len(),
            forall|j: int| 0 <= j < i ==> (#[trigger] assets@[j]).0@ != sysroot_asset_name(),
        decreases assets.len() - i,
    {
        if str_eq(assets[i].0.as_str(), "windows-msvc-sysroot.tar.xz") {
            return Some(assets[i].1.clone());
        }
        i = i + 1;
    }
    None
}

/// The sysroot download address: the override if one is set, else the newest
/// release's archive if it was found, else the fallback.
pub fn choose_sysroot_url(override_url: Option<String>, latest: Option<String>) -> (r: String)
    ensures
        r@ == match (override_url, latest) {
            (Some(u), _) => u@,
            (None, Some(u)) => u@,
            (None, None) => fallback_sysroot_url(),
        },
{
    match override_url {
        Some(u) => u,
        None => match latest {
            Some(u) => u,
            None => owned(
                "https://github.com/trcrsired/windows-msvc-sysroot/releases/download/2025-01-22/windows-msvc-sysroot.tar.xz",
            ),
        },
    }
}

} // verus!
