use vstd::prelude::*;

verus! {

/// How many reported heights are at least `h`.
pub open spec fn count_at_least(reports: Seq<u64>, h: u64) -> nat
    decreases reports.len(),
{
    if reports.len() == 0 {
        0
    } else {
        count_at_least(reports.drop_last(), h) + if reports.last() >= h {
            1nat
        } else {
            0nat
        }
    }
}

/// A strict majority of the responders claim at least `h`.
pub open spec fn majority_supports(reports: Seq<u64>, h: u64) -> bool {
    2 * count_at_least(reports, h) > reports.len()
}

/// `target` is the greatest reported height that a strict majority of the
/// responders reach.
pub open spec fn is_sync_target(reports: Seq<u64>, target: u64) -> bool {
    &&& reports.contains(target)
    &&& majority_supports(reports, target)
    &&& forall|j: int| 0 <= j < reports.len() && majority_supports(reports, #[trigger] reports[j]) ==> reports[j] <= target
}

proof fn lemma_count_all(reports: Seq<u64>, h: u64)
    requires
        forall|i: int| 0 <= i < reports.len() ==> #[trigger] reports[i] >= h,
    ensures
        count_at_least(reports, h) == reports.len(),
    decreases reports.len(),
{
    if reports.len() > 0 {
        assert forall|i: int| 0 <= i < reports.drop_last().len() implies #[trigger] reports.drop_last()[i] >= h by {
            assert(reports[i] >= h);
        }
        lemma_count_all(reports.drop_last(), h);
        assert(reports[reports.len() - 1] >= h);
    }
}

fn count_reports_at_least(reports: &Vec<u64>, h: u64) -> (r: usize)
    ensures
        r == count_at_least(reports@, h),
        r <= reports@.len(),
{
    let mut c: usize = 0;
    let mut i: usize = 0;
    while i < reports.len()
        invariant
            i <= reports@.len(),
            c <= i,
            c == count_at_least(reports@.subrange(0, i as int), h),
        decreases reports@.len() - i,
    {
        proof {
            assert(reports@.subrange(0, i + 1).drop_last() =~= reports@.subrange(0, i as int));
        }
        if reports[i] >= h {
            c = c + 1;
        }
        i = i + 1;
    }
    proof {
        assert(reports@.subrange(0, reports@.len() as int) =~= reports@);
    }
    c
}

/// Picks the height to sync towards from the heads that peers claim: the
/// greatest height that a strict majority of them reach, so that a lone
/// outlier is not adopted. `None` only when nobody answered.
pub fn select_target(reports: &Vec<u64>) -> (r: Option<u64>)
    ensures
        r.is_none() <==> reports@.len() == 0,
        match r {
            Some(t) => is_sync_target(reports@, t),
            None => true,
        },
{
    if reports.len() == 0 {
        return None;
    }
    let mut lowest: u64 = reports[0];
    let mut i: usize = 1;
    while i < reports.len()
        invariant
            1 <= i <= reports@.len(),
            reports@.contains(lowest),
            forall|k: int| 0 <= k < i ==> reports@[k] >= lowest,
        decreases reports@.len() - i,
    {
        if reports[i] < lowest {
            lowest = reports[i];
            assert(reports@[i as int] == lowest);
        }
        i = i + 1;
    }
    proof {
        lemma_count_all(reports@, lowest);
    }
    let mut best: u64 = lowest;
    let mut j: usize = 0;
    while j < reports.len()
        invariant
            j <= reports@.len(),
            reports@.contains(best),
            majority_supports(reports@, best),
            forall|k: int| 0 <= k < j && majority_supports(reports@, #[trigger] reports@[k]) ==> reports@[k] <= best,
        decreases reports@.len() - j,
    {
        let c = count_reports_at_least(reports, reports[j]);
        if c > reports.len() - c && reports[j] > best {
            best = reports[j];
            assert(reports@[j as int] == best);
        }
        j = j + 1;
    }
    Some(best)
}

/// `base` doubled `n` times.
pub open spec fn doubled(base: int, n: nat) -> int
    decreases n,
{
    if n == 0 {
        base
    } else {
        2 * doubled(base, (n - 1) as nat)
    }
}

proof fn lemma_doubled_grows(base: int, m: nat, n: nat)
    requires
        base >= 0,
        m <= n,
    ensures
        doubled(base, m) <= doubled(base, n),
        doubled(base, n) >= 0,
    decreases n,
{
    if n > 0 {
        if m < n {
            lemma_doubled_grows(base, m, (n - 1) as nat);
        } else {
            lemma_doubled_grows(base, 0, (n - 1) as nat);
        }
    }
}

/// Exponential backoff: `base` doubled once per failed attempt, capped.
pub fn backoff_delay(base: u64, attempt: u32, cap: u64) -> (r: u64)
    ensures
        r as int == if doubled(base as int, attempt as nat) < cap as int {
            doubled(base as int, attempt as nat)
        } else {
            cap as int
        },
{
    let mut d: u64 = base;
    let mut i: u32 = 0;
    while i < attempt
        invariant
            i <= attempt,
            d as int == doubled(base as int, i as nat),
        decreases attempt - i,
    {
        if d >= cap {
            proof {
                lemma_doubled_grows(base as int, i as nat, attempt as nat);
            }
            return cap;
        }
        if d > cap / 2 {
            proof {
                lemma_doubled_grows(base as int, (i + 1) as nat, attempt as nat);
            }
            return cap;
        }
        d = d * 2;
        i = i + 1;
    }
    if d >= cap {
        cap
    } else {
        d
    }
}


/// Where the syncer's loop stands.
#[derive(Debug, Clone, Copy, PartialEq, Eq, Structural)]
pub enum SyncPhase {
    /// Waiting for a trusted peer to connect and supply a header.
    Bootstrapping,
    /// Asking peers for their heads.
    Discovering,
    /// Fetching, verifying and appending ranges towards `target`; `attempt`
    /// counts the timeouts of the current range.
    Fetching { target: u64, attempt: u32 },
}

/// What happened since the last step, as reported by the loop that runs
/// the syncer.
#[derive(Debug)]
pub enum SyncEvent {
    TrustedPeerConnected,
    HeadsReported(Vec<u64>),
    BatchAppended,
    BatchRejected,
    FetchTimedOut,
    StoreInconsistent,
}

/// What the loop that runs the syncer must do next.
#[derive(Debug, Clone, Copy, PartialEq, Eq, Structural)]
pub enum SyncAction {
    AwaitTrustedPeer,
    QueryHeads,
    /// Fetch heights `from..=to` after waiting `delay`; when `distrust_peer`
    /// holds, the peer that supplied the last range is dropped first.
    Fetch { from: u64, to: u64, delay: u64, distrust_peer: bool },
    /// Keep waiting for the work already under way.
    Continue,
    /// Retries are exhausted; discovery starts again after `cooldown`.
    ReportStalled { cooldown: u64 },
    /// The store was changed behind the syncer's back.
    Abort,
}

/// Tunables of the syncer.
#[derive(Debug, Clone, Copy, PartialEq, Eq, Structural)]
pub struct SyncConfig {
    pub batch_size: u64,
    pub max_attempts: u32,
    pub backoff_base: u64,
    pub backoff_cap: u64,
    pub cooldown: u64,
}

/// The first height still missing from the store.
pub open spec fn first_missing(head: Option<u64>, genesis: u64) -> int {
    match head {
        Some(h) => h + 1,
        None => genesis as int,
    }
}

/// The next range to fetch towards `target`: at most `batch` heights from
/// the first missing one.
pub open spec fn range_end(head: Option<u64>, genesis: u64, target: u64, batch: u64) -> int {
    let from = first_missing(head, genesis);
    if target < from + batch - 1 {
        target as int
    } else {
        from + batch - 1
    }
}

pub open spec fn is_fetch_of(a: SyncAction, head: Option<u64>, genesis: u64, target: u64, batch: u64, delay: u64, distrust: bool) -> bool {
    a == SyncAction::Fetch {
        from: first_missing(head, genesis) as u64,
        to: range_end(head, genesis, target, batch) as u64,
        delay,
        distrust_peer: distrust,
    }
}

fn fetch_action(head: Option<u64>, genesis: u64, target: u64, batch: u64, delay: u64, distrust: bool) -> (a: SyncAction)
    requires
        batch > 0,
        first_missing(head, genesis) <= target,
    ensures
        is_fetch_of(a, head, genesis, target, batch, delay, distrust),
{
    let from = match head {
        Some(h) => h + 1,
        None => genesis,
    };
    let to = if target - from < batch - 1 {
        target
    } else {
        from + (batch - 1)
    };
    SyncAction::Fetch { from, to, delay, distrust_peer: distrust }
}

/// One decision of the syncer, from its phase, the event and the store's
/// head height (`None` for an empty store) to its next phase and action.
pub fn sync_step(phase: SyncPhase, event: &SyncEvent, head: Option<u64>, genesis: u64, cfg: &SyncConfig) -> (r: (
    SyncPhase,
    SyncAction,
))
    requires
        cfg.batch_size > 0,
    ensures
        match (phase, *event) {
            (_, SyncEvent::StoreInconsistent) => r == (phase, SyncAction::Abort),
            (SyncPhase::Bootstrapping, SyncEvent::TrustedPeerConnected) => r == (
                SyncPhase::Discovering,
                SyncAction::QueryHeads,
            ),
            (SyncPhase::Bootstrapping, _) => r == (SyncPhase::Bootstrapping, SyncAction::AwaitTrustedPeer),
            (SyncPhase::Discovering, SyncEvent::HeadsReported(reports)) => {
                let missing = first_missing(head, genesis);
                if exists|t: u64| is_sync_target(reports@, t) && t >= missing {
                    &&& r.0 matches SyncPhase::Fetching { target, attempt }
                    &&& is_sync_target(reports@, target) && attempt == 0
                    &&& is_fetch_of(r.1, head, genesis, target, cfg.batch_size, 0, false)
                } else {
                    r == (SyncPhase::Discovering, SyncAction::QueryHeads)
                }
            },
            (SyncPhase::Discovering, _) => r == (SyncPhase::Discovering, SyncAction::QueryHeads),
            (SyncPhase::Fetching { target, attempt }, SyncEvent::BatchAppended) => if first_missing(head, genesis)
                > target {
                r == (SyncPhase::Discovering, SyncAction::QueryHeads)
            } else {
                r.0 == (SyncPhase::Fetching { target, attempt: 0 }) && is_fetch_of(
                    r.1,
                    head,
                    genesis,
                    target,
                    cfg.batch_size,
                    0,
                    false,
                )
            },
            (SyncPhase::Fetching { target, attempt }, SyncEvent::BatchRejected) => if first_missing(head, genesis)
                > target {
                r == (SyncPhase::Discovering, SyncAction::QueryHeads)
            } else {
                r.0 == phase && is_fetch_of(r.1, head, genesis, target, cfg.batch_size, 0, true)
            },
            (SyncPhase::Fetching { target, attempt }, SyncEvent::FetchTimedOut) => if first_missing(head, genesis)
                > target {
                r == (SyncPhase::Discovering, SyncAction::QueryHeads)
            } else if attempt + 1 < cfg.max_attempts {
                &&& r.0 == (SyncPhase::Fetching { target, attempt: (attempt + 1) as u32 })
                &&& r.1 matches SyncAction::Fetch { delay, .. }
                &&& is_fetch_of(r.1, head, genesis, target, cfg.batch_size, delay, false)
                &&& delay as int == if doubled(cfg.backoff_base as int, attempt as nat) < cfg.backoff_cap as int {
                    doubled(cfg.backoff_base as int, attempt as nat)
                } else {
                    cfg.backoff_cap as int
                }
            } else {
                r == (SyncPhase::Discovering, SyncAction::ReportStalled { cooldown: cfg.cooldown })
            },
            (SyncPhase::Fetching { .. }, _) => r == (phase, SyncAction::Continue),
        },
{
    if let SyncEvent::StoreInconsistent = event {
        return (phase, SyncAction::Abort);
    }
    let caught_up = |target: u64| -> (b: bool)
        ensures
            b == (first_missing(head, genesis) > target),
        {
            match head {
                Some(h) => h >= target,
                None => genesis > target,
            }
        };
    match phase {
        SyncPhase::Bootstrapping => match event {
            SyncEvent::TrustedPeerConnected => (SyncPhase::Discovering, SyncAction::QueryHeads),
            _ => (SyncPhase::Bootstrapping, SyncAction::AwaitTrustedPeer),
        },
        SyncPhase::Discovering => match event {
            SyncEvent::HeadsReported(reports) => {
                match select_target(reports) {
                    Some(t) => {
                        if caught_up(t) {
                            proof {
                                assert forall|u: u64| is_sync_target(reports@, u) implies u < first_missing(head, genesis) by {
                                    let k = choose|k: int| 0 <= k < reports@.len() && reports@[k] == u;
                                    let k2 = choose|k: int| 0 <= k < reports@.len() && reports@[k] == t;
                                    assert(reports@[k] <= t);
                                }
                            }
                            (SyncPhase::Discovering, SyncAction::QueryHeads)
                        } else {
                            let a = fetch_action(head, genesis, t, cfg.batch_size, 0, false);
                            (SyncPhase::Fetching { target: t, attempt: 0 }, a)
                        }
                    },
                    None => (SyncPhase::Discovering, SyncAction::QueryHeads),
                }
            },
            _ => (SyncPhase::Discovering, SyncAction::QueryHeads),
        },
        SyncPhase::Fetching { target, attempt } => {
            match event {
                SyncEvent::BatchAppended => {
                    if caught_up(target) {
                        (SyncPhase::Discovering, SyncAction::QueryHeads)
                    } else {
                        let a = fetch_action(head, genesis, target, cfg.batch_size, 0, false);
                        (SyncPhase::Fetching { target, attempt: 0 }, a)
                    }
                },
                SyncEvent::BatchRejected => {
                    if caught_up(target) {
                        (SyncPhase::Discovering, SyncAction::QueryHeads)
                    } else {
                        (phase, fetch_action(head, genesis, target, cfg.batch_size, 0, true))
                    }
                },
                SyncEvent::FetchTimedOut => {
                    if caught_up(target) {
                        (SyncPhase::Discovering, SyncAction::QueryHeads)
                    } else if (attempt as u64) + 1 < cfg.max_attempts as u64 {
                        let delay = backoff_delay(cfg.backoff_base, attempt, cfg.backoff_cap);
                        let a = fetch_action(head, genesis, target, cfg.batch_size, delay, false);
                        (SyncPhase::Fetching { target, attempt: attempt + 1 }, a)
                    } else {
                        (SyncPhase::Discovering, SyncAction::ReportStalled { cooldown: cfg.cooldown })
                    }
                },
                _ => (phase, SyncAction::Continue),
            }
        },
    }
}

} // verus!
