//! The search for a fresh temporary file: candidates numbered 0, 1, 2, ...
//! are created in exclusive mode until one is created or an error other than
//! a collision ends the search.

use vstd::prelude::*;

use crate::naming::NamingConvention;

verus! {

/// How an exclusive create of a candidate path ended.
#[derive(Clone, Copy, Debug, PartialEq, Eq, Structural)]
pub enum CreateOutcome {
    /// The file did not exist and was created empty.
    Created,
    /// A file already stood at the path.
    AlreadyExists,
    /// Any other failure (permissions, a missing directory, no space).
    OtherError,
}

/// Where the search for a fresh temporary file stands.
#[derive(Clone, Copy, Debug, PartialEq, Eq, Structural)]
pub enum ProbeState {
    /// The candidate with this number is to be created next.
    Probing(u64),
    /// The candidate with this number was created: it is the result.
    Success(u64),
    /// A create failed for a reason other than a collision.
    Failed,
    /// Every number a counter can hold was taken.
    Exhausted,
}

impl ProbeState {
    /// The state after a create attempt ended with `o`. Once the search has
    /// ended, it stays where it is.
    pub open spec fn next(self, o: CreateOutcome) -> ProbeState {
        match self {
            ProbeState::Probing(n) => match o {
                CreateOutcome::Created => ProbeState::Success(n),
                CreateOutcome::AlreadyExists => if n < u64::MAX {
                    ProbeState::Probing((n + 1) as u64)
                } else {
                    ProbeState::Exhausted
                },
                CreateOutcome::OtherError => ProbeState::Failed,
            },
            _ => self,
        }
    }

    /// The state a search starts in: candidate 0 first.
    pub fn start() -> (r: ProbeState)
        ensures
            r == ProbeState::Probing(0),
    {
        ProbeState::Probing(0)
    }

    /// Moves the search on after a create attempt ended with `outcome`.
    pub fn step(self, outcome: CreateOutcome) -> (r: ProbeState)
        ensures
            r == self.next(outcome),
    {
        match self {
            ProbeState::Probing(n) => match outcome {
                CreateOutcome::Created => ProbeState::Success(n),
                CreateOutcome::AlreadyExists => if n < u64::MAX {
                    ProbeState::Probing(n + 1)
                } else {
                    ProbeState::Exhausted
                },
                CreateOutcome::OtherError => ProbeState::Failed,
            },
            _ => self,
        }
    }
}

/// How an exclusive create of `p` ends in a directory that holds the paths
/// `dir`, when nothing but a collision can go wrong.
pub open spec fn outcome_in(dir: Set<Seq<char>>, p: Seq<char>) -> CreateOutcome {
    if dir.contains(p) {
        CreateOutcome::AlreadyExists
    } else {
        CreateOutcome::Created
    }
}

/// One move of a search by `nc` in a directory that holds the paths `dir`.
pub open spec fn probe_step<N: NamingConvention>(
    nc: N,
    dir: Set<Seq<char>>,
    s: ProbeState,
) -> ProbeState {
    match s {
        ProbeState::Probing(n) => s.next(outcome_in(dir, nc.temp_path(n as nat))),
        _ => s,
    }
}

/// Where a search by `nc` stands after `steps` moves in a directory that holds
/// the paths `dir` and that nobody else changes meanwhile.
pub open spec fn probe_run<N: NamingConvention>(
    nc: N,
    dir: Set<Seq<char>>,
    steps: nat,
) -> ProbeState
    decreases steps,
{
    if steps == 0 {
        ProbeState::Probing(0)
    } else {
        probe_step(nc, dir, probe_run(nc, dir, (steps - 1) as nat))
    }
}

/// What each state of a search says of the directory: candidates below the
/// current number are all taken, and a result is free.
proof fn lemma_run_shape<N: NamingConvention>(nc: N, dir: Set<Seq<char>>, steps: nat)
    ensures
        match probe_run(nc, dir, steps) {
            ProbeState::Probing(m) => m as nat == steps && forall|i: nat|
                i < m ==> dir.contains(#[trigger] nc.temp_path(i)),
            ProbeState::Success(k) => !dir.contains(nc.temp_path(k as nat)) && forall|i: nat|
                i < k ==> dir.contains(#[trigger] nc.temp_path(i)),
            ProbeState::Failed => false,
            ProbeState::Exhausted => forall|i: nat|
                i <= u64::MAX ==> dir.contains(#[trigger] nc.temp_path(i)),
        },
    decreases steps,
{
    if steps > 0 {
        lemma_run_shape(nc, dir, (steps - 1) as nat);
    }
}

/// A search succeeds only on an attempt at which the exclusive create of the
/// candidate itself succeeded, and it hands back that very candidate: what it
/// returns was not there when it was created, whatever else runs beside it.
pub proof fn lemma_success_only_on_create(s: ProbeState, o: CreateOutcome, k: u64)
    requires
        !(s is Success),
        s.next(o) == ProbeState::Success(k),
    ensures
        s == ProbeState::Probing(k),
        o == CreateOutcome::Created,
{
}

/// A search never returns a path that was in the directory when it began.
pub proof fn lemma_result_is_fresh<N: NamingConvention>(
    nc: N,
    dir: Set<Seq<char>>,
    steps: nat,
    k: u64,
)
    requires
        probe_run(nc, dir, steps) == ProbeState::Success(k),
    ensures
        !dir.contains(nc.temp_path(k as nat)),
{
    lemma_run_shape(nc, dir, steps);
}

/// When candidates `0 .. k` are taken and candidate `k` is free, the search
/// tries `0, 1, ..., k` in that order and returns `k`: the first gap.
pub proof fn lemma_fills_first_gap<N: NamingConvention>(nc: N, dir: Set<Seq<char>>, k: u64)
    requires
        forall|i: nat| i < k ==> dir.contains(#[trigger] nc.temp_path(i)),
        !dir.contains(nc.temp_path(k as nat)),
    ensures
        forall|j: nat| j <= k ==> #[trigger] probe_run(nc, dir, j) == ProbeState::Probing(
            j as u64,
        ),
        forall|j: nat| j > k ==> #[trigger] probe_run(nc, dir, j) == ProbeState::Success(k),
{
    assert forall|j: nat| j <= k implies #[trigger] probe_run(nc, dir, j) == ProbeState::Probing(
        j as u64,
    ) by {
        lemma_run_before(nc, dir, k, j);
    }
    assert forall|j: nat| j > k implies #[trigger] probe_run(nc, dir, j) == ProbeState::Success(
        k,
    ) by {
        lemma_run_after(nc, dir, k, j);
    }
}

proof fn lemma_run_before<N: NamingConvention>(nc: N, dir: Set<Seq<char>>, k: u64, j: nat)
    requires
        forall|i: nat| i < k ==> dir.contains(#[trigger] nc.temp_path(i)),
        j <= k,
    ensures
        probe_run(nc, dir, j) == ProbeState::Probing(j as u64),
    decreases j,
{
    if j > 0 {
        lemma_run_before(nc, dir, k, (j - 1) as nat);
        assert(dir.contains(nc.temp_path((j - 1) as nat)));
    }
}

proof fn lemma_run_after<N: NamingConvention>(nc: N, dir: Set<Seq<char>>, k: u64, j: nat)
    requires
        forall|i: nat| i < k ==> dir.contains(#[trigger] nc.temp_path(i)),
        !dir.contains(nc.temp_path(k as nat)),
        j > k,
    ensures
        probe_run(nc, dir, j) == ProbeState::Success(k),
    decreases j,
{
    if j == k + 1 {
        lemma_run_before(nc, dir, k, k as nat);
    } else {
        lemma_run_after(nc, dir, k, (j - 1) as nat);
    }
}

/// An attempt that fails for any reason but a collision ends the search at
/// once, with that failure, and nothing moves it on after.
pub proof fn lemma_error_ends_search(n: u64)
    ensures
        ProbeState::Probing(n).next(CreateOutcome::OtherError) == ProbeState::Failed,
        forall|o: CreateOutcome| #[trigger] ProbeState::Failed.next(o) == ProbeState::Failed,
{
}

proof fn lemma_dirs_grow(dirs: Seq<Set<Seq<char>>>, a: int, b: int)
    requires
        forall|i: int| 0 <= i < dirs.len() - 1 ==> (#[trigger] dirs[i]).subset_of(dirs[i + 1]),
        0 <= a <= b < dirs.len(),
    ensures
        dirs[a].subset_of(dirs[b]),
    decreases b - a,
{
    if a < b {
        lemma_dirs_grow(dirs, a, b - 1);
        assert(dirs[b - 1].subset_of(dirs[b]));
    }
}

/// Searches run one after another, each in a directory that holds what the
/// one before found plus the file that search created (and perhaps more),
/// return strictly increasing numbers, and so pairwise distinct paths.
pub proof fn lemma_successive_results_increase<N: NamingConvention>(
    nc: N,
    dirs: Seq<Set<Seq<char>>>,
    steps: Seq<nat>,
    ks: Seq<u64>,
)
    requires
        steps.len() == dirs.len(),
        ks.len() == dirs.len(),
        forall|i: int|
            0 <= i < dirs.len() ==> probe_run(nc, #[trigger] dirs[i], steps[i])
                == ProbeState::Success(ks[i]),
        forall|i: int|
            0 <= i < dirs.len() - 1 ==> (#[trigger] dirs[i]).insert(
                nc.temp_path(ks[i] as nat),
            ).subset_of(dirs[i + 1]),
    ensures
        forall|i: int, j: int|
            0 <= i < j < ks.len() ==> #[trigger] ks[i] < #[trigger] ks[j] && nc.temp_path(
                ks[i] as nat,
            ) != nc.temp_path(ks[j] as nat),
{
    assert forall|i: int| 0 <= i < dirs.len() - 1 implies (#[trigger] dirs[i]).subset_of(
        dirs[i + 1],
    ) by {
        assert(dirs[i].subset_of(dirs[i].insert(nc.temp_path(ks[i] as nat))));
    }
    assert forall|i: int, j: int| 0 <= i < j < ks.len() implies #[trigger] ks[i] < #[trigger] ks[j]
        && nc.temp_path(ks[i] as nat) != nc.temp_path(ks[j] as nat) by {
        lemma_run_shape(nc, dirs[i], steps[i]);
        lemma_run_shape(nc, dirs[j], steps[j]);
        lemma_dirs_grow(dirs, i + 1, j);
        let taken = dirs[i].insert(nc.temp_path(ks[i] as nat));
        assert(taken.subset_of(dirs[i + 1]));
        assert(dirs[j].contains(nc.temp_path(ks[i] as nat)));
        if ks[j] <= ks[i] {
            if ks[j] < ks[i] {
                assert(dirs[i].contains(nc.temp_path(ks[j] as nat)));
            }
            assert(dirs[j].contains(nc.temp_path(ks[j] as nat)));
        }
    }
}

} // verus!
