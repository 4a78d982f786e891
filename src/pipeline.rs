//! The build as a state machine: staging, manifest patch, repackage, align
//! and sign, each run only after the one before it reported exit code 0.
use vstd::prelude::*;

verus! {

/// A state of the build.
#[derive(Clone, Copy, Debug, PartialEq, Eq, Structural)]
pub enum Stage {
    Staging,
    ManifestPatch,
    Repackage,
    Align,
    Sign,
    Done,
    Aborted,
}

/// Whether `s` is a stage that still has work to do.
pub open spec fn is_active(s: Stage) -> bool {
    !(s is Done) && !(s is Aborted)
}

/// The state after stage `s` reported exit code `code`. A finished build
/// stays where it is.
pub open spec fn after(s: Stage, code: int) -> Stage {
    if !is_active(s) {
        s
    } else if code != 0 {
        Stage::Aborted
    } else {
        match s {
            Stage::Staging => Stage::ManifestPatch,
            Stage::ManifestPatch => Stage::Repackage,
            Stage::Repackage => Stage::Align,
            Stage::Align => Stage::Sign,
            _ => Stage::Done,
        }
    }
}

/// The stages in the order a build runs them.
pub open spec fn stage_order() -> Seq<Stage> {
    seq![Stage::Staging, Stage::ManifestPatch, Stage::Repackage, Stage::Align, Stage::Sign]
}

/// The stages run from `s` on, where the stages run report the exit codes
/// `codes` in turn.
pub open spec fn run_from(s: Stage, codes: Seq<i32>) -> Seq<Stage>
    decreases codes.len(),
{
    if !is_active(s) || codes.len() == 0 {
        Seq::empty()
    } else {
        seq![s] + run_from(after(s, codes[0] as int), codes.drop_first())
    }
}

/// The state reached from `s` when the stages run report `codes` in turn.
pub open spec fn state_after(s: Stage, codes: Seq<i32>) -> Stage
    decreases codes.len(),
{
    if !is_active(s) || codes.len() == 0 {
        s
    } else {
        state_after(after(s, codes[0] as int), codes.drop_first())
    }
}

/// Gate enforcement: once a stage reports a non-zero exit code, no later
/// stage runs.
pub proof fn lemma_failure_stops_build(s: Stage, codes: Seq<i32>, k: int)
    requires
        0 <= k < run_from(s, codes).len(),
        codes[k] != 0,
    ensures
        run_from(s, codes).len() == k + 1,
    decreases codes.len(),
{
    lemma_run_len(s, codes);
    if k > 0 {
        assert(codes.drop_first()[k - 1] == codes[k]);
        lemma_failure_stops_build(after(s, codes[0] as int), codes.drop_first(), k - 1);
    } else {
        assert(run_from(Stage::Aborted, codes.drop_first()) =~= Seq::<Stage>::empty());
    }
}

/// At most one stage runs per exit code.
proof fn lemma_run_len(s: Stage, codes: Seq<i32>)
    ensures
        run_from(s, codes).len() <= codes.len(),
    decreases codes.len(),
{
    if is_active(s) && codes.len() > 0 {
        lemma_run_len(after(s, codes[0] as int), codes.drop_first());
    }
}

/// From the stage at `idx` in `stage_order`, the stages run follow that
/// order.
proof fn lemma_run_in_order(idx: int, codes: Seq<i32>)
    requires
        0 <= idx < 5,
    ensures
        run_from(stage_order()[idx], codes).len() <= 5 - idx,
        forall|j: int|
            0 <= j < run_from(stage_order()[idx], codes).len() ==> #[trigger] run_from(
                stage_order()[idx],
                codes,
            )[j] == stage_order()[idx + j],
    decreases codes.len(),
{
    let s = stage_order()[idx];
    if codes.len() > 0 {
        let n = after(s, codes[0] as int);
        if codes[0] == 0 && idx < 4 {
            assert(n == stage_order()[idx + 1]);
            lemma_run_in_order(idx + 1, codes.drop_first());
        } else {
            assert(run_from(n, codes.drop_first()) =~= Seq::<Stage>::empty());
        }
    }
}

/// A build runs its stages in the order staging, manifest patch,
/// repackage, align, sign, and runs each at most once.
pub proof fn lemma_stages_in_order(codes: Seq<i32>)
    ensures
        run_from(Stage::Staging, codes).len() <= 5,
        forall|j: int|
            0 <= j < run_from(Stage::Staging, codes).len() ==> #[trigger] run_from(
                Stage::Staging,
                codes,
            )[j] == stage_order()[j],
{
    lemma_run_in_order(0, codes);
}

/// A build is done exactly when all five stages ran and each reported 0.
pub proof fn lemma_done_iff_all_succeeded(codes: Seq<i32>)
    ensures
        state_after(Stage::Staging, codes) == Stage::Done <==> (codes.len() >= 5 && forall|
            j: int,
        |
            0 <= j < 5 ==> #[trigger] codes[j] == 0),
{
    lemma_done_from(0, codes);
}

/// From the stage at `idx` in `stage_order`, the build is done exactly
/// when each of the remaining stages reports 0.
proof fn lemma_done_from(idx: int, codes: Seq<i32>)
    requires
        0 <= idx < 5,
    ensures
        state_after(stage_order()[idx], codes) == Stage::Done <==> (codes.len() >= 5 - idx
            && forall|j: int| 0 <= j < 5 - idx ==> #[trigger] codes[j] == 0),
    decreases codes.len(),
{
    let s = stage_order()[idx];
    if codes.len() > 0 {
        let n = after(s, codes[0] as int);
        let c1 = codes.drop_first();
        if codes[0] != 0 {
            assert(state_after(n, c1) == Stage::Aborted);
        } else if idx < 4 {
            assert(n == stage_order()[idx + 1]);
            lemma_done_from(idx + 1, c1);
            if c1.len() >= 4 - idx && forall|j: int| 0 <= j < 4 - idx ==> #[trigger] c1[j] == 0 {
                assert forall|j: int| 0 <= j < 5 - idx implies #[trigger] codes[j] == 0 by {
                    if j > 0 {
                        assert(codes[j] == c1[j - 1]);
                    }
                }
            }
            if codes.len() >= 5 - idx && forall|j: int| 0 <= j < 5 - idx ==> #[trigger] codes[j]
                == 0 {
                assert forall|j: int| 0 <= j < 4 - idx implies #[trigger] c1[j] == 0 by {
                    assert(c1[j] == codes[j + 1]);
                }
            }
        } else {
            assert(state_after(n, c1) == Stage::Done);
        }
    }
}

impl Stage {
    /// Whether this stage still has work to do.
    pub fn is_active(&self) -> (r: bool)
        ensures
            r == is_active(*self),
    {
        !matches!(self, Stage::Done | Stage::Aborted)
    }

    /// The state after this stage reported exit code `code`.
    pub fn next(self, code: i32) -> (r: Stage)
        ensures
            r == after(self, code as int),
    {
        if !self.is_active() {
            self
        } else if code != 0 {
            Stage::Aborted
        } else {
            match self {
                Stage::Staging => Stage::ManifestPatch,
                Stage::ManifestPatch => Stage::Repackage,
                Stage::Repackage => Stage::Align,
                Stage::Align => Stage::Sign,
                _ => Stage::Done,
            }
        }
    }
}

/// A build in progress: its current state and, once one failed, the stage
/// that failed.
pub struct Pipeline {
    stage: Stage,
    failed: Option<Stage>,
}

impl View for Pipeline {
    type V = (Stage, Option<Stage>);

    closed spec fn view(&self) -> (Stage, Option<Stage>) {
        (self.stage, self.failed)
    }
}

/// A build has recorded a failed stage exactly when it was aborted, and
/// the failed stage is one that runs.
pub open spec fn pipeline_wf(v: (Stage, Option<Stage>)) -> bool {
    &&& (v.0 is Aborted <==> v.1 is Some)
    &&& (v.1 matches Some(s) ==> is_active(s))
}

impl Pipeline {
    /// A build about to stage its assets.
    pub fn new() -> (r: Self)
        ensures
            r@ == (Stage::Staging, None::<Stage>),
            pipeline_wf(r@),
    {
        Pipeline { stage: Stage::Staging, failed: None }
    }

    /// The stage to run now, or the state the build ended in.
    pub fn current(&self) -> (r: Stage)
        ensures
            r == self@.0,
    {
        self.stage
    }

    /// Records the exit code of the current stage. A non-zero code aborts
    /// the build and records the stage that failed; a finished build does
    /// not change.
    pub fn report(&mut self, code: i32)
        requires
            pipeline_wf(old(self)@),
        ensures
            pipeline_wf(final(self)@),
            final(self)@.0 == after(old(self)@.0, code as int),
            final(self)@.1 == if is_active(old(self)@.0) && code != 0 {
                Some(old(self)@.0)
            } else {
                old(self)@.1
            },
    {
        if self.stage.is_active() && code != 0 {
            self.failed = Some(self.stage);
        }
        self.stage = self.stage.next(code);
    }

    /// The result of a finished build: `Ok` once every stage reported 0,
    /// `Err` with the failed stage once one did not; `None` while stages
    /// remain.
    pub fn outcome(&self) -> (r: Option<Result<(), Stage>>)
        requires
            pipeline_wf(self@),
        ensures
            r == match self@.0 {
                Stage::Done => Some(Ok::<(), Stage>(())),
                Stage::Aborted => Some(Err::<(), Stage>(self@.1->Some_0)),
                _ => None,
            },
    {
        match self.stage {
            Stage::Done => Some(Ok(())),
            Stage::Aborted => match self.failed {
                Some(s) => Some(Err(s)),
                None => None,
            },
            _ => None,
        }
    }
}

/// The stages a build runs, in order, when each stage run reports the next
/// of `codes`.
pub fn invoked_stages(codes: &Vec<i32>) -> (r: Vec<Stage>)
    ensures
        r@ == run_from(Stage::Staging, codes@),
{
    let mut out: Vec<Stage> = Vec::new();
    let mut s = Stage::Staging;
    let mut i: usize = 0;
    assert(codes@.skip(0) =~= codes@);
    assert(out@ + run_from(s, codes@) =~= run_from(s, codes@));
    while i < codes.len() && s.is_active()
        invariant
            i <= codes@.len(),
            run_from(Stage::Staging, codes@) == out@ + run_from(s, codes@.skip(i as int)),
        decreases codes@.len() - i,
    {
        let ghost rest = codes@.skip(i as int);
        assert(rest.drop_first() =~= codes@.skip(i + 1));
        assert(rest[0] == codes@[i as int]);
        out.push(s);
        s = s.next(codes[i]);
        i = i + 1;
        assert(out@ + run_from(s, codes@.skip(i as int)) =~= out@.drop_last() + run_from(
            out@.last(),
            rest,
        ));
    }
    assert(run_from(s, codes@.skip(i as int)) =~= Seq::<Stage>::empty());
    assert(out@ + Seq::<Stage>::empty() =~= out@);
    out
}

/// Seconds from `start` to `now`; zero where the clock went back.
pub fn elapsed_seconds(start: u64, now: u64) -> (r: u64)
    ensures
        r == if now >= start {
            now - start
        } else {
            0
        },
{
    if now >= start {
        now - start
    } else {
        0
    }
}

} // verus!
