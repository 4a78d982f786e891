//! Preparation of the staging area: the stale copy of the asset bundle and
//! the stale intermediate build directory are removed, then the bundle is
//! copied in. The steps are decided here and carried out by the caller.
use vstd::prelude::*;
use crate::config::Builder;

verus! {

/// One file-system operation of staging.
#[derive(Clone, Debug)]
pub enum StagingStep {
    /// Remove the file at this path, if there is one; a failure is ignored.
    RemoveFile(String),
    /// Remove the directory at this path with everything under it, if there
    /// is one; a failure is ignored.
    RemoveDir(String),
    /// Copy the file at the first path to the second.
    Copy(String, String),
}

/// Where the staged copy of the asset bundle lies.
pub open spec fn staged_bundle() -> Seq<char> {
    "template/assets/resource.zpak"@
}

/// The intermediate build directory of the repackaging tool.
pub open spec fn build_dir() -> Seq<char> {
    "template/build"@
}

/// The files on disk, by path.
pub type Files = Map<Seq<char>, Seq<u8>>;

/// Whether path `p` lies under the directory `dir`.
pub open spec fn is_under(dir: Seq<char>, p: Seq<char>) -> bool {
    p.len() > dir.len() && p.subrange(0, dir.len() as int) == dir && p[dir.len() as int] == '/'
}

/// `fs` without the directory `dir` and what lies under it.
pub open spec fn without_dir(fs: Files, dir: Seq<char>) -> Files {
    Map::new(|p: Seq<char>| fs.contains_key(p) && p != dir && !is_under(dir, p), |p: Seq<char>| fs[p])
}

/// The files after `step`.
pub open spec fn apply_step(fs: Files, step: StagingStep) -> Files {
    match step {
        StagingStep::RemoveFile(p) => fs.remove(p@),
        StagingStep::RemoveDir(d) => without_dir(fs, d@),
        StagingStep::Copy(from, to) => if fs.contains_key(from@) {
            fs.insert(to@, fs[from@])
        } else {
            fs
        },
    }
}

/// The files after `steps`, in order.
pub open spec fn apply_all(fs: Files, steps: Seq<StagingStep>) -> Files
    decreases steps.len(),
{
    if steps.len() == 0 {
        fs
    } else {
        apply_all(apply_step(fs, steps[0]), steps.drop_first())
    }
}

/// Whether `steps` stage the asset bundle at `bundle`: remove the staged
/// copy, remove the build directory, copy the bundle in.
pub open spec fn is_staging_plan(steps: Seq<StagingStep>, bundle: Seq<char>) -> bool {
    &&& steps.len() == 3
    &&& steps[0] matches StagingStep::RemoveFile(p) && p@ == staged_bundle()
    &&& steps[1] matches StagingStep::RemoveDir(d) && d@ == build_dir()
    &&& steps[2] matches StagingStep::Copy(from, to) && from@ == bundle && to@ == staged_bundle()
}

/// Staging twice in a row leaves the files as staging once does: the
/// staged copy equals the asset bundle and nothing lies under the build
/// directory.
pub proof fn lemma_restaging_is_idempotent(fs: Files, steps: Seq<StagingStep>, bundle: Seq<char>)
    requires
        is_staging_plan(steps, bundle),
        fs.contains_key(bundle),
        bundle != staged_bundle(),
        bundle != build_dir(),
        !is_under(build_dir(), bundle),
    ensures
        apply_all(fs, steps).contains_key(staged_bundle()),
        apply_all(fs, steps)[staged_bundle()] == fs[bundle],
        forall|p: Seq<char>| #[trigger] is_under(build_dir(), p) ==> !apply_all(fs, steps).contains_key(p),
        apply_all(apply_all(fs, steps), steps) == apply_all(fs, steps),
{
    assert(!is_under(build_dir(), staged_bundle())) by {
        reveal_strlit("template/assets/resource.zpak");
        reveal_strlit("template/build");
        assert(staged_bundle().subrange(0, 14)[9] != build_dir()[9]);
    }
    lemma_apply_plan(fs, steps, bundle);
    let f1 = apply_all(fs, steps);
    lemma_apply_plan(f1, steps, bundle);
    let f2 = apply_all(f1, steps);
    assert(f2 =~= f1);
}

/// What applying a staging plan does to the files.
proof fn lemma_apply_plan(fs: Files, steps: Seq<StagingStep>, bundle: Seq<char>)
    requires
        is_staging_plan(steps, bundle),
        fs.contains_key(bundle),
        bundle != staged_bundle(),
        bundle != build_dir(),
        !is_under(build_dir(), bundle),
    ensures
        apply_all(fs, steps) == without_dir(fs.remove(staged_bundle()), build_dir()).insert(
            staged_bundle(),
            fs[bundle],
        ),
{
    let s1 = steps.drop_first();
    let s2 = s1.drop_first();
    let s3 = s2.drop_first();
    assert(s1[0] == steps[1]);
    assert(s2[0] == steps[2]);
    assert(s3.len() == 0);
    let f0 = fs.remove(staged_bundle());
    let g = without_dir(f0, build_dir());
    assert(apply_step(fs, steps[0]) == f0);
    assert(apply_step(f0, s1[0]) == g);
    assert(g.contains_key(bundle));
    let h = g.insert(staged_bundle(), fs[bundle]);
    assert(apply_step(g, s2[0]) == h);
    assert(apply_all(h, s3) == h);
    assert(apply_all(g, s2) == h);
    assert(apply_all(f0, s1) == h);
}

impl Builder {
    /// The steps that stage this build's asset bundle, or `None` where the
    /// bundle does not exist, which aborts the build.
    pub fn staging_steps(&self, bundle_exists: bool) -> (r: Option<Vec<StagingStep>>)
        ensures
            bundle_exists <==> r is Some,
            r matches Some(steps) ==> is_staging_plan(steps@, self@.zpak_path),
    {
        if !bundle_exists {
            return None;
        }
        let mut steps: Vec<StagingStep> = Vec::new();
        steps.push(StagingStep::RemoveFile("template/assets/resource.zpak".to_owned()));
        steps.push(StagingStep::RemoveDir("template/build".to_owned()));
        steps.push(
            StagingStep::Copy(self.zpak_path().clone(), "template/assets/resource.zpak".to_owned()),
        );
        Some(steps)
    }
}

} // verus!
