use vstd::prelude::*;

verus! {

/// How one input path goes into the tar stream.
#[derive(Debug, Clone, Copy, PartialEq, Eq, Structural)]
pub enum AppendStep {
    /// A directory: its contents, recursively, at the root of the archive
    /// (under the entry name `"."`), not under the directory's own location.
    DirectoryContents,
    /// Anything else: the path appended as one entry.
    SinglePath,
}

/// The step for an input path, from whether it is a directory.
pub open spec fn step_for(is_dir: bool) -> AppendStep {
    if is_dir {
        AppendStep::DirectoryContents
    } else {
        AppendStep::SinglePath
    }
}

/// The steps that pack the input paths, one per path and in their order,
/// given for each whether it is a directory.
pub fn plan_appends(is_dir: &Vec<bool>) -> (r: Vec<AppendStep>)
    ensures
        r@ == is_dir@.map_values(|d: bool| step_for(d)),
{
    let mut steps: Vec<AppendStep> = Vec::new();
    let mut i: usize = 0;
    while i < is_dir.len()
        invariant
            i <= is_dir@.len(),
            steps@ == is_dir@.subrange(0, i as int).map_values(|d: bool| step_for(d)),
        decreases is_dir@.len() - i,
    {
        let step = if is_dir[i] {
            AppendStep::DirectoryContents
        } else {
            AppendStep::SinglePath
        };
        steps.push(step);
        i = i + 1;
        assert(steps@ =~= is_dir@.subrange(0, i as int).map_values(|d: bool| step_for(d)));
    }
    assert(is_dir@.subrange(0, i as int) =~= is_dir@);
    steps
}

} // verus!
