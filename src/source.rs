//! The rules of a run: one file, or every regular file below a directory.
use vstd::prelude::*;
use vstd::string::*;
use crate::config::{InvalidFile, StartupError};

verus! {

/// One entry met while walking a directory tree.
#[derive(Debug)]
pub struct WalkEntry {
    pub path: String,
    /// The entry is a regular file (not a directory, nor a link).
    pub is_file: bool,
}

/// The paths of the regular files among `entries`, in their order.
pub open spec fn regular_paths(entries: Seq<WalkEntry>) -> Seq<Seq<char>>
    decreases entries.len(),
{
    if entries.len() == 0 {
        Seq::empty()
    } else {
        let rest = regular_paths(entries.drop_last());
        if entries.last().is_file {
            rest.push(entries.last().path@)
        } else {
            rest
        }
    }
}

/// The rule inputs of a run. `exists` and `is_file` describe the rules path
/// as it is now; `walked` is the walk of the tree below it, used only where
/// it is not a file. A missing path yields no inputs and `NotFound`.
pub fn rule_inputs(rules: &str, exists: bool, is_file: bool, walked: &Vec<WalkEntry>) -> (r:
    Result<Vec<String>, StartupError>)
    ensures
        !exists ==> (r matches Err(StartupError::NotFound(e)) && e.file@ == rules@),
        exists && is_file ==> (r matches Ok(v) && v.deep_view() == seq![rules@]),
        exists && !is_file ==> (r matches Ok(v) && v.deep_view() == regular_paths(walked@)),
{
    if !exists {
        return Err(StartupError::NotFound(InvalidFile::new(rules)));
    }
    let mut inputs: Vec<String> = Vec::new();
    if is_file {
        inputs.push(String::from_str(rules));
        assert(inputs.deep_view() =~= seq![rules@]);
        return Ok(inputs);
    }
    let mut i: usize = 0;
    while i < walked.len()
        invariant
            0 <= i <= walked.len(),
            inputs.deep_view() == regular_paths(walked@.subrange(0, i as int)),
        decreases walked.len() - i,
    {
        let ghost before = walked@.subrange(0, i as int);
        let ghost after = walked@.subrange(0, i as int + 1);
        assert(after.drop_last() =~= before);
        if walked[i].is_file {
            inputs.push(walked[i].path.clone());
            assert(inputs.deep_view() =~= regular_paths(before).push(walked@[i as int].path@));
        }
        i = i + 1;
    }
    assert(walked@.subrange(0, walked.len() as int) =~= walked@);
    Ok(inputs)
}

} // verus!
