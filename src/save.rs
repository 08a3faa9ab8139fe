use vstd::prelude::*;

verus! {

/// Why saving the selected images could not start.
#[derive(Debug, PartialEq, Eq, Structural)]
pub enum SaveError {
    /// No image was selected.
    EmptySelection,
}

impl SaveError {
    pub fn message(&self) -> (r: String)
        ensures
            r@ == "No images selected to save"@,
    {
        "No images selected to save".to_owned()
    }
}

/// A save goes ahead only with at least one path; with none it fails
/// before anything is written.
pub fn validate_selection(paths: &Vec<String>) -> (r: Result<(), SaveError>)
    ensures
        r is Err <==> paths@.len() == 0,
        r matches Err(e) ==> e == SaveError::EmptySelection,
{
    if paths.len() == 0 {
        Err(SaveError::EmptySelection)
    } else {
        Ok(())
    }
}

/// How many of the copies succeeded.
pub open spec fn count_true(s: Seq<bool>) -> nat
    decreases s.len(),
{
    if s.len() == 0 {
        0
    } else {
        count_true(s.drop_last()) + if s.last() {
            1nat
        } else {
            0nat
        }
    }
}

proof fn lemma_count_true_bound(s: Seq<bool>)
    ensures
        count_true(s) <= s.len(),
    decreases s.len(),
{
    if s.len() > 0 {
        lemma_count_true_bound(s.drop_last());
    }
}

/// The number of files copied, given whether each copy succeeded; failed
/// copies are skipped, not fatal.
pub fn count_copied(outcomes: &Vec<bool>) -> (r: usize)
    ensures
        r == count_true(outcomes@),
{
    let mut n: usize = 0;
    let mut i: usize = 0;
    while i < outcomes.len()
        invariant
            i <= outcomes@.len(),
            n == count_true(outcomes@.take(i as int)),
        decreases outcomes@.len() - i,
    {
        assert(outcomes@.take(i + 1).drop_last() =~= outcomes@.take(i as int));
        proof {
            lemma_count_true_bound(outcomes@.take(i + 1));
        }
        if outcomes[i] {
            n = n + 1;
        }
        i = i + 1;
    }
    assert(outcomes@.take(outcomes@.len() as int) =~= outcomes@);
    n
}

} // verus!
