//! Matching process names against a list of target names.
use vstd::prelude::*;
use crate::text::{lowercase, to_lowercase, lowercase_chars, chars_of, chars_contain, has_substring, occurs_at};
use crate::exe_set::views_of;

verus! {

/// A list of process-name fragments, kept in lowercase.
pub struct WindowFilter {
    target_processes: Vec<String>,
}

impl WindowFilter {
    /// The lowercase targets, in the order they were given.
    pub closed spec fn targets(&self) -> Seq<Seq<char>> {
        views_of(self.target_processes@)
    }

    /// A filter whose targets are the lowercase forms of `targets`.
    pub fn new(targets: Vec<&str>) -> (f: Self)
        ensures
            f.targets() == Seq::new(targets@.len(), |i: int| lowercase(targets@[i]@)),
    {
        let mut v: Vec<String> = Vec::new();
        let mut i: usize = 0;
        while i < targets.len()
            invariant
                i <= targets.len(),
                v.len() == i,
                views_of(v@) == Seq::new(i as nat, |k: int| lowercase(targets@[k]@)),
            decreases targets.len() - i,
        {
            let l = to_lowercase(targets[i]);
            let ghost before = v@;
            v.push(l);
            proof {
                assert forall|k: int| 0 <= k < i + 1 implies views_of(v@)[k] == lowercase(
                    targets@[k]@,
                ) by {
                    if k < i {
                        assert(v@[k] == before[k]);
                        assert(views_of(before)[k] == lowercase(targets@[k]@));
                    }
                }
                assert(views_of(v@) =~= Seq::new((i + 1) as nat, |k: int| lowercase(targets@[k]@)));
            }
            i = i + 1;
        }
        WindowFilter { target_processes: v }
    }

    /// True when some target occurs in the lowercase form of `process_name`.
    pub fn matches(&self, process_name: &str) -> (r: bool)
        ensures
            r == exists|i: int|
                0 <= i < self.targets().len() && has_substring(
                    lowercase(process_name@),
                    #[trigger] self.targets()[i],
                ),
    {
        let lower = lowercase_chars(process_name);
        let mut i: usize = 0;
        while i < self.target_processes.len()
            invariant
                i <= self.target_processes.len(),
                lower@ == lowercase(process_name@),
                forall|k: int|
                    0 <= k < i ==> !has_substring(lower@, #[trigger] self.targets()[k]),
            decreases self.target_processes.len() - i,
        {
            let t = chars_of(self.target_processes[i].as_str());
            assert(t@ == self.targets()[i as int]);
            if chars_contain(&lower, &t) {
                return true;
            }
            i = i + 1;
        }
        false
    }
}

/// A filter matches every name it was built from: each target, lowercased, occurs in
/// the lowercase form of itself.
pub proof fn law_filter_matches_own_targets(targets: Seq<Seq<char>>, i: int)
    requires
        0 <= i < targets.len(),
    ensures
        has_substring(lowercase(targets[i]), Seq::new(targets.len(), |k: int| lowercase(targets[k]))[i]),
{
    let t = lowercase(targets[i]);
    assert(t.subrange(0, t.len() as int) =~= t);
    assert(occurs_at(t, t, 0));
}

} // verus!
