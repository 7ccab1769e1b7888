//! The resolved signatures of the program's callable declarations, by path.
use vstd::prelude::*;

use crate::text::str_eq;

verus! {

/// One declaration's resolved signature.
#[derive(Debug, Clone)]
pub struct Signature {
    /// Each parameter's type as written, `None` where it carries no
    /// annotation.
    pub params: Vec<Option<String>>,
    /// The return type's head, or `None` when nothing is returned.
    pub returns: Option<String>,
    /// The return type's arguments.
    pub returns_args: Vec<String>,
    /// The effects the declaration's row names, as written.
    pub effects: Vec<String>,
}

/// Every signature, with the path of the declaration it belongs to, in the
/// order an analysis visits them.
#[derive(Debug, Clone)]
pub struct Signatures {
    pub entries: Vec<(String, Signature)>,
}

/// The position of the first entry for `path`.
pub open spec fn first_for(entries: Seq<(String, Signature)>, path: Seq<char>) -> Option<int>
    decreases entries.len(),
{
    if entries.len() == 0 {
        None
    } else if entries[0].0@ == path {
        Some(0)
    } else {
        match first_for(entries.drop_first(), path) {
            Some(i) => Some(i + 1),
            None => None,
        }
    }
}

pub proof fn lemma_first_for(entries: Seq<(String, Signature)>, path: Seq<char>)
    ensures
        first_for(entries, path) matches Some(i) ==> 0 <= i < entries.len() && entries[i].0@ == path
            && forall|k: int| 0 <= k < i ==> entries[k].0@ != path,
        first_for(entries, path) is None ==> forall|k: int| 0 <= k < entries.len() ==> entries[k].0@ != path,
    decreases entries.len(),
{
    if entries.len() > 0 {
        lemma_first_for(entries.drop_first(), path);
        if entries[0].0@ != path {
            assert forall|k: int| 1 <= k < entries.len() implies entries[k] == entries.drop_first()[k - 1] by {}
        }
    }
}

impl Signatures {
    /// The signature of the declaration at `path`: the first entry for it.
    pub fn by_path(&self, path: &str) -> (r: Option<&Signature>)
        ensures
            match first_for(self.entries@, path@) {
                Some(i) => r == Some(&self.entries@[i].1),
                None => r is None,
            },
    {
        proof {
            lemma_first_for(self.entries@, path@);
        }
        let n: usize = self.entries.len();
        let mut i: usize = 0;
        while i < n
            invariant
                n == self.entries@.len(),
                i <= n,
                forall|k: int| 0 <= k < i ==> self.entries@[k].0@ != path@,
            decreases n - i,
        {
            if str_eq(self.entries[i].0.as_str(), path) {
                proof {
                    assert(first_for(self.entries@, path@) == Some(i as int)) by {
                        lemma_first_is(self.entries@, path@, i as int);
                    }
                }
                return Some(&self.entries[i].1);
            }
            i = i + 1;
        }
        None
    }
}

proof fn lemma_first_is(entries: Seq<(String, Signature)>, path: Seq<char>, i: int)
    requires
        0 <= i < entries.len(),
        entries[i].0@ == path,
        forall|k: int| 0 <= k < i ==> entries[k].0@ != path,
    ensures
        first_for(entries, path) == Some(i),
    decreases i,
{
    if i > 0 {
        assert forall|k: int| 0 <= k < i - 1 implies entries.drop_first()[k].0@ != path by {
            assert(entries.drop_first()[k] == entries[k + 1]);
        }
        lemma_first_is(entries.drop_first(), path, i - 1);
    }
}

} // verus!
