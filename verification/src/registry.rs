//! A model of the shell's window registry: the labels of the windows that
//! are currently open, each label unique at any single instant.

use vstd::prelude::*;

verus! {

/// True when some string in `labels` reads as the character sequence `l`.
pub open spec fn has_label(labels: Seq<String>, l: Seq<char>) -> bool {
    exists|i: int| 0 <= i < labels.len() && labels[i]@ == l
}

/// True when no two strings in `labels` read the same.
pub open spec fn distinct_views(labels: Seq<String>) -> bool {
    forall|i: int, j: int| 0 <= i < j < labels.len() ==> labels[i]@ != labels[j]@
}

/// The reserved label of the primary window, which reconciliation never
/// closes.
pub open spec fn main_label() -> Seq<char> {
    "main"@
}

/// The primary window's label as an owned string.
pub fn main_label_string() -> (r: String)
    ensures
        r@ == main_label(),
{
    "main".to_owned()
}

/// Pushing a string onto `labels` adds exactly its characters to the
/// labels present: afterwards a label is present when it was present
/// before or reads as the new string.
pub proof fn lemma_has_label_push(s: Seq<String>, x: String, l: Seq<char>)
    ensures
        has_label(s.push(x), l) <==> (has_label(s, l) || x@ == l),
{
    if has_label(s.push(x), l) {
        let i = choose|i: int| 0 <= i < s.push(x).len() && s.push(x)[i]@ == l;
        if i < s.len() {
            assert(s[i]@ == l);
        } else {
            assert(x@ == l);
        }
    }
    if has_label(s, l) {
        let i = choose|i: int| 0 <= i < s.len() && s[i]@ == l;
        assert(s.push(x)[i]@ == l);
    }
    if x@ == l {
        assert(s.push(x)[s.len() as int]@ == l);
    }
}

/// A snapshot of the shell's window registry, holding the label of every
/// window that is open. The shell owns the real registry; this type models
/// what the shim's two operations read from it.
pub struct Registry {
    pub labels: Vec<String>,
}

impl Registry {
    /// The registry's invariant: labels are unique at any single instant.
    pub open spec fn wf(self) -> bool {
        distinct_views(self.labels@)
    }

    /// The set of labels of the windows that are open.
    pub open spec fn open_set(self) -> Set<Seq<char>> {
        Set::new(|l: Seq<char>| has_label(self.labels@, l))
    }

    /// A registry with no windows open.
    pub fn new() -> (r: Registry)
        ensures
            r.wf(),
            r.open_set() == Set::<Seq<char>>::empty(),
    {
        let r = Registry { labels: Vec::new() };
        proof {
            assert(r.open_set() =~= Set::<Seq<char>>::empty());
        }
        r
    }

    /// Whether a window with the given label is open.
    pub fn contains_label(&self, label: &String) -> (r: bool)
        ensures
            r == self.open_set().contains(label@),
    {
        let n: usize = self.labels.len();
        let mut i: usize = 0;
        while i < n
            invariant
                n == self.labels@.len(),
                i <= n,
                forall|j: int| 0 <= j < i ==> self.labels@[j]@ != label@,
            decreases n - i,
        {
            if self.labels[i] == *label {
                proof {
                    assert(has_label(self.labels@, label@)) by {
                        assert(self.labels@[i as int]@ == label@);
                    }
                }
                return true;
            }
            i = i + 1;
        }
        false
    }

    /// Record that the shell opened a window with the given label. A label
    /// that is already open is left alone, mirroring the shell's guarantee
    /// that labels are unique while their windows are open.
    pub fn open_window(&mut self, label: String) -> (added: bool)
        requires
            old(self).wf(),
        ensures
            final(self).wf(),
            added == !old(self).open_set().contains(label@),
            final(self).open_set() == old(self).open_set().insert(label@),
    {
        if self.contains_label(&label) {
            proof {
                assert(self.open_set().insert(label@) =~= self.open_set());
            }
            false
        } else {
            let ghost s0 = self.labels@;
            self.labels.push(label);
            proof {
                let s1 = self.labels@;
                assert(s1 == s0.push(label));
                assert(distinct_views(s1)) by {
                    assert forall|i: int, j: int|
                        0 <= i < j < s1.len() implies s1[i]@ != s1[j]@ by {
                        if j < s0.len() {
                            assert(s0[i]@ != s0[j]@);
                        } else {
                            assert(s1[j]@ == label@);
                            assert(!has_label(s0, label@));
                            assert(s0[i]@ != label@);
                        }
                    }
                }
                assert(self.open_set() =~= old(self).open_set().insert(label@)) by {
                    assert forall|l: Seq<char>|
                        self.open_set().contains(l)
                            == old(self).open_set().insert(label@).contains(l) by {
                        lemma_has_label_push(s0, label, l);
                    }
                }
            }
            true
        }
    }

    /// How many labels the snapshot holds; under the registry's invariant
    /// this is the number of open windows.
    pub fn window_count(&self) -> (n: usize)
        ensures
            n == self.labels@.len(),
    {
        self.labels.len()
    }
}

} // verus!
