//! Window reconciliation: close every open window whose label is absent
//! from a caller-supplied keep-list, never touching the primary window.

use vstd::prelude::*;
use crate::registry::Registry;
use crate::registry::distinct_views;
use crate::registry::has_label;
use crate::registry::main_label;
use crate::registry::main_label_string;

verus! {

/// True when reconciliation leaves the window labelled `l` open: either it
/// is the primary window, or its label appears in the keep-list.
pub open spec fn kept(l: Seq<char>, keep: Seq<String>) -> bool {
    l == main_label() || has_label(keep, l)
}

/// The set of labels left open after reconciling `open` against `keep`:
/// the primary window and the kept windows survive, every other window is
/// closed.
pub open spec fn reconcile_spec(open: Set<Seq<char>>, keep: Seq<String>) -> Set<Seq<char>> {
    open.filter(|l: Seq<char>| kept(l, keep))
}

/// Whether `keep` lists a string reading as `label`.
pub fn keep_contains(keep: &Vec<String>, label: &String) -> (r: bool)
    ensures
        r == has_label(keep@, label@),
{
    let n: usize = keep.len();
    let mut i: usize = 0;
    while i < n
        invariant
            n == keep@.len(),
            i <= n,
            forall|j: int| 0 <= j < i ==> keep@[j]@ != label@,
        decreases n - i,
    {
        if keep[i] == *label {
            proof {
                assert(has_label(keep@, label@)) by {
                    assert(keep@[i as int]@ == label@);
                }
            }
            return true;
        }
        i = i + 1;
    }
    false
}

/// The labels in `labels` whose keep/close decision equals `want_kept`, in
/// registry order and without duplicates.
fn filter_by_kept(labels: &Vec<String>, keep: &Vec<String>, want_kept: bool) -> (r: Vec<String>)
    requires
        distinct_views(labels@),
    ensures
        distinct_views(r@),
        forall|k: int| 0 <= k < r@.len() ==> kept(#[trigger] r@[k]@, keep@) == want_kept,
        forall|l: Seq<char>|
            #[trigger] has_label(r@, l) <==> (has_label(labels@, l) && kept(l, keep@)
                == want_kept),
{
    let main = main_label_string();
    let n: usize = labels.len();
    let mut out: Vec<String> = Vec::new();
    let mut i: usize = 0;
    while i < n
        invariant
            n == labels@.len(),
            i <= n,
            distinct_views(labels@),
            main@ == main_label(),
            distinct_views(out@),
            forall|k: int|
                0 <= k < out@.len() ==> exists|j: int|
                    0 <= j < i && #[trigger] out@[k]@ == labels@[j]@,
            forall|k: int| 0 <= k < out@.len() ==> kept(#[trigger] out@[k]@, keep@) == want_kept,
            forall|j: int|
                0 <= j < i && kept(#[trigger] labels@[j]@, keep@) == want_kept ==> has_label(
                    out@,
                    labels@[j]@,
                ),
        decreases n - i,
    {
        let label = &labels[i];
        let is_kept = *label == main || keep_contains(keep, label);
        if is_kept == want_kept {
            let ghost out0 = out@;
            out.push(label.clone());
            proof {
                let s1 = out@;
                assert(s1[out0.len() as int]@ == labels@[i as int]@);
                assert(distinct_views(s1)) by {
                    assert forall|p: int, q: int|
                        0 <= p < q < s1.len() implies s1[p]@ != s1[q]@ by {
                        if q < out0.len() {
                            assert(out0[p]@ != out0[q]@);
                        } else {
                            let j = choose|j: int| 0 <= j < i && out0[p]@ == labels@[j]@;
                            assert(labels@[j]@ != labels@[i as int]@);
                        }
                    }
                }
                assert forall|j: int|
                    0 <= j < i + 1 && kept(#[trigger] labels@[j]@, keep@)
                        == want_kept implies has_label(s1, labels@[j]@) by {
                    if j < i {
                        let k = choose|k: int| 0 <= k < out0.len() && out0[k]@ == labels@[j]@;
                        assert(s1[k]@ == labels@[j]@);
                    } else {
                        assert(s1[out0.len() as int]@ == labels@[j]@);
                    }
                }
            }
        }
        i = i + 1;
    }
    proof {
        assert forall|l: Seq<char>|
            #[trigger] has_label(out@, l) implies (has_label(labels@, l) && kept(l, keep@)
                == want_kept) by {
            let k = choose|k: int| 0 <= k < out@.len() && out@[k]@ == l;
            let j = choose|j: int| 0 <= j < n && out@[k]@ == labels@[j]@;
            assert(labels@[j]@ == l);
        }
        assert forall|l: Seq<char>|
            has_label(labels@, l) && kept(l, keep@) == want_kept implies #[trigger] has_label(
            out@,
            l,
        ) by {
            let j = choose|j: int| 0 <= j < labels@.len() && labels@[j]@ == l;
            assert(kept(labels@[j]@, keep@) == want_kept);
        }
    }
    out
}

/// The labels of the windows that reconciliation against `keep` will ask
/// the shell to close: every open window that is neither the primary
/// window nor listed in `keep`. The primary window's label never appears
/// in the result.
pub fn labels_to_close(registry: &Registry, keep: &Vec<String>) -> (r: Vec<String>)
    requires
        registry.wf(),
    ensures
        distinct_views(r@),
        forall|l: Seq<char>|
            #[trigger] has_label(r@, l) <==> (registry.open_set().contains(l) && !kept(
                l,
                keep@,
            )),
        forall|k: int| 0 <= k < r@.len() ==> #[trigger] r@[k]@ != main_label(),
{
    filter_by_kept(&registry.labels, keep, false)
}

/// The registry that reconciliation against `keep` leaves behind when
/// every requested closure succeeds: the primary window and the kept
/// windows stay open, every other window is closed.
pub fn reconcile(registry: &Registry, keep: &Vec<String>) -> (r: Registry)
    requires
        registry.wf(),
    ensures
        r.wf(),
        r.open_set() == reconcile_spec(registry.open_set(), keep@),
{
    let labels = filter_by_kept(&registry.labels, keep, true);
    let r = Registry { labels };
    proof {
        assert(r.open_set() =~= reconcile_spec(registry.open_set(), keep@));
    }
    r
}

/// Reconciling against an empty keep-list closes every open window except
/// the primary one: a label stays open exactly when it was open and is the
/// primary window's.
pub proof fn lemma_reconcile_empty(open: Set<Seq<char>>)
    ensures
        forall|l: Seq<char>|
            reconcile_spec(open, Seq::<String>::empty()).contains(l) <==> (open.contains(l)
                && l == main_label()),
{
}

/// When every open window is the primary one or has its label in `keep`,
/// reconciliation leaves the open set unchanged.
pub proof fn lemma_reconcile_keeps_all(open: Set<Seq<char>>, keep: Seq<String>)
    requires
        forall|l: Seq<char>| open.contains(l) ==> kept(l, keep),
    ensures
        reconcile_spec(open, keep) == open,
{
    assert(reconcile_spec(open, keep) =~= open);
}

/// Reconciliation never closes the primary window: whatever `keep` holds,
/// a primary window that was open stays open.
pub proof fn lemma_main_never_closed(open: Set<Seq<char>>, keep: Seq<String>)
    requires
        open.contains(main_label()),
    ensures
        reconcile_spec(open, keep).contains(main_label()),
{
}

/// Reconciliation is idempotent: with no window opened in between,
/// reconciling twice against the same keep-list leaves the same open set
/// as reconciling once.
pub proof fn lemma_reconcile_idempotent(open: Set<Seq<char>>, keep: Seq<String>)
    ensures
        reconcile_spec(reconcile_spec(open, keep), keep) == reconcile_spec(open, keep),
{
    assert(reconcile_spec(reconcile_spec(open, keep), keep) =~= reconcile_spec(open, keep));
}

} // verus!
