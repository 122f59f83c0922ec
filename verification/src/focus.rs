//! The focus navigator: traversal over the element tree that finds the
//! next focusable node relative to a caller, honoring tree order and
//! wrapping around exactly once per request.
//!
//! Nodes are appended to the arena in depth-first order, so index order is
//! traversal order and navigation is a scan over indices.

use vstd::prelude::*;

use crate::element::Element;
use crate::element::ElementTree;

verus! {

/// The first focusable node at or after index `i`, in traversal order.
pub open spec fn first_focusable_from(s: Seq<Element>, i: int) -> Option<int>
    decreases s.len() - i,
        when i >= 0
{
    if i >= s.len() {
        Option::None
    } else if s[i].focusable {
        Option::Some(i)
    } else {
        first_focusable_from(s, i + 1)
    }
}

/// The node that receives focus after `caller`: the next focusable node in
/// traversal order, wrapping to the first focusable node when none
/// follows. Without a caller, the first focusable node. `None` exactly
/// when no focusable node exists at all.
pub open spec fn spec_focus_next(s: Seq<Element>, caller: Option<int>) -> Option<int> {
    match caller {
        Option::None => first_focusable_from(s, 0),
        Option::Some(c) => match first_focusable_from(s, c + 1) {
            Option::Some(j) => Option::Some(j),
            Option::None => first_focusable_from(s, 0),
        },
    }
}

/// The `k`-th focusable node at or after index `i` (counting from zero).
pub open spec fn nth_focusable(s: Seq<Element>, i: int, k: int) -> Option<int>
    decreases s.len() - i,
        when i >= 0
{
    if i >= s.len() {
        Option::None
    } else if s[i].focusable {
        if k <= 0 {
            Option::Some(i)
        } else {
            nth_focusable(s, i + 1, k - 1)
        }
    } else {
        nth_focusable(s, i + 1, k)
    }
}

/// The zeroth focusable node is the first one.
proof fn lemma_nth_zero(s: Seq<Element>, i: int)
    requires
        i >= 0,
    ensures
        nth_focusable(s, i, 0) == first_focusable_from(s, i),
    decreases s.len() - i,
{
    if i < s.len() && !s[i].focusable {
        lemma_nth_zero(s, i + 1);
    } else if i < s.len() {
    }
}

/// Stepping from the `k`-th focusable node: it is focusable, and the first
/// focusable node after it is the `(k+1)`-th.
proof fn lemma_nth_step(s: Seq<Element>, i: int, k: int, j: int)
    requires
        i >= 0,
        k >= 0,
        nth_focusable(s, i, k) == Option::Some(j),
    ensures
        i <= j < s.len(),
        s[j].focusable,
        first_focusable_from(s, j + 1) == nth_focusable(s, i, k + 1),
        first_focusable_from(s, i) == nth_focusable(s, i, 0),
    decreases s.len() - i,
{
    lemma_nth_zero(s, i);
    if i < s.len() {
        if s[i].focusable {
            if k == 0 {
                lemma_nth_zero(s, i + 1);
            } else {
                lemma_nth_step(s, i + 1, k - 1, j);
            }
        } else {
            lemma_nth_step(s, i + 1, k, j);
        }
    }
}

/// The focusable nodes come in strictly increasing index order: the
/// `(k+1)`-th lies strictly after the `k`-th.
proof fn lemma_nth_increasing(s: Seq<Element>, i: int, k: int, j: int)
    requires
        i >= 0,
        k >= 1,
        nth_focusable(s, i, k) == Option::Some(j),
    ensures
        nth_focusable(s, i, k - 1) is Some,
        nth_focusable(s, i, k - 1)->0 < j,
    decreases s.len() - i,
{
    if i < s.len() {
        if s[i].focusable {
            if k == 1 {
                lemma_nth_step(s, i + 1, 0, j);
            } else {
                lemma_nth_increasing(s, i + 1, k - 1, j);
            }
        } else {
            lemma_nth_increasing(s, i + 1, k, j);
        }
    }
}

/// Focus navigation visits the focusable nodes in traversal order, each
/// exactly once: starting with no caller yields the first focusable node,
/// and passing the `(k-1)`-th focusable node yields the `k`-th, which lies
/// strictly after it.
pub proof fn lemma_focus_visits_in_order(s: Seq<Element>, k: int)
    requires
        k >= 0,
        nth_focusable(s, 0, k) is Some,
    ensures
        k == 0 ==> spec_focus_next(s, Option::None) == nth_focusable(s, 0, 0),
        k > 0 ==> nth_focusable(s, 0, k - 1) is Some,
        k > 0 ==> spec_focus_next(s, Option::Some(nth_focusable(s, 0, k - 1)->0))
            == nth_focusable(s, 0, k),
        k > 0 ==> nth_focusable(s, 0, k - 1)->0 < nth_focusable(s, 0, k)->0,
{
    let j = nth_focusable(s, 0, k)->0;
    if k == 0 {
        lemma_nth_zero(s, 0);
    } else {
        lemma_nth_increasing(s, 0, k, j);
        let j0 = nth_focusable(s, 0, k - 1)->0;
        lemma_nth_step(s, 0, k - 1, j0);
    }
}

/// After the last focusable node, navigation wraps around to the first
/// one, exactly once per request.
pub proof fn lemma_focus_wraps_around(s: Seq<Element>, k: int)
    requires
        k >= 0,
        nth_focusable(s, 0, k) is Some,
        nth_focusable(s, 0, k + 1) is None,
    ensures
        spec_focus_next(s, Option::Some(nth_focusable(s, 0, k)->0)) == nth_focusable(s, 0, 0),
        nth_focusable(s, 0, 0) is Some,
{
    let j = nth_focusable(s, 0, k)->0;
    lemma_nth_step(s, 0, k, j);
    lemma_nth_zero(s, 0);
    if k > 0 {
        lemma_focus_visits_in_order(s, k);
        lemma_focus_nonempty_below(s, k);
    }
}

/// Below an occupied focus rank every rank is occupied.
proof fn lemma_focus_nonempty_below(s: Seq<Element>, k: int)
    requires
        k >= 0,
        nth_focusable(s, 0, k) is Some,
    ensures
        forall|k2: int| 0 <= k2 <= k ==> nth_focusable(s, 0, k2) is Some,
    decreases k,
{
    if k > 0 {
        lemma_nth_increasing(s, 0, k, nth_focusable(s, 0, k)->0);
        lemma_focus_nonempty_below(s, k - 1);
        assert forall|k2: int| 0 <= k2 <= k implies nth_focusable(s, 0, k2) is Some by {
            if k2 < k {
                assert(nth_focusable(s, 0, k2) is Some);
            }
        }
    }
}

impl ElementTree {
    /// Scans for the first focusable node at or after `start`.
    fn first_focusable_scan(&self, start: usize) -> (r: Option<usize>)
        ensures
            match r {
                Option::Some(j) => first_focusable_from(self.nodes@, start as int)
                    == Option::Some(j as int),
                Option::None => first_focusable_from(self.nodes@, start as int) is None,
            },
    {
        let mut i: usize = start;
        while i < self.nodes.len()
            invariant
                start <= i,
                first_focusable_from(self.nodes@, i as int)
                    == first_focusable_from(self.nodes@, start as int),
            decreases self.nodes@.len() - i,
        {
            if self.nodes[i].focusable {
                return Option::Some(i);
            }
            i += 1;
        }
        Option::None
    }

    /// Finds the node that receives focus after `caller`, in traversal
    /// order, wrapping around to the start of the tree exactly once.
    /// Returns `None` exactly when no focusable node exists anywhere.
    pub fn focus_next(&self, caller: Option<usize>) -> (r: Option<usize>)
        requires
            caller is Some ==> (caller->0 as int) < self.nodes@.len(),
        ensures
            match r {
                Option::Some(j) => spec_focus_next(
                    self.nodes@,
                    match caller {
                        Option::Some(c) => Option::Some(c as int),
                        Option::None => Option::None,
                    },
                ) == Option::Some(j as int),
                Option::None => spec_focus_next(
                    self.nodes@,
                    match caller {
                        Option::Some(c) => Option::Some(c as int),
                        Option::None => Option::None,
                    },
                ) is None,
            },
    {
        match caller {
            Option::None => self.first_focusable_scan(0),
            Option::Some(c) => {
                let count = self.nodes.len();
                proof {
                    assert((c as int) < count as int);
                }
                let onward = self.first_focusable_scan(c + 1);
                match onward {
                    Option::Some(j) => Option::Some(j),
                    Option::None => self.first_focusable_scan(0),
                }
            },
        }
    }

    /// The first focusable descendant, used when a window regains focus
    /// without a specific target.
    pub fn restore_focus(&self) -> (r: Option<usize>)
        ensures
            match r {
                Option::Some(j) => first_focusable_from(self.nodes@, 0)
                    == Option::Some(j as int),
                Option::None => first_focusable_from(self.nodes@, 0) is None,
            },
    {
        self.first_focusable_scan(0)
    }
}

} // verus!
