//! The ordering step of `list.sort`: a stable insertion sort of positions
//! `0..n` whose comparisons the interpreter answers. Each comparison calls
//! user code (`__lt__`, or the `key=` results compared with `<`), so the sort
//! is a state machine: it names the two positions whose keys are compared
//! next, and takes the answer. `reverse=True` asks the same questions with
//! the operands swapped, so equal keys keep their original order either
//! way. When it is done, the positions in their sorted order say where each
//! item goes.

use vstd::prelude::*;

verus! {

/// What a sort in progress holds.
pub struct SortState {
    order: Vec<usize>,
    inserting: usize,
    pos: usize,
    n: usize,
    reverse: bool,
}

/// A sort in progress: `order` arranges the positions `0..inserting`;
/// position `inserting` is being placed, and has already been found to go
/// before `order[pos..]`.
pub struct SortView {
    pub order: Seq<usize>,
    pub inserting: nat,
    pub pos: nat,
    pub n: nat,
    pub reverse: bool,
}

impl SortState {
    #[verifier::type_invariant]
    closed spec fn shape(self) -> bool {
        &&& self.order@.len() == self.inserting
        &&& self.pos <= self.order@.len()
        &&& self.inserting <= self.n
        &&& self.inserting < self.n ==> self.pos > 0
    }
}

impl View for SortState {
    type V = SortView;

    closed spec fn view(&self) -> SortView {
        SortView {
            order: self.order@,
            inserting: self.inserting as nat,
            pos: self.pos as nat,
            n: self.n as nat,
            reverse: self.reverse,
        }
    }
}

/// The position being placed goes at `p`; the next one starts from the end.
pub open spec fn place(s: SortView, p: int) -> SortView {
    SortView {
        order: s.order.insert(p, s.inserting as usize),
        inserting: s.inserting + 1,
        pos: s.order.len() + 1,
        n: s.n,
        reverse: s.reverse,
    }
}

/// A position that goes before everything placed so far needs no further
/// question: it goes first.
pub open spec fn settle(s: SortView) -> SortView {
    if s.inserting < s.n && s.pos == 0 { place(s, 0) } else { s }
}

/// The sort of `n` items before any question.
pub open spec fn sort_start_spec(n: nat, reverse: bool) -> SortView {
    settle(SortView { order: Seq::empty(), inserting: 0, pos: 0, n, reverse })
}

/// A question is pending.
pub open spec fn sort_pending(s: SortView) -> bool {
    s.inserting < s.n && s.pos > 0
}

/// The two positions whose keys the pending question compares: the answer
/// is whether the first key is less than the second. It decides whether
/// the position being placed goes before `order[pos - 1]`.
pub open spec fn sort_question_spec(s: SortView) -> (usize, usize) {
    let e = s.inserting as usize;
    let o = s.order[s.pos - 1];
    if s.reverse { (o, e) } else { (e, o) }
}

/// The sort after the answer `goes_before` to the pending question.
pub open spec fn sort_answer_spec(s: SortView, goes_before: bool) -> SortView {
    if goes_before {
        settle(SortView { pos: (s.pos - 1) as nat, ..s })
    } else {
        place(s, s.pos as int)
    }
}

impl SortState {
    /// A sort of `n` items, descending when `reverse`.
    pub fn start(n: usize, reverse: bool) -> (s: SortState)
        ensures
            s@ == sort_start_spec(n as nat, reverse),
    {
        let mut order: Vec<usize> = Vec::new();
        if n > 0 {
            order.insert(0, 0);
            SortState { order, inserting: 1, pos: 1, n, reverse }
        } else {
            proof {
                assert(order@ =~= Seq::<usize>::empty());
            }
            SortState { order, inserting: 0, pos: 0, n, reverse }
        }
    }

    /// The positions whose keys are compared next (`a < b`), or `None` once
    /// the sort is done.
    pub fn question(&self) -> (q: Option<(usize, usize)>)
        ensures
            sort_pending(self@) ==> q == Some(sort_question_spec(self@)),
            !sort_pending(self@) ==> q is None,
    {
        proof {
            use_type_invariant(self);
        }
        if self.inserting < self.n && self.pos > 0 {
            let o = self.order[self.pos - 1];
            if self.reverse { Some((o, self.inserting)) } else { Some((self.inserting, o)) }
        } else {
            None
        }
    }

    /// Takes the answer to the pending question: whether the first key was
    /// less than the second.
    pub fn answer(self, less: bool) -> (r: SortState)
        requires
            sort_pending(self@),
        ensures
            r@ == sort_answer_spec(self@, less),
    {
        proof {
            use_type_invariant(&self);
        }
        let SortState { mut order, inserting, pos, n, reverse } = self;
        let (p, place_now) = if less { (pos - 1, pos == 1) } else { (pos, true) };
        if place_now {
            order.insert(p, inserting);
            let len = order.len();
            SortState { order, inserting: inserting + 1, pos: len, n, reverse }
        } else {
            SortState { order, inserting, pos: p, n, reverse }
        }
    }

    /// The sorted arrangement of the positions, once the sort is done.
    pub fn result(&self) -> (r: Vec<usize>)
        ensures
            r@ == self@.order,
    {
        proof {
            use_type_invariant(self);
        }
        let mut out: Vec<usize> = Vec::new();
        let mut i: usize = 0;
        while i < self.order.len()
            invariant
                i <= self.order@.len(),
                out@ == self.order@.subrange(0, i as int),
            decreases self.order@.len() - i,
        {
            out.push(self.order[i]);
            i += 1;
            assert(out@ =~= self.order@.subrange(0, i as int));
        }
        assert(self.order@.subrange(0, i as int) =~= self.order@);
        out
    }
}

/// The items in the sorted arrangement `order`: item `order[k]` goes to
/// position `k`.
pub fn apply_order<T: Copy>(items: &Vec<T>, order: &Vec<usize>) -> (r: Vec<T>)
    requires
        forall|k: int| 0 <= k < order@.len() ==> order@[k] < items@.len(),
    ensures
        r@.len() == order@.len(),
        forall|k: int| 0 <= k < order@.len() ==> r@[k] == items@[order@[k] as int],
{
    let mut out: Vec<T> = Vec::new();
    let mut k: usize = 0;
    while k < order.len()
        invariant
            k <= order@.len(),
            forall|j: int| 0 <= j < order@.len() ==> order@[j] < items@.len(),
            out@.len() == k,
            forall|j: int| 0 <= j < k ==> out@[j] == items@[order@[j] as int],
        decreases order@.len() - k,
    {
        out.push(items[order[k]]);
        k += 1;
    }
    out
}

/// `before` is a strict weak order: irreflexive, transitive, and with
/// "neither before the other" transitive too.
pub open spec fn strict_weak(before: spec_fn(usize, usize) -> bool) -> bool {
    &&& forall|x: usize| !#[trigger] before(x, x)
    &&& forall|x: usize, y: usize, z: usize| #[trigger] before(x, y) && #[trigger] before(y, z) ==> before(x, z)
    &&& forall|x: usize, y: usize, z: usize|
        !#[trigger] before(x, y) && !before(y, x) && !#[trigger] before(y, z) && !before(z, y)
            ==> !before(x, z) && !before(z, x)
}

/// What the sort keeps true while every answer follows `before`: `order`
/// arranges exactly the positions `0..inserting`, no later one before an
/// earlier-placed one, positions that `before` does not tell apart in their
/// original order; and the position being placed goes before
/// `order[pos..]`.
pub open spec fn sorting(s: SortView, before: spec_fn(usize, usize) -> bool) -> bool {
    &&& s.inserting <= s.n
    &&& s.order.len() == s.inserting
    &&& s.pos <= s.order.len()
    &&& s.inserting < s.n ==> s.pos > 0
    &&& s.n <= usize::MAX
    &&& forall|i: int| 0 <= i < s.order.len() ==> s.order[i] < s.inserting
    &&& s.order.no_duplicates()
    &&& forall|i: int, j: int| 0 <= i < j < s.order.len() ==> !before(#[trigger] s.order[j], #[trigger] s.order[i])
    &&& forall|i: int, j: int| 0 <= i < j < s.order.len() && !before(s.order[i], s.order[j])
        ==> #[trigger] s.order[i] < #[trigger] s.order[j]
    &&& s.inserting < s.n ==> forall|k: int| s.pos <= k < s.order.len() ==> before(s.inserting as usize, #[trigger] s.order[k])
}

/// `order` arranges exactly the positions `0..inserting`, each once, and
/// the sort's bookkeeping is consistent.
pub open spec fn arranges(s: SortView) -> bool {
    &&& s.n <= usize::MAX
    &&& s.inserting <= s.n
    &&& s.order.len() == s.inserting
    &&& s.pos <= s.order.len()
    &&& s.inserting < s.n ==> s.pos > 0
    &&& forall|i: int| 0 <= i < s.order.len() ==> s.order[i] < s.inserting
    &&& s.order.no_duplicates()
}

} // verus!
