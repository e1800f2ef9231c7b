use vstd::prelude::*;

use crate::grid::{
    CELL_COUNT, GridPos, lemma_cell_at_bounds, lemma_cell_index_bounds,
    lemma_cell_index_injective, spec_cell_at, spec_cell_index, spec_in_bounds,
};

verus! {

/// A set of board cells, stored as one flag per cell. Only in-bounds cells can
/// be members.
pub struct CellSet {
    mask: Vec<bool>,
}

impl View for CellSet {
    type V = Set<GridPos>;

    closed spec fn view(&self) -> Set<GridPos> {
        Set::new(|p: GridPos| spec_in_bounds(p) && self.mask@[spec_cell_index(p)])
    }
}

impl CellSet {
    /// The flag vector covers exactly the board.
    pub closed spec fn wf(&self) -> bool {
        self.mask@.len() == CELL_COUNT
    }

    /// The empty set.
    pub fn new() -> (s: CellSet)
        ensures
            s.wf(),
            s@ == Set::<GridPos>::empty(),
    {
        let s = CellSet { mask: vec![false; CELL_COUNT] };
        assert(s@ =~= Set::<GridPos>::empty());
        s
    }

    /// Membership; an out-of-bounds cell is never a member.
    pub fn contains(&self, p: GridPos) -> (b: bool)
        requires
            self.wf(),
        ensures
            b == self@.contains(p),
    {
        if p.in_bounds() {
            self.mask[p.cell_index()]
        } else {
            false
        }
    }

    /// Adds an in-bounds cell.
    pub fn insert(&mut self, p: GridPos)
        requires
            old(self).wf(),
            spec_in_bounds(p),
        ensures
            final(self).wf(),
            final(self)@ == old(self)@.insert(p),
    {
        let i = p.cell_index();
        self.mask.set(i, true);
        proof {
            assert forall|q: GridPos| #[trigger] self@.contains(q) == old(self)@.insert(p).contains(q) by {
                if spec_in_bounds(q) && q != p {
                    lemma_cell_index_bounds(q);
                    if spec_cell_index(q) == spec_cell_index(p) {
                        lemma_cell_index_injective(p, q);
                    }
                }
            }
            assert(self@ =~= old(self)@.insert(p));
        }
    }

    /// Removes a cell (no effect when it is not a member).
    pub fn remove(&mut self, p: GridPos)
        requires
            old(self).wf(),
        ensures
            final(self).wf(),
            final(self)@ == old(self)@.remove(p),
    {
        if p.in_bounds() {
            let i = p.cell_index();
            self.mask.set(i, false);
            proof {
                assert forall|q: GridPos| #[trigger] self@.contains(q) == old(self)@.remove(p).contains(q) by {
                    if spec_in_bounds(q) && q != p {
                        lemma_cell_index_bounds(q);
                        if spec_cell_index(q) == spec_cell_index(p) {
                            lemma_cell_index_injective(p, q);
                        }
                    }
                }
                assert(self@ =~= old(self)@.remove(p));
            }
        } else {
            assert(self@ =~= old(self)@.remove(p));
        }
    }

    /// A copy with the same members.
    pub fn duplicate(&self) -> (s: CellSet)
        requires
            self.wf(),
        ensures
            s.wf(),
            s@ == self@,
    {
        let mut mask: Vec<bool> = Vec::new();
        let mut i: usize = 0;
        while i < CELL_COUNT
            invariant
                i <= CELL_COUNT,
                self.mask@.len() == CELL_COUNT,
                mask@ == self.mask@.subrange(0, i as int),
            decreases CELL_COUNT - i,
        {
            mask.push(self.mask[i]);
            i = i + 1;
        }
        assert(mask@ =~= self.mask@);
        let s = CellSet { mask };
        assert(s@ =~= self@);
        s
    }
}

} // verus!
