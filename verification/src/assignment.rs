//! Region and copy-constraint engine: a grid of advice columns filled by
//! scoped, append-only regions, selector activations, and equality
//! assertions between any two previously assigned cells.
//!
//! An [`Assignment`] plays both the layouter and the region role: a circuit
//! opens a region, assigns rows in increasing order starting at offset 0,
//! enables selectors, and constrains cells equal. [`Assignment::is_satisfied`]
//! then decides whether every gate holds at every row where its selector is
//! enabled and whether every copy constraint relates equal values.

use vstd::prelude::*;

use crate::cs::ConstraintSystem;
use crate::cs::Column;
use crate::cs::Selector;
use crate::cs::eval;
use crate::cs::eval_spec;
use crate::cs::prefix_of;
use crate::cs::query_touches;
use crate::cs::lemma_eval_untouched;
use crate::field::Felt;

verus! {

/// An error raised while assigning a region, enforcing an equality, or
/// enabling a selector; fatal to the fold being synthesized.
#[derive(Clone, Copy, PartialEq, Eq, Structural, Debug)]
pub enum SynthesisError {
    /// A region operation was attempted before any region was opened.
    RegionNotOpen,
    /// A column reference lies outside the allocated columns.
    ColumnOutOfRange,
    /// A row was assigned out of order, twice, or with a gap.
    RowOutOfOrder,
    /// The grid's row capacity is exhausted.
    TableFull,
    /// A selector reference lies outside the allocated selectors.
    SelectorOutOfRange,
    /// A copy constraint names a cell in a column that is not
    /// equality-enabled.
    EqualityNotEnabled,
    /// A cell handle does not belong to this assignment.
    InvalidCell,
}

/// Where an assigned cell's value lives: either outside the grid (an input
/// cell handed in by the driver) or at a (column, row) position.
#[derive(Clone, Copy, PartialEq, Eq, Structural, Debug)]
pub enum CellSlot {
    /// An input cell whose value is fixed outside this grid.
    Outside(Felt),
    /// A cell assigned at (column index, absolute row).
    InGrid(usize, usize),
}

/// An opaque handle to an assigned cell, distinct from its value; used only
/// for equality assertions.
#[derive(Clone, Copy, PartialEq, Eq, Structural, Debug)]
pub struct AssignedCell {
    pub id: usize,
}

/// The witness grid produced by one synthesis pass, together with the
/// selector activations and copy constraints accumulated along the way.
#[derive(Debug)]
pub struct Assignment {
    /// Row capacity of the grid.
    pub cap: usize,
    /// Advice values, per column.
    pub cols: Vec<Vec<Felt>>,
    /// Rows at which each selector is enabled.
    pub enabled: Vec<Vec<usize>>,
    /// Arena of assigned-cell identities.
    pub slots: Vec<CellSlot>,
    /// Pairs of cell identities asserted equal.
    pub copies: Vec<(usize, usize)>,
    /// First row of the currently open region.
    pub region_start: usize,
    /// Whether a region is open.
    pub region_open: bool,
    /// One past the last row used by any column so far.
    pub frontier: usize,
}

impl Assignment {
    /// Structural soundness of the grid itself: capacities respected, every
    /// positioned cell and every copy constraint in bounds.
    pub open spec fn base_wf(self) -> bool {
        &&& self.cap <= u32::MAX
        &&& self.frontier <= self.cap
        &&& self.region_start <= self.frontier
        &&& forall|c: int| 0 <= c < self.cols@.len() ==> #[trigger] self.cols@[c]@.len() <= self.frontier
        &&& forall|s: int, j: int|
            0 <= s < self.enabled@.len() && 0 <= j < self.enabled@[s]@.len()
                ==> #[trigger] self.enabled@[s]@[j] < self.cap
        &&& forall|i: int| 0 <= i < self.slots@.len() ==> self.slot_wf(#[trigger] self.slots@[i])
        &&& forall|k: int|
            0 <= k < self.copies@.len() ==> (#[trigger] self.copies@[k]).0 < self.slots@.len()
                && self.copies@[k].1 < self.slots@.len()
    }

    /// A positioned cell points inside the assigned grid.
    pub open spec fn slot_wf(self, s: CellSlot) -> bool {
        match s {
            CellSlot::Outside(_) => true,
            CellSlot::InGrid(c, r) => c < self.cols@.len() && r < self.cols@[c as int]@.len(),
        }
    }

    /// Well-formedness against the constraint system the grid was sized for.
    pub open spec fn wf(self, cs: ConstraintSystem) -> bool {
        &&& cs.wf()
        &&& self.cols@.len() == cs.num_advice()
        &&& self.enabled@.len() == cs.num_selectors
        &&& self.base_wf()
    }

    /// The value a cell handle currently stands for.
    pub open spec fn cell_val(self, id: int) -> nat {
        match self.slots@[id] {
            CellSlot::Outside(f) => f.val(),
            CellSlot::InGrid(c, r) => self.cols@[c as int]@[r as int].val(),
        }
    }

    /// Gate `g` holds at the `j`-th row its selector is enabled on.
    pub open spec fn gate_ok_at(self, cs: ConstraintSystem, g: int, j: int) -> bool {
        eval_spec(
            cs.gates@[g].poly,
            self.cols,
            self.enabled@[cs.gates@[g].selector.idx as int]@[j] as int,
        ) == Some(0nat)
    }

    /// Every gate's polynomial evaluates to zero at every row where its
    /// selector is enabled.
    pub open spec fn gates_ok(self, cs: ConstraintSystem) -> bool {
        forall|g: int, j: int|
            0 <= g < cs.gates@.len() && cs.gates@[g].selector.idx < self.enabled@.len() && 0 <= j
                < self.enabled@[cs.gates@[g].selector.idx as int]@.len() ==> #[trigger] self.gate_ok_at(
                cs,
                g,
                j,
            )
    }

    /// The `k`-th copy constraint relates two cells of equal value.
    pub open spec fn copy_ok(self, k: int) -> bool {
        self.cell_val(self.copies@[k].0 as int) == self.cell_val(self.copies@[k].1 as int)
    }

    /// Every copy constraint relates two cells of equal value.
    pub open spec fn copies_ok(self) -> bool {
        forall|k: int| 0 <= k < self.copies@.len() ==> #[trigger] self.copy_ok(k)
    }

    /// The circuit accepts this assignment: all gates hold where enabled, and
    /// all copy constraints hold.
    pub open spec fn satisfied(self, cs: ConstraintSystem) -> bool {
        self.gates_ok(cs) && self.copies_ok()
    }

    /// `self` extends `other`: rows, selector activations, cells and copy
    /// constraints have only been appended.
    pub open spec fn extends(self, other: Assignment) -> bool {
        &&& self.cap == other.cap
        &&& self.cols@.len() == other.cols@.len()
        &&& forall|c: int|
            0 <= c < other.cols@.len() ==> prefix_of(#[trigger] other.cols@[c]@, self.cols@[c]@)
        &&& self.enabled@.len() == other.enabled@.len()
        &&& forall|s: int|
            0 <= s < other.enabled@.len() ==> prefix_of(
                #[trigger] other.enabled@[s]@,
                self.enabled@[s]@,
            )
        &&& prefix_of(other.slots@, self.slots@)
        &&& prefix_of(other.copies@, self.copies@)
    }

    /// An untouched grid whose only cells are the input cells `z`, in order.
    pub open spec fn fresh_inputs(self, z: Seq<AssignedCell>) -> bool {
        &&& forall|c: int| 0 <= c < self.cols@.len() ==> (#[trigger] self.cols@[c]@).len() == 0
        &&& forall|s: int| 0 <= s < self.enabled@.len() ==> (#[trigger] self.enabled@[s]@).len() == 0
        &&& self.copies@.len() == 0
        &&& self.slots@.len() == z.len()
        &&& forall|i: int|
            0 <= i < z.len() ==> (#[trigger] z[i]).id == i && self.slots@[i] is Outside
        &&& self.frontier == 0
        &&& self.region_start == 0
        &&& !self.region_open
    }

    /// An empty grid for one synthesis pass, sized by the constraint system's
    /// column counts and by the row capacity `cap`.
    pub fn new(cs: &ConstraintSystem, cap: usize) -> (r: Assignment)
        requires
            cs.wf(),
            cap <= u32::MAX as usize,
        ensures
            r.wf(*cs),
            r.fresh_inputs(Seq::empty()),
            r.cap == cap,
            r.satisfied(*cs),
    {
        let mut cols: Vec<Vec<Felt>> = Vec::new();
        let mut c: usize = 0;
        let num_advice = cs.eq_enabled.len();
        while c < num_advice
            invariant
                cols@.len() == c,
                c <= num_advice,
                forall|i: int| 0 <= i < c ==> (#[trigger] cols@[i]@).len() == 0,
            decreases num_advice - c,
        {
            cols.push(Vec::new());
            c = c + 1;
        }
        let mut enabled: Vec<Vec<usize>> = Vec::new();
        let mut s: usize = 0;
        while s < cs.num_selectors
            invariant
                enabled@.len() == s,
                s <= cs.num_selectors,
                forall|i: int| 0 <= i < s ==> (#[trigger] enabled@[i]@).len() == 0,
            decreases cs.num_selectors - s,
        {
            enabled.push(Vec::new());
            s = s + 1;
        }
        Assignment {
            cap,
            cols,
            enabled,
            slots: Vec::new(),
            copies: Vec::new(),
            region_start: 0,
            region_open: false,
            frontier: 0,
        }
    }

    /// Create an input cell whose value lives outside the grid; it may be
    /// copy-constrained to cells assigned later.
    pub fn external_cell(&mut self, v: Felt) -> (r: AssignedCell)
        ensures
            r.id == old(self).slots@.len(),
            final(self).slots@ == old(self).slots@.push(CellSlot::Outside(v)),
            final(self).cols == old(self).cols,
            final(self).enabled == old(self).enabled,
            final(self).copies == old(self).copies,
            final(self).cap == old(self).cap,
            final(self).region_start == old(self).region_start,
            final(self).region_open == old(self).region_open,
            final(self).frontier == old(self).frontier,
            final(self).cell_val(r.id as int) == v.val(),
            old(self).base_wf() ==> final(self).base_wf(),
    {
        let id = self.slots.len();
        self.slots.push(CellSlot::Outside(v));
        AssignedCell { id }
    }

    /// Open a new region; its rows start after every row used so far, and
    /// offsets inside it count from 0. Returns the region's first absolute
    /// row.
    pub fn open_region(&mut self) -> (start: usize)
        ensures
            start == final(self).region_start,
            final(self).region_start == old(self).frontier,
            final(self).region_open,
            final(self).cols == old(self).cols,
            final(self).enabled == old(self).enabled,
            final(self).slots == old(self).slots,
            final(self).copies == old(self).copies,
            final(self).cap == old(self).cap,
            final(self).frontier == old(self).frontier,
            old(self).base_wf() ==> final(self).base_wf(),
    {
        self.region_start = self.frontier;
        self.region_open = true;
        self.frontier
    }

    /// Place `v` at offset `offset` of the open region in column `col` and
    /// return the cell's handle. Rows of a column must be assigned in
    /// increasing order starting at offset 0: out-of-order, duplicate or
    /// gapped assignment is an error, as is exceeding the row capacity.
    pub fn assign_advice(&mut self, cs: &ConstraintSystem, col: Column, offset: usize, v: Felt)
        -> (r: Result<AssignedCell, SynthesisError>)
        requires
            old(self).wf(*cs),
        ensures
            final(self).wf(*cs),
            final(self).extends(*old(self)),
            r is Ok <==> (old(self).region_open && col.idx < old(self).cols@.len()
                && old(self).cols@[col.idx as int]@.len() >= old(self).region_start
                && old(self).cols@[col.idx as int]@.len() - old(self).region_start == offset
                && old(self).cols@[col.idx as int]@.len() < old(self).cap),
            match r {
                Ok(cell) => {
                    &&& cell.id == old(self).slots@.len()
                    &&& final(self).slots@ == old(self).slots@.push(
                        CellSlot::InGrid(col.idx, (old(self).region_start + offset) as usize),
                    )
                    &&& final(self).cols@.len() == old(self).cols@.len()
                    &&& final(self).cols@[col.idx as int]@ == old(self).cols@[col.idx as int]@.push(
                        v,
                    )
                    &&& forall|c: int|
                        0 <= c < old(self).cols@.len() && c != col.idx
                            ==> final(self).cols@[c] == #[trigger] old(self).cols@[c]
                    &&& final(self).enabled == old(self).enabled
                    &&& final(self).copies == old(self).copies
                    &&& final(self).cap == old(self).cap
                    &&& final(self).region_start == old(self).region_start
                    &&& final(self).region_open == old(self).region_open
                    &&& final(self).cell_val(cell.id as int) == v.val()
                    &&& old(self).region_start + offset == old(self).cols@[col.idx as int]@.len()
                },
                Err(_) => *final(self) == *old(self),
            },
    {
        if !self.region_open {
            return Err(SynthesisError::RegionNotOpen);
        }
        if col.idx >= self.cols.len() {
            return Err(SynthesisError::ColumnOutOfRange);
        }
        let len = self.cols[col.idx].len();
        if len < self.region_start || len - self.region_start != offset {
            return Err(SynthesisError::RowOutOfOrder);
        }
        if len >= self.cap {
            return Err(SynthesisError::TableFull);
        }
        let id = self.slots.len();
        self.cols[col.idx].push(v);
        self.slots.push(CellSlot::InGrid(col.idx, len));
        if len + 1 > self.frontier {
            self.frontier = len + 1;
        }
        proof {
            assert(self.cols@[col.idx as int]@[len as int] == v);
            assert forall|i: int| 0 <= i < self.slots@.len() implies self.slot_wf(
                #[trigger] self.slots@[i],
            ) by {
                assert(old(self).slot_wf(old(self).slots@[i]) || i == old(self).slots@.len());
            }
        }
        Ok(AssignedCell { id })
    }

    /// Enable `sel` at offset `offset` of the open region, activating every
    /// gate on that selector at that anchor row.
    pub fn enable_selector(&mut self, cs: &ConstraintSystem, sel: Selector, offset: usize) -> (r:
        Result<(), SynthesisError>)
        requires
            old(self).wf(*cs),
        ensures
            final(self).wf(*cs),
            final(self).extends(*old(self)),
            r is Ok <==> (old(self).region_open && sel.idx < old(self).enabled@.len()
                && old(self).region_start + offset < old(self).cap),
            match r {
                Ok(_) => {
                    &&& final(self).enabled@.len() == old(self).enabled@.len()
                    &&& final(self).enabled@[sel.idx as int]@ == old(
                        self,
                    ).enabled@[sel.idx as int]@.push((old(self).region_start + offset) as usize)
                    &&& forall|s: int|
                        0 <= s < old(self).enabled@.len() && s != sel.idx
                            ==> final(self).enabled@[s] == #[trigger] old(self).enabled@[s]
                    &&& final(self).cols == old(self).cols
                    &&& final(self).slots == old(self).slots
                    &&& final(self).copies == old(self).copies
                    &&& final(self).cap == old(self).cap
                    &&& final(self).region_start == old(self).region_start
                    &&& final(self).region_open == old(self).region_open
                    &&& final(self).frontier == old(self).frontier
                },
                Err(_) => *final(self) == *old(self),
            },
    {
        if !self.region_open {
            return Err(SynthesisError::RegionNotOpen);
        }
        if sel.idx >= self.enabled.len() {
            return Err(SynthesisError::SelectorOutOfRange);
        }
        if offset >= self.cap || self.region_start >= self.cap - offset {
            return Err(SynthesisError::TableFull);
        }
        let row = self.region_start + offset;
        self.enabled[sel.idx].push(row);
        Ok(())
    }

    /// Assert that two previously assigned cells hold the same value,
    /// regardless of their column, row or region of origin. Fails if either
    /// cell lies in a column that is not equality-enabled.
    pub fn constrain_equal(&mut self, cs: &ConstraintSystem, a: AssignedCell, b: AssignedCell)
        -> (r: Result<(), SynthesisError>)
        requires
            old(self).wf(*cs),
        ensures
            final(self).wf(*cs),
            final(self).extends(*old(self)),
            r is Ok <==> (a.id < old(self).slots@.len() && b.id < old(self).slots@.len()
                && old(self).slot_eq_allowed(*cs, a.id as int)
                && old(self).slot_eq_allowed(*cs, b.id as int)),
            match r {
                Ok(_) => {
                    &&& final(self).copies@ == old(self).copies@.push((a.id, b.id))
                    &&& final(self).cols == old(self).cols
                    &&& final(self).enabled == old(self).enabled
                    &&& final(self).slots == old(self).slots
                    &&& final(self).cap == old(self).cap
                    &&& final(self).region_start == old(self).region_start
                    &&& final(self).region_open == old(self).region_open
                    &&& final(self).frontier == old(self).frontier
                },
                Err(_) => *final(self) == *old(self),
            },
    {
        if a.id >= self.slots.len() || b.id >= self.slots.len() {
            return Err(SynthesisError::InvalidCell);
        }
        match self.slots[a.id] {
            CellSlot::Outside(_) => {},
            CellSlot::InGrid(c, _) => {
                if !cs.eq_enabled[c] {
                    return Err(SynthesisError::EqualityNotEnabled);
                }
            },
        }
        match self.slots[b.id] {
            CellSlot::Outside(_) => {},
            CellSlot::InGrid(c, _) => {
                if !cs.eq_enabled[c] {
                    return Err(SynthesisError::EqualityNotEnabled);
                }
            },
        }
        self.copies.push((a.id, b.id));
        Ok(())
    }

    /// A cell may take part in a copy constraint: input cells always may;
    /// positioned cells only if their column is equality-enabled.
    pub open spec fn slot_eq_allowed(self, cs: ConstraintSystem, id: int) -> bool {
        match self.slots@[id] {
            CellSlot::Outside(_) => true,
            CellSlot::InGrid(c, _) => cs.eq_enabled@[c as int],
        }
    }

    /// Read the value a cell handle currently stands for.
    pub fn value_of(&self, c: AssignedCell) -> (r: Felt)
        requires
            self.base_wf(),
            c.id < self.slots@.len(),
        ensures
            r.val() == self.cell_val(c.id as int),
    {
        match self.slots[c.id] {
            CellSlot::Outside(f) => f,
            CellSlot::InGrid(col, row) => self.cols[col][row],
        }
    }

    /// Overwrite an already assigned advice cell, bypassing the append-only
    /// region discipline. This models a prover deviating from honest
    /// synthesis; the soundness statements say when such a change makes
    /// [`Assignment::is_satisfied`] reject.
    pub fn override_advice(&mut self, col: Column, row: usize, v: Felt) -> (r: Result<
        (),
        SynthesisError,
    >)
        ensures
            r is Ok <==> (col.idx < old(self).cols@.len() && row < old(self).cols@[col.idx as int]@.len()),
            match r {
                Ok(_) => {
                    &&& final(self).cols@.len() == old(self).cols@.len()
                    &&& final(self).cols@[col.idx as int]@ == old(
                        self,
                    ).cols@[col.idx as int]@.update(row as int, v)
                    &&& forall|c: int|
                        0 <= c < old(self).cols@.len() && c != col.idx
                            ==> final(self).cols@[c] == #[trigger] old(self).cols@[c]
                    &&& final(self).enabled == old(self).enabled
                    &&& final(self).slots == old(self).slots
                    &&& final(self).copies == old(self).copies
                    &&& final(self).cap == old(self).cap
                    &&& final(self).region_start == old(self).region_start
                    &&& final(self).region_open == old(self).region_open
                    &&& final(self).frontier == old(self).frontier
                    &&& old(self).base_wf() ==> final(self).base_wf()
                },
                Err(_) => *final(self) == *old(self),
            },
    {
        if col.idx >= self.cols.len() {
            return Err(SynthesisError::ColumnOutOfRange);
        }
        if row >= self.cols[col.idx].len() {
            return Err(SynthesisError::RowOutOfOrder);
        }
        self.cols[col.idx][row] = v;
        proof {
            if old(self).base_wf() {
                assert forall|i: int| 0 <= i < self.slots@.len() implies self.slot_wf(
                    #[trigger] self.slots@[i],
                ) by {
                    assert(old(self).slot_wf(old(self).slots@[i]));
                }
            }
        }
        Ok(())
    }

    /// Decide whether the circuit accepts this assignment: every gate's
    /// polynomial evaluates to zero at every row where its selector is
    /// enabled, and every copy constraint relates equal values.
    pub fn is_satisfied(&self, cs: &ConstraintSystem) -> (r: bool)
        requires
            self.wf(*cs),
        ensures
            r == self.satisfied(*cs),
    {
        let mut g: usize = 0;
        while g < cs.gates.len()
            invariant
                self.wf(*cs),
                g <= cs.gates@.len(),
                forall|g2: int, j2: int|
                    0 <= g2 < g && 0 <= j2
                        < self.enabled@[cs.gates@[g2].selector.idx as int]@.len()
                        ==> #[trigger] self.gate_ok_at(*cs, g2, j2),
            decreases cs.gates@.len() - g,
        {
            let gate = &cs.gates[g];
            let rows: &Vec<usize> = &self.enabled[gate.selector.idx];
            let mut j: usize = 0;
            while j < rows.len()
                invariant
                    self.wf(*cs),
                    g < cs.gates@.len(),
                    *gate == cs.gates@[g as int],
                    rows@ == self.enabled@[cs.gates@[g as int].selector.idx as int]@,
                    j <= rows@.len(),
                    forall|j2: int| 0 <= j2 < j ==> #[trigger] self.gate_ok_at(*cs, g as int, j2),
                decreases rows@.len() - j,
            {
                let row = rows[j];
                let bad: bool = match eval(&gate.poly, &self.cols, row) {
                    Some(f) => f.as_u64() != 0,
                    None => true,
                };
                if bad {
                    proof {
                        assert(!self.gate_ok_at(*cs, g as int, j as int));
                    }
                    return false;
                }
                j = j + 1;
            }
            g = g + 1;
        }
        let mut k: usize = 0;
        while k < self.copies.len()
            invariant
                self.wf(*cs),
                self.gates_ok(*cs),
                k <= self.copies@.len(),
                forall|k2: int| 0 <= k2 < k ==> #[trigger] self.copy_ok(k2),
            decreases self.copies@.len() - k,
        {
            let (x, y) = self.copies[k];
            let vx = self.value_of(AssignedCell { id: x });
            let vy = self.value_of(AssignedCell { id: y });
            if vx.as_u64() != vy.as_u64() {
                proof {
                    assert(!self.copy_ok(k as int));
                }
                return false;
            }
            k = k + 1;
        }
        true
    }
    /// Whether the advice cell at (`col`, `row`) is read by any enforced gate
    /// anchor or named by any copy constraint.
    pub open spec fn advice_constrained(self, cs: ConstraintSystem, col: int, row: int) -> bool {
        (exists|g: int, j: int|
            0 <= g < cs.gates@.len() && cs.gates@[g].selector.idx < self.enabled@.len() && 0 <= j
                < self.enabled@[cs.gates@[g].selector.idx as int]@.len() && query_touches(
                cs.gates@[g].poly,
                col,
                row,
                self.enabled@[cs.gates@[g].selector.idx as int]@[j] as int,
            )) || (exists|k: int|
            0 <= k < self.copies@.len() && (self.copy_names_cell(k, col, row)))
    }

    /// The `k`-th copy constraint names the cell at (`col`, `row`).
    pub open spec fn copy_names_cell(self, k: int, col: int, row: int) -> bool {
        ||| (self.slots@[self.copies@[k].0 as int] matches CellSlot::InGrid(c, r) && c == col && r
            == row)
        ||| (self.slots@[self.copies@[k].1 as int] matches CellSlot::InGrid(c, r) && c == col && r
            == row)
    }
}

/// Extension is transitive.
pub proof fn lemma_extends_trans(a: Assignment, b: Assignment, c: Assignment)
    requires
        b.extends(a),
        c.extends(b),
    ensures
        c.extends(a),
{
}

/// An extension never changes the value an existing cell handle stands for.
pub proof fn lemma_extends_cell_val(a: Assignment, b: Assignment, id: int)
    requires
        b.extends(a),
        a.base_wf(),
        0 <= id < a.slots@.len(),
    ensures
        b.cell_val(id) == a.cell_val(id),
        b.slots@[id] == a.slots@[id],
{
    assert(a.slot_wf(a.slots@[id]));
    match a.slots@[id] {
        CellSlot::Outside(_) => {},
        CellSlot::InGrid(c, r) => {
            assert(prefix_of(a.cols@[c as int]@, b.cols@[c as int]@));
        },
    }
}

/// Appending cell identities without touching the grid, the selector
/// activations or the copy constraints leaves acceptance unchanged.
pub proof fn lemma_satisfied_same_grid(a: Assignment, b: Assignment, cs: ConstraintSystem)
    requires
        a.base_wf(),
        b.cols == a.cols,
        b.enabled == a.enabled,
        b.copies == a.copies,
        prefix_of(a.slots@, b.slots@),
    ensures
        b.satisfied(cs) == a.satisfied(cs),
{
    if a.gates_ok(cs) {
        assert forall|g: int, j: int|
            0 <= g < cs.gates@.len() && cs.gates@[g].selector.idx < b.enabled@.len() && 0 <= j
                < b.enabled@[cs.gates@[g].selector.idx as int]@.len() implies #[trigger] b.gate_ok_at(
            cs,
            g,
            j,
        ) by {
            assert(a.gate_ok_at(cs, g, j));
        }
    }
    if b.gates_ok(cs) {
        assert forall|g: int, j: int|
            0 <= g < cs.gates@.len() && cs.gates@[g].selector.idx < a.enabled@.len() && 0 <= j
                < a.enabled@[cs.gates@[g].selector.idx as int]@.len() implies #[trigger] a.gate_ok_at(
            cs,
            g,
            j,
        ) by {
            assert(b.gate_ok_at(cs, g, j));
        }
    }
    assert forall|k: int| 0 <= k < a.copies@.len() implies #[trigger] a.copy_ok(k) == b.copy_ok(
        k,
    ) by {
        assert(a.copies@[k].0 < a.slots@.len() && a.copies@[k].1 < a.slots@.len());
        assert(b.slots@[a.copies@[k].0 as int] == a.slots@[a.copies@[k].0 as int]);
        assert(b.slots@[a.copies@[k].1 as int] == a.slots@[a.copies@[k].1 as int]);
    }
    if a.copies_ok() {
        assert forall|k: int| 0 <= k < b.copies@.len() implies #[trigger] b.copy_ok(k) by {
            assert(a.copy_ok(k));
        }
    }
    if b.copies_ok() {
        assert forall|k: int| 0 <= k < a.copies@.len() implies #[trigger] a.copy_ok(k) by {
            assert(b.copy_ok(k));
        }
    }
}

/// Gate soundness, enforced side: where a gate's selector is enabled at a
/// row and its polynomial does not evaluate to the field's zero there, the
/// circuit rejects the assignment.
pub proof fn lemma_active_gate_rejects(a: Assignment, cs: ConstraintSystem, g: int, j: int)
    requires
        a.wf(cs),
        0 <= g < cs.gates@.len(),
        0 <= j < a.enabled@[cs.gates@[g].selector.idx as int]@.len(),
        !a.gate_ok_at(cs, g, j),
    ensures
        !a.satisfied(cs),
{
}

/// Gate soundness, inactive side: changing an advice cell that no enforced
/// gate anchor reads and no copy constraint names leaves acceptance
/// unchanged, so the circuit accepts arbitrary values there.
pub proof fn lemma_unconstrained_cell_neutral(
    a: Assignment,
    b: Assignment,
    cs: ConstraintSystem,
    col: int,
    row: int,
)
    requires
        a.wf(cs),
        !a.advice_constrained(cs, col, row),
        b.cols@.len() == a.cols@.len(),
        forall|c: int| 0 <= c < a.cols@.len() ==> #[trigger] a.cols@[c]@.len() == b.cols@[c]@.len(),
        forall|c: int, r: int|
            0 <= c < a.cols@.len() && 0 <= r < a.cols@[c]@.len() && !(c == col && r == row)
                ==> #[trigger] a.cols@[c]@[r] == b.cols@[c]@[r],
        b.enabled == a.enabled,
        b.slots == a.slots,
        b.copies == a.copies,
    ensures
        b.satisfied(cs) == a.satisfied(cs),
{
    if a.gates_ok(cs) {
        assert forall|g: int, j: int|
            0 <= g < cs.gates@.len() && cs.gates@[g].selector.idx < b.enabled@.len() && 0 <= j
                < b.enabled@[cs.gates@[g].selector.idx as int]@.len() implies #[trigger] b.gate_ok_at(
            cs,
            g,
            j,
        ) by {
            let anchor = a.enabled@[cs.gates@[g].selector.idx as int]@[j] as int;
            assert(a.gate_ok_at(cs, g, j));
            assert(!query_touches(cs.gates@[g].poly, col, row, anchor));
            lemma_eval_untouched(cs.gates@[g].poly, a.cols, b.cols, col, row, anchor);
        }
        assert(b.gates_ok(cs));
    }
    if b.gates_ok(cs) {
        assert forall|g: int, j: int|
            0 <= g < cs.gates@.len() && cs.gates@[g].selector.idx < a.enabled@.len() && 0 <= j
                < a.enabled@[cs.gates@[g].selector.idx as int]@.len() implies #[trigger] a.gate_ok_at(
            cs,
            g,
            j,
        ) by {
            let anchor = a.enabled@[cs.gates@[g].selector.idx as int]@[j] as int;
            assert(b.gate_ok_at(cs, g, j));
            assert(!query_touches(cs.gates@[g].poly, col, row, anchor));
            lemma_eval_untouched(cs.gates@[g].poly, a.cols, b.cols, col, row, anchor);
        }
        assert(a.gates_ok(cs));
    }
    if a.copies_ok() {
        assert forall|k: int| 0 <= k < b.copies@.len() implies #[trigger] b.copy_ok(k) by {
            assert(a.copy_ok(k));
            assert(!a.copy_names_cell(k, col, row));
            lemma_cell_val_unnamed(a, b, cs, col, row, a.copies@[k].0 as int);
            lemma_cell_val_unnamed(a, b, cs, col, row, a.copies@[k].1 as int);
        }
        assert(b.copies_ok());
    }
    if b.copies_ok() {
        assert forall|k: int| 0 <= k < a.copies@.len() implies #[trigger] a.copy_ok(k) by {
            assert(b.copy_ok(k));
            assert(!a.copy_names_cell(k, col, row));
            lemma_cell_val_unnamed(a, b, cs, col, row, a.copies@[k].0 as int);
            lemma_cell_val_unnamed(a, b, cs, col, row, a.copies@[k].1 as int);
        }
        assert(a.copies_ok());
    }
}

/// A cell whose slot does not sit at (`col`, `row`) keeps its value when that
/// one advice cell changes.
proof fn lemma_cell_val_unnamed(
    a: Assignment,
    b: Assignment,
    cs: ConstraintSystem,
    col: int,
    row: int,
    id: int,
)
    requires
        a.wf(cs),
        0 <= id < a.slots@.len(),
        b.cols@.len() == a.cols@.len(),
        forall|c: int| 0 <= c < a.cols@.len() ==> #[trigger] a.cols@[c]@.len() == b.cols@[c]@.len(),
        forall|c: int, r: int|
            0 <= c < a.cols@.len() && 0 <= r < a.cols@[c]@.len() && !(c == col && r == row)
                ==> #[trigger] a.cols@[c]@[r] == b.cols@[c]@[r],
        b.slots == a.slots,
        !(a.slots@[id] matches CellSlot::InGrid(c, r) && c == col && r == row),
    ensures
        b.cell_val(id) == a.cell_val(id),
{
    assert(a.slot_wf(a.slots@[id]));
    match a.slots@[id] {
        CellSlot::Outside(_) => {},
        CellSlot::InGrid(c, r) => {
            assert(a.cols@[c as int]@[r as int] == b.cols@[c as int]@[r as int]);
        },
    }
}

/// Equality enforcement, rejecting side: a copy constraint between two cells
/// holding different values makes the circuit reject the assignment,
/// independent of which columns or rows the cells occupy.
pub proof fn lemma_copy_violation_rejects(a: Assignment, cs: ConstraintSystem, k: int)
    requires
        a.wf(cs),
        0 <= k < a.copies@.len(),
        a.cell_val(a.copies@[k].0 as int) != a.cell_val(a.copies@[k].1 as int),
    ensures
        !a.satisfied(cs),
{
    assert(!a.copy_ok(k));
}

/// Equality enforcement, neutral side: adding a copy constraint between two
/// cells that already hold equal values has no effect on acceptance.
pub proof fn lemma_copy_push_neutral(
    a: Assignment,
    b: Assignment,
    cs: ConstraintSystem,
    x: usize,
    y: usize,
)
    requires
        a.wf(cs),
        x < a.slots@.len(),
        y < a.slots@.len(),
        a.cell_val(x as int) == a.cell_val(y as int),
        b.cols == a.cols,
        b.enabled == a.enabled,
        b.slots == a.slots,
        b.copies@ == a.copies@.push((x, y)),
    ensures
        b.satisfied(cs) == a.satisfied(cs),
{
    if a.gates_ok(cs) {
        assert forall|g: int, j: int|
            0 <= g < cs.gates@.len() && cs.gates@[g].selector.idx < b.enabled@.len() && 0 <= j
                < b.enabled@[cs.gates@[g].selector.idx as int]@.len() implies #[trigger] b.gate_ok_at(
            cs,
            g,
            j,
        ) by {
            assert(a.gate_ok_at(cs, g, j));
        }
        assert(b.gates_ok(cs));
    }
    if b.gates_ok(cs) {
        assert forall|g: int, j: int|
            0 <= g < cs.gates@.len() && cs.gates@[g].selector.idx < a.enabled@.len() && 0 <= j
                < a.enabled@[cs.gates@[g].selector.idx as int]@.len() implies #[trigger] a.gate_ok_at(
            cs,
            g,
            j,
        ) by {
            assert(b.gate_ok_at(cs, g, j));
        }
        assert(a.gates_ok(cs));
    }
    if a.copies_ok() {
        assert forall|k: int| 0 <= k < b.copies@.len() implies #[trigger] b.copy_ok(k) by {
            if k < a.copies@.len() {
                assert(b.copies@[k] == a.copies@[k]);
                assert(a.copy_ok(k));
            } else {
                assert(b.copies@[k] == (x, y));
            }
        }
        assert(b.copies_ok());
    }
    if b.copies_ok() {
        assert forall|k: int| 0 <= k < a.copies@.len() implies #[trigger] a.copy_ok(k) by {
            assert(b.copies@[k] == a.copies@[k]);
            assert(b.copy_ok(k));
        }
        assert(a.copies_ok());
    }
}

} // verus!
