//! Constraint system builder: column and selector allocation, equality
//! enabling, and gate registration. All of it happens during a single
//! configuration pass per step-circuit type, before any row exists; the
//! resulting configuration is reused unchanged by every synthesis call.

use vstd::prelude::*;

use crate::field::Felt;
use crate::field::fadd;
use crate::field::fmul;
use crate::field::fsub;

verus! {

/// An advice column: a vertical address space of per-row witness values,
/// assigned by the circuit author at synthesis time.
#[derive(Clone, Copy, PartialEq, Eq, Structural, Debug)]
pub struct Column {
    pub idx: usize,
}

/// A boolean-per-row column; a gate is active at a row exactly when its
/// selector is enabled there.
#[derive(Clone, Copy, PartialEq, Eq, Structural, Debug)]
pub struct Selector {
    pub idx: usize,
}

/// A row offset relative to the row a selector fires on; negative offsets
/// reference rows above the anchor.
#[derive(Clone, Copy, PartialEq, Eq, Structural, Debug)]
pub struct Rotation {
    pub off: i32,
}

/// A polynomial over queried cells: each query names a column and a rotation
/// relative to a gate's anchor row.
#[derive(Debug)]
pub enum Expr {
    /// A constant field element.
    Lit(Felt),
    /// The advice value at (column, anchor row + rotation).
    Query(Column, Rotation),
    /// Field addition of two sub-polynomials.
    Add(Box<Expr>, Box<Expr>),
    /// Field subtraction of two sub-polynomials.
    Sub(Box<Expr>, Box<Expr>),
    /// Field multiplication of two sub-polynomials.
    Mul(Box<Expr>, Box<Expr>),
}

/// The value of a polynomial on a grid of advice columns, anchored at `row`;
/// `None` when some query falls outside the assigned grid.
pub open spec fn eval_spec(e: Expr, cols: Vec<Vec<Felt>>, row: int) -> Option<nat>
    decreases e,
{
    match e {
        Expr::Lit(f) => Some(f.val()),
        Expr::Query(c, rot) => {
            let idx = row + rot.off as int;
            if c.idx < cols@.len() && 0 <= idx < cols@[c.idx as int]@.len() {
                Some(cols@[c.idx as int]@[idx].val())
            } else {
                None
            }
        },
        Expr::Add(a, b) => match (eval_spec(*a, cols, row), eval_spec(*b, cols, row)) {
            (Some(x), Some(y)) => Some(fadd(x, y)),
            _ => None,
        },
        Expr::Sub(a, b) => match (eval_spec(*a, cols, row), eval_spec(*b, cols, row)) {
            (Some(x), Some(y)) => Some(fsub(x, y)),
            _ => None,
        },
        Expr::Mul(a, b) => match (eval_spec(*a, cols, row), eval_spec(*b, cols, row)) {
            (Some(x), Some(y)) => Some(fmul(x, y)),
            _ => None,
        },
    }
}

/// Whether every query in the polynomial names a column below `n`.
pub open spec fn expr_cols_ok(e: Expr, n: nat) -> bool
    decreases e,
{
    match e {
        Expr::Lit(_) => true,
        Expr::Query(c, _) => c.idx < n,
        Expr::Add(a, b) => expr_cols_ok(*a, n) && expr_cols_ok(*b, n),
        Expr::Sub(a, b) => expr_cols_ok(*a, n) && expr_cols_ok(*b, n),
        Expr::Mul(a, b) => expr_cols_ok(*a, n) && expr_cols_ok(*b, n),
    }
}

/// A polynomial that only queries columns below `n` also only queries
/// columns below any larger bound.
pub proof fn lemma_expr_cols_ok_mono(e: Expr, n: nat, m: nat)
    requires
        expr_cols_ok(e, n),
        n <= m,
    ensures
        expr_cols_ok(e, m),
    decreases e,
{
    match e {
        Expr::Lit(_) => {},
        Expr::Query(_, _) => {},
        Expr::Add(a, b) => {
            lemma_expr_cols_ok_mono(*a, n, m);
            lemma_expr_cols_ok_mono(*b, n, m);
        },
        Expr::Sub(a, b) => {
            lemma_expr_cols_ok_mono(*a, n, m);
            lemma_expr_cols_ok_mono(*b, n, m);
        },
        Expr::Mul(a, b) => {
            lemma_expr_cols_ok_mono(*a, n, m);
            lemma_expr_cols_ok_mono(*b, n, m);
        },
    }
}

/// Evaluate a polynomial on the advice grid, anchored at `row`.
pub fn eval(e: &Expr, cols: &Vec<Vec<Felt>>, row: usize) -> (r: Option<Felt>)
    requires
        row <= u32::MAX as usize,
        forall|c: int| 0 <= c < cols@.len() ==> #[trigger] cols@[c]@.len() <= u32::MAX as usize,
    ensures
        match r {
            Some(f) => eval_spec(*e, *cols, row as int) == Some(f.val()),
            None => eval_spec(*e, *cols, row as int) is None,
        },
    decreases *e,
{
    match e {
        Expr::Lit(f) => Some(*f),
        Expr::Query(c, rot) => {
            if c.idx >= cols.len() {
                None
            } else {
                let idx: i64 = row as i64 + rot.off as i64;
                let len: usize = cols[c.idx].len();
                if 0 <= idx && idx < len as i64 {
                    Some(cols[c.idx][idx as usize])
                } else {
                    None
                }
            }
        },
        Expr::Add(a, b) => {
            match (eval(a, cols, row), eval(b, cols, row)) {
                (Some(x), Some(y)) => Some(x.add(y)),
                _ => None,
            }
        },
        Expr::Sub(a, b) => {
            match (eval(a, cols, row), eval(b, cols, row)) {
                (Some(x), Some(y)) => Some(x.sub(y)),
                _ => None,
            }
        },
        Expr::Mul(a, b) => {
            match (eval(a, cols, row), eval(b, cols, row)) {
                (Some(x), Some(y)) => Some(x.mul(y)),
                _ => None,
            }
        },
    }
}

/// `a` is an initial segment of `b`.
pub open spec fn prefix_of<T>(a: Seq<T>, b: Seq<T>) -> bool {
    a.len() <= b.len() && forall|i: int| 0 <= i < a.len() ==> a[i] == b[i]
}

/// Appending rows to columns never changes the value of a polynomial that
/// already evaluated inside the assigned grid.
pub proof fn lemma_eval_prefix(e: Expr, a: Vec<Vec<Felt>>, b: Vec<Vec<Felt>>, row: int)
    requires
        a@.len() == b@.len(),
        forall|c: int| 0 <= c < a@.len() ==> prefix_of(#[trigger] a@[c]@, b@[c]@),
        eval_spec(e, a, row) is Some,
    ensures
        eval_spec(e, b, row) == eval_spec(e, a, row),
    decreases e,
{
    match e {
        Expr::Lit(_) => {},
        Expr::Query(_, _) => {},
        Expr::Add(x, y) => {
            lemma_eval_prefix(*x, a, b, row);
            lemma_eval_prefix(*y, a, b, row);
        },
        Expr::Sub(x, y) => {
            lemma_eval_prefix(*x, a, b, row);
            lemma_eval_prefix(*y, a, b, row);
        },
        Expr::Mul(x, y) => {
            lemma_eval_prefix(*x, a, b, row);
            lemma_eval_prefix(*y, a, b, row);
        },
    }
}

/// Whether evaluating the polynomial anchored at `anchor` reads the advice
/// cell at (`col`, `row`).
pub open spec fn query_touches(e: Expr, col: int, row: int, anchor: int) -> bool
    decreases e,
{
    match e {
        Expr::Lit(_) => false,
        Expr::Query(c, rot) => c.idx == col && anchor + rot.off == row,
        Expr::Add(a, b) => query_touches(*a, col, row, anchor) || query_touches(
            *b,
            col,
            row,
            anchor,
        ),
        Expr::Sub(a, b) => query_touches(*a, col, row, anchor) || query_touches(
            *b,
            col,
            row,
            anchor,
        ),
        Expr::Mul(a, b) => query_touches(*a, col, row, anchor) || query_touches(
            *b,
            col,
            row,
            anchor,
        ),
    }
}

/// Changing one advice cell that a polynomial never queries does not change
/// the polynomial's value at that anchor.
pub proof fn lemma_eval_untouched(
    e: Expr,
    a: Vec<Vec<Felt>>,
    b: Vec<Vec<Felt>>,
    col: int,
    row: int,
    anchor: int,
)
    requires
        a@.len() == b@.len(),
        forall|c: int| 0 <= c < a@.len() ==> #[trigger] a@[c]@.len() == b@[c]@.len(),
        forall|c: int, r: int|
            0 <= c < a@.len() && 0 <= r < a@[c]@.len() && !(c == col && r == row) ==> #[trigger] a@[c]@[r]
                == b@[c]@[r],
        !query_touches(e, col, row, anchor),
    ensures
        eval_spec(e, b, anchor) == eval_spec(e, a, anchor),
    decreases e,
{
    match e {
        Expr::Lit(_) => {},
        Expr::Query(_, _) => {},
        Expr::Add(x, y) => {
            lemma_eval_untouched(*x, a, b, col, row, anchor);
            lemma_eval_untouched(*y, a, b, col, row, anchor);
        },
        Expr::Sub(x, y) => {
            lemma_eval_untouched(*x, a, b, col, row, anchor);
            lemma_eval_untouched(*y, a, b, col, row, anchor);
        },
        Expr::Mul(x, y) => {
            lemma_eval_untouched(*x, a, b, col, row, anchor);
            lemma_eval_untouched(*y, a, b, col, row, anchor);
        },
    }
}

/// A named polynomial constraint. For every row where the selector is
/// enabled, the polynomial must evaluate to the field's zero element.
#[derive(Debug)]
pub struct Gate {
    pub name: &'static str,
    pub selector: Selector,
    pub poly: Expr,
}

/// Accumulates column declarations and gate definitions during the one-time
/// configuration pass of a step-circuit type.
#[derive(Debug)]
pub struct ConstraintSystem {
    /// How many selectors have been allocated.
    pub num_selectors: usize,
    /// Which advice columns are equality-enabled; its length is the number of
    /// advice columns allocated.
    pub eq_enabled: Vec<bool>,
    /// The registered gates.
    pub gates: Vec<Gate>,
}

impl ConstraintSystem {
    /// Number of advice columns allocated so far.
    pub open spec fn num_advice(self) -> nat {
        self.eq_enabled@.len()
    }

    /// Every gate references an allocated selector and only allocated
    /// columns.
    pub open spec fn wf(self) -> bool {
        forall|g: int|
            0 <= g < self.gates@.len() ==> (#[trigger] self.gates@[g]).selector.idx
                < self.num_selectors && expr_cols_ok(self.gates@[g].poly, self.num_advice())
    }

    /// A builder with nothing declared yet.
    pub open spec fn fresh(self) -> bool {
        self.num_selectors == 0 && self.eq_enabled@.len() == 0 && self.gates@.len() == 0
    }

    /// An empty builder, ready for one configuration pass.
    pub fn new() -> (r: ConstraintSystem)
        ensures
            r.fresh(),
            r.wf(),
    {
        ConstraintSystem { num_selectors: 0, eq_enabled: Vec::new(), gates: Vec::new() }
    }

    /// Allocate a fresh selector.
    pub fn selector(&mut self) -> (r: Selector)
        requires
            old(self).num_selectors < usize::MAX,
    ensures
            r.idx == old(self).num_selectors,
            final(self).num_selectors == old(self).num_selectors + 1,
            final(self).eq_enabled == old(self).eq_enabled,
            final(self).gates == old(self).gates,
            old(self).wf() ==> final(self).wf(),
    {
        let idx = self.num_selectors;
        self.num_selectors = self.num_selectors + 1;
        Selector { idx }
    }

    /// Allocate a fresh advice column, initially not equality-enabled.
    pub fn advice_column(&mut self) -> (r: Column)
        ensures
            r.idx == old(self).num_advice(),
            final(self).num_selectors == old(self).num_selectors,
            final(self).eq_enabled@ == old(self).eq_enabled@.push(false),
            final(self).gates == old(self).gates,
            old(self).wf() ==> final(self).wf(),
    {
        let idx = self.eq_enabled.len();
        self.eq_enabled.push(false);
        proof {
            if old(self).wf() {
                assert forall|g: int| 0 <= g < self.gates@.len() implies (
                    #[trigger] self.gates@[g]).selector.idx < self.num_selectors
                    && expr_cols_ok(self.gates@[g].poly, self.num_advice()) by {
                    lemma_expr_cols_ok_mono(
                        self.gates@[g].poly,
                        old(self).num_advice(),
                        self.num_advice(),
                    );
                }
            }
        }
        Column { idx }
    }

    /// Mark a column equality-enabled, permitting its cells to take part in
    /// copy constraints.
    pub fn enable_equality(&mut self, col: Column)
        requires
            col.idx < old(self).num_advice(),
        ensures
            final(self).num_selectors == old(self).num_selectors,
            final(self).eq_enabled@ == old(self).eq_enabled@.update(col.idx as int, true),
            final(self).gates == old(self).gates,
            old(self).wf() ==> final(self).wf(),
    {
        self.eq_enabled[col.idx] = true;
    }

    /// Register a gate: for every row where `sel` is enabled, `poly` must
    /// evaluate to zero.
    pub fn create_gate(&mut self, name: &'static str, sel: Selector, poly: Expr)
        requires
            sel.idx < old(self).num_selectors,
            expr_cols_ok(poly, old(self).num_advice()),
        ensures
            final(self).num_selectors == old(self).num_selectors,
            final(self).eq_enabled == old(self).eq_enabled,
            final(self).gates@ == old(self).gates@.push(
                Gate { name, selector: sel, poly },
            ),
            old(self).wf() ==> final(self).wf(),
    {
        self.gates.push(Gate { name, selector: sel, poly });
    }
}

/// The opaque configuration a step circuit returns from its configuration
/// pass: the selectors and advice columns it allocated, in allocation order.
#[derive(Debug)]
pub struct CircuitConfig {
    pub selectors: Vec<Selector>,
    pub advice: Vec<Column>,
}

} // verus!
