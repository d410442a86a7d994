//! The step-circuit authoring contract: one reusable unit of computation,
//! expressed as a one-time configuration pass plus a per-fold synthesis pass
//! over a scoped region of the grid.

use vstd::prelude::*;

use crate::assignment::Assignment;
use crate::assignment::AssignedCell;
use crate::assignment::SynthesisError;
use crate::cs::CircuitConfig;
use crate::cs::ConstraintSystem;
use crate::field::Felt;

verus! {

/// The residues a sequence of field elements stands for.
pub open spec fn felt_vals(s: Seq<Felt>) -> Seq<nat> {
    s.map_values(|f: Felt| f.val())
}

/// The values currently held by a sequence of cell handles in `asg`.
pub open spec fn cell_vals(asg: Assignment, z: Seq<AssignedCell>) -> Seq<nat> {
    z.map_values(|c: AssignedCell| asg.cell_val(c.id as int))
}

/// A step circuit of arity `A`: configuration declares its columns and gates
/// exactly once per circuit type; synthesis is called once per fold and maps
/// an input vector of `A` assigned cells to an output vector of `A` assigned
/// cells inside one freshly opened region.
pub trait StepCircuit: Sized {
    /// Number of field elements the circuit consumes and produces per fold.
    spec fn arity_spec(&self) -> nat;

    /// The step relation: the values of `z_out` as a function of the values
    /// of `z_in`.
    spec fn step_spec(&self, z: Seq<nat>) -> Seq<nat>;

    /// The configuration `cfg` names exactly the allocations this circuit
    /// made in `cs` during its configuration pass.
    spec fn cfg_ok(&self, cfg: CircuitConfig, cs: ConstraintSystem) -> bool;

    /// Whether synthesis succeeds when run against a fresh grid of row
    /// capacity `cap` whose only cells are the input cells.
    spec fn fits_fresh(&self, cfg: CircuitConfig, cap: nat) -> bool;

    /// The step relation preserves the arity.
    proof fn step_spec_len(&self, z: Seq<nat>)
        requires
            z.len() == self.arity_spec(),
        ensures
            self.step_spec(z).len() == self.arity_spec(),
    ;

    /// The arity, as a machine integer.
    fn arity(&self) -> (r: usize)
        ensures
            r as nat == self.arity_spec(),
    ;

    /// Declare the circuit's columns, selectors and gates once, on a fresh
    /// builder; pure with respect to witness data.
    fn configure(&self, cs: &mut ConstraintSystem) -> (cfg: CircuitConfig)
        requires
            old(cs).fresh(),
        ensures
            final(cs).wf(),
            self.cfg_ok(cfg, *final(cs)),
    ;

    /// Apply the step once: open one region, derive the step's values from
    /// `z_in`, bind the seed cells to `z_in` by copy constraints, enable the
    /// gate wherever its rotations are valid, and return the output cells.
    ///
    /// On success the output cells hold exactly `step_spec` of the input
    /// cells' values, only appends were made to the grid, and an assignment
    /// the circuit accepted before is still accepted. A failure is fatal to
    /// the fold and propagates to the driver.
    fn synthesize_step(
        &self,
        cs: &ConstraintSystem,
        cfg: &CircuitConfig,
        asg: &mut Assignment,
        z_in: &Vec<AssignedCell>,
    ) -> (r: Result<Vec<AssignedCell>, SynthesisError>)
        requires
            old(asg).wf(*cs),
            self.cfg_ok(*cfg, *cs),
            z_in@.len() == self.arity_spec(),
            forall|i: int|
                0 <= i < z_in@.len() ==> (#[trigger] z_in@[i]).id < old(asg).slots@.len(),
        ensures
            final(asg).wf(*cs),
            final(asg).extends(*old(asg)),
            match r {
                Ok(z_out) => {
                    &&& z_out@.len() == self.arity_spec()
                    &&& forall|i: int|
                        0 <= i < z_out@.len() ==> (#[trigger] z_out@[i]).id
                            < final(asg).slots@.len()
                    &&& cell_vals(*final(asg), z_out@) == self.step_spec(
                        cell_vals(*old(asg), z_in@),
                    )
                    &&& (old(asg).satisfied(*cs) ==> final(asg).satisfied(*cs))
                },
                Err(_) => true,
            },
            old(asg).fresh_inputs(z_in@) ==> (r is Ok <==> self.fits_fresh(
                *cfg,
                old(asg).cap as nat,
            )),
    ;
}

/// `k`-fold iteration of a circuit's step relation starting from `z`.
pub open spec fn iterate<C: StepCircuit>(c: C, k: nat, z: Seq<nat>) -> Seq<nat>
    decreases k,
{
    if k == 0 {
        z
    } else {
        c.step_spec(iterate(c, (k - 1) as nat, z))
    }
}

/// One more fold of the step relation is exactly one more application of
/// `step_spec`: the accumulator after `k + 1` folds is the step relation
/// applied to the accumulator after `k` folds.
pub proof fn lemma_iterate_unfold<C: StepCircuit>(c: C, k: nat, z: Seq<nat>)
    ensures
        iterate(c, k + 1, z) == c.step_spec(iterate(c, k, z)),
{
}

} // verus!
