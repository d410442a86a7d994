//! The trivial step circuit: the identity on its input vector. It declares
//! no columns and no gates, and its synthesis adds no constraints that could
//! reject any input. Used as a placeholder companion circuit when the
//! folding scheme's opposite side carries no application logic of its own.

use vstd::prelude::*;

use crate::assignment::Assignment;
use crate::assignment::AssignedCell;
use crate::assignment::SynthesisError;
use crate::cs::CircuitConfig;
use crate::cs::ConstraintSystem;
use crate::step::StepCircuit;
use crate::step::cell_vals;

verus! {

/// The identity step circuit of a chosen arity.
#[derive(Clone, Copy, PartialEq, Eq, Structural, Debug)]
pub struct TrivialCircuit {
    /// Input/output size per fold step.
    pub width: usize,
}

impl StepCircuit for TrivialCircuit {
    open spec fn arity_spec(&self) -> nat {
        self.width as nat
    }

    open spec fn step_spec(&self, z: Seq<nat>) -> Seq<nat> {
        z
    }

    open spec fn cfg_ok(&self, cfg: CircuitConfig, cs: ConstraintSystem) -> bool {
        cs.wf() && cs.gates@.len() == 0
    }

    open spec fn fits_fresh(&self, cfg: CircuitConfig, cap: nat) -> bool {
        true
    }

    proof fn step_spec_len(&self, z: Seq<nat>) {
    }

    fn arity(&self) -> (r: usize) {
        self.width
    }

    /// Declares nothing: the identity circuit needs no columns and no gates,
    /// so every configuration pass leaves the builder as it was.
    fn configure(&self, cs: &mut ConstraintSystem) -> (cfg: CircuitConfig)
        ensures
            *final(cs) == *old(cs),
            cfg.selectors@.len() == 0,
            cfg.advice@.len() == 0,
    {
        CircuitConfig { selectors: Vec::new(), advice: Vec::new() }
    }

    /// Returns `z_in` unchanged and leaves the grid exactly as it was.
    fn synthesize_step(
        &self,
        cs: &ConstraintSystem,
        cfg: &CircuitConfig,
        asg: &mut Assignment,
        z_in: &Vec<AssignedCell>,
    ) -> (r: Result<Vec<AssignedCell>, SynthesisError>)
        ensures
            *final(asg) == *old(asg),
            match r {
                Ok(z_out) => z_out@ == z_in@,
                Err(_) => false,
            },
    {
        let mut out: Vec<AssignedCell> = Vec::new();
        let mut i: usize = 0;
        while i < z_in.len()
            invariant
                i <= z_in@.len(),
                out@ == z_in@.take(i as int),
            decreases z_in@.len() - i,
        {
            let c = z_in[i];
            out.push(c);
            proof {
                assert(out@ =~= z_in@.take(i + 1));
            }
            i = i + 1;
        }
        proof {
            assert(out@ =~= z_in@);
            assert(cell_vals(*asg, out@) =~= self.step_spec(cell_vals(*asg, z_in@)));
        }
        Ok(out)
    }
}

} // verus!
