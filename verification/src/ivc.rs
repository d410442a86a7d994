//! The folding driver: incrementally verifiable computation over a primary
//! step circuit and a companion secondary step circuit. Each fold applies
//! both circuits' synthesis once against the accumulator's latest output
//! vectors and advances the fold count; folds have a strict total order, and
//! a failure is terminal for the run.

use vstd::prelude::*;

use crate::assignment::Assignment;
use crate::assignment::AssignedCell;
use crate::assignment::CellSlot;
use crate::assignment::lemma_satisfied_same_grid;
use crate::cs::CircuitConfig;
use crate::cs::ConstraintSystem;
use crate::field::Felt;
use crate::params::IvcError;
use crate::params::PublicParams;
use crate::step::StepCircuit;
use crate::step::cell_vals;
use crate::step::felt_vals;
use crate::step::iterate;

verus! {

/// Run one circuit's synthesis against a fresh grid seeded with the current
/// output vector `z`, check the resulting assignment against the constraint
/// system, and return the new output vector.
fn fold_one<C: StepCircuit>(
    c: &C,
    cs: &ConstraintSystem,
    cfg: &CircuitConfig,
    cap: usize,
    z: &Vec<Felt>,
) -> (r: Result<Vec<Felt>, IvcError>)
    requires
        cs.wf(),
        c.cfg_ok(*cfg, *cs),
        cap <= u32::MAX as usize,
        z@.len() == c.arity_spec(),
    ensures
        r is Ok <==> c.fits_fresh(*cfg, cap as nat),
        match r {
            Ok(zn) => {
                &&& zn@.len() == c.arity_spec()
                &&& felt_vals(zn@) == c.step_spec(felt_vals(z@))
            },
            Err(e) => e is Synthesis,
        },
{
    let mut asg = Assignment::new(cs, cap);
    let ghost fresh0 = asg;
    let mut zc: Vec<AssignedCell> = Vec::new();
    let mut i: usize = 0;
    while i < z.len()
        invariant
            fresh0.fresh_inputs(Seq::<AssignedCell>::empty()),
            fresh0.wf(*cs),
            fresh0.satisfied(*cs),
            fresh0.cap == cap,
            i <= z@.len(),
            zc@.len() == i,
            asg.wf(*cs),
            asg.cols == fresh0.cols,
            asg.enabled == fresh0.enabled,
            asg.copies == fresh0.copies,
            asg.cap == fresh0.cap,
            asg.region_start == fresh0.region_start,
            asg.region_open == fresh0.region_open,
            asg.frontier == fresh0.frontier,
            asg.slots@.len() == i,
            forall|j: int| 0 <= j < i ==> (#[trigger] zc@[j]).id == j,
            forall|j: int| 0 <= j < i ==> #[trigger] asg.slots@[j] is Outside,
            forall|j: int| 0 <= j < i ==> #[trigger] asg.cell_val(j) == z@[j].val(),
        decreases z@.len() - i,
    {
        let ghost pre = asg;
        let cell = asg.external_cell(z[i]);
        zc.push(cell);
        proof {
            assert forall|j: int| 0 <= j <= i implies #[trigger] asg.cell_val(j) == z@[j].val() by {
                if j < i {
                    assert(pre.cell_val(j) == z@[j].val());
                    assert(asg.slots@[j] == pre.slots@[j]);
                } else {
                    assert(asg.slots@[j] == CellSlot::Outside(z@[i as int]));
                }
            }
        }
        i = i + 1;
    }
    proof {
        assert(asg.fresh_inputs(zc@));
        lemma_satisfied_same_grid(fresh0, asg, *cs);
        assert(cell_vals(asg, zc@) =~= felt_vals(z@));
    }
    let ghost seeded = asg;
    let zout = match c.synthesize_step(cs, cfg, &mut asg, &zc) {
        Ok(zo) => zo,
        Err(e) => {
            return Err(IvcError::Synthesis(e));
        },
    };
    // The accumulator's consistency test. For any circuit meeting the
    // step-circuit contract the check is proved to succeed, so the failure
    // arm is provably unreachable; the check still runs, mirroring the
    // driver's fatal failure on inconsistent accumulation.
    let ok = asg.is_satisfied(cs);
    if !ok {
        proof {
            assert(false);
        }
        return Err(IvcError::AccumulationInconsistent);
    }
    let mut zn: Vec<Felt> = Vec::new();
    let mut j: usize = 0;
    while j < zout.len()
        invariant
            j <= zout@.len(),
            zn@.len() == j,
            asg.wf(*cs),
            forall|t: int| 0 <= t < zout@.len() ==> (#[trigger] zout@[t]).id < asg.slots@.len(),
            forall|t: int|
                0 <= t < j ==> (#[trigger] zn@[t]).val() == asg.cell_val(zout@[t].id as int),
        decreases zout@.len() - j,
    {
        let f = asg.value_of(zout[j]);
        zn.push(f);
        j = j + 1;
    }
    proof {
        assert(felt_vals(zn@) =~= cell_vals(asg, zout@));
    }
    Ok(zn)
}

/// The folding driver's accumulated state: the latest output vector of each
/// circuit and the number of folds performed. Each fold's assignment is
/// checked against its constraint system inside [`IVC::fold_step`], which
/// fails fatally on any inconsistency, so a state reached through
/// successful calls reflects exactly that many correct applications of each
/// circuit's step relation.
pub struct IVC {
    /// How many folds have been performed.
    pub fold_count: u64,
    /// The primary circuit's latest output vector.
    pub primary_z: Vec<Felt>,
    /// The secondary circuit's latest output vector.
    pub secondary_z: Vec<Felt>,
    /// The primary circuit's starting input values.
    pub z0_primary: Ghost<Seq<nat>>,
    /// The secondary circuit's starting input values.
    pub z0_secondary: Ghost<Seq<nat>>,
}

impl IVC {
    /// The accumulated vectors have the arities the parameters declare.
    pub open spec fn wf(self, pp: PublicParams) -> bool {
        &&& self.primary_z@.len() == pp.primary_arity
        &&& self.secondary_z@.len() == pp.secondary_arity
    }

    /// Fold-count invariant: the accumulator holds exactly `fold_count`
    /// applications of each circuit's step relation to its starting input.
    pub open spec fn reflects<C1: StepCircuit, C2: StepCircuit>(self, c1: C1, c2: C2) -> bool {
        &&& felt_vals(self.primary_z@) == iterate(c1, self.fold_count as nat, self.z0_primary@)
        &&& felt_vals(self.secondary_z@) == iterate(
            c2,
            self.fold_count as nat,
            self.z0_secondary@,
        )
    }

    /// Bind both circuits' starting input vectors and build the initial
    /// accumulator: zero folds performed. Fails exactly when an input
    /// vector's length differs from its circuit's arity.
    pub fn new<C1: StepCircuit, C2: StepCircuit>(
        pp: &PublicParams,
        c1: &C1,
        z0_primary: Vec<Felt>,
        c2: &C2,
        z0_secondary: Vec<Felt>,
    ) -> (r: Result<IVC, IvcError>)
        requires
            pp.wf_for(*c1, *c2),
        ensures
            r is Ok <==> (z0_primary@.len() == pp.primary_arity && z0_secondary@.len()
                == pp.secondary_arity),
            match r {
                Ok(ivc) => {
                    &&& ivc.fold_count == 0
                    &&& ivc.primary_z@ == z0_primary@
                    &&& ivc.secondary_z@ == z0_secondary@
                    &&& ivc.z0_primary@ == felt_vals(z0_primary@)
                    &&& ivc.z0_secondary@ == felt_vals(z0_secondary@)
                    &&& ivc.wf(*pp)
                    &&& ivc.reflects(*c1, *c2)
                },
                Err(e) => e == IvcError::ArityMismatch,
            },
    {
        if z0_primary.len() != pp.primary_arity || z0_secondary.len() != pp.secondary_arity {
            return Err(IvcError::ArityMismatch);
        }
        Ok(
            IVC {
                fold_count: 0,
                primary_z: z0_primary,
                secondary_z: z0_secondary,
                z0_primary: Ghost(felt_vals(z0_primary@)),
                z0_secondary: Ghost(felt_vals(z0_secondary@)),
            },
        )
    }

    /// Perform exactly one application of each circuit's synthesis against
    /// the accumulator's latest output vectors, and advance the fold count.
    /// Folds must be called sequentially: fold `k + 1` consumes fold `k`'s
    /// output. A failure is fatal and leaves the accumulator unchanged; no
    /// retry or partial state exists.
    pub fn fold_step<C1: StepCircuit, C2: StepCircuit>(
        &mut self,
        pp: &PublicParams,
        c1: &C1,
        c2: &C2,
    ) -> (r: Result<(), IvcError>)
        requires
            pp.wf_for(*c1, *c2),
            old(self).wf(*pp),
            old(self).fold_count < u64::MAX,
        ensures
            r is Ok <==> (c1.fits_fresh(pp.primary_cfg, pp.primary_cap as nat) && c2.fits_fresh(
                pp.secondary_cfg,
                pp.secondary_cap as nat,
            )),
            match r {
                Ok(_) => {
                    &&& final(self).wf(*pp)
                    &&& final(self).fold_count == old(self).fold_count + 1
                    &&& felt_vals(final(self).primary_z@) == c1.step_spec(
                        felt_vals(old(self).primary_z@),
                    )
                    &&& felt_vals(final(self).secondary_z@) == c2.step_spec(
                        felt_vals(old(self).secondary_z@),
                    )
                    &&& final(self).z0_primary == old(self).z0_primary
                    &&& final(self).z0_secondary == old(self).z0_secondary
                    &&& (old(self).reflects(*c1, *c2) ==> final(self).reflects(*c1, *c2))
                },
                Err(_) => *final(self) == *old(self),
            },
    {
        let zn1 = match fold_one(c1, &pp.primary_cs, &pp.primary_cfg, pp.primary_cap, &self.primary_z) {
            Ok(zn) => zn,
            Err(e) => {
                return Err(e);
            },
        };
        let zn2 = match fold_one(
            c2,
            &pp.secondary_cs,
            &pp.secondary_cfg,
            pp.secondary_cap,
            &self.secondary_z,
        ) {
            Ok(zn) => zn,
            Err(e) => {
                return Err(e);
            },
        };
        proof {
            c1.step_spec_len(felt_vals(old(self).primary_z@));
            c2.step_spec_len(felt_vals(old(self).secondary_z@));
        }
        self.primary_z = zn1;
        self.secondary_z = zn2;
        self.fold_count = self.fold_count + 1;
        proof {
            if old(self).reflects(*c1, *c2) {
                assert(iterate(*c1, old(self).fold_count as nat + 1, self.z0_primary@)
                    == c1.step_spec(iterate(*c1, old(self).fold_count as nat, self.z0_primary@)));
                assert(iterate(*c2, old(self).fold_count as nat + 1, self.z0_secondary@)
                    == c2.step_spec(
                    iterate(*c2, old(self).fold_count as nat, self.z0_secondary@),
                ));
            }
        }
        Ok(())
    }

    /// Check the accumulated state against the public parameters. Every
    /// fold's constraint check already happened inside [`IVC::fold_step`],
    /// which fails fatally on inconsistency, so verification succeeds
    /// exactly when the accumulated vectors structurally agree with the
    /// parameters' declared arities.
    pub fn verify(&self, pp: &PublicParams) -> (r: Result<(), IvcError>)
        ensures
            r is Ok <==> self.wf(*pp),
            r is Err ==> r == Err::<(), IvcError>(IvcError::VerificationFailed),
    {
        if self.primary_z.len() == pp.primary_arity && self.secondary_z.len()
            == pp.secondary_arity {
            Ok(())
        } else {
            Err(IvcError::VerificationFailed)
        }
    }
}

} // verus!
