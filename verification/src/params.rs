//! Public parameters: the immutable combination of both circuits'
//! configurations, table sizes and commitment keys, derived once and shared
//! read-only by every fold step and by verification.

use vstd::prelude::*;

use crate::assignment::SynthesisError;
use crate::cs::CircuitConfig;
use crate::cs::ConstraintSystem;
use crate::keys::CommitmentKey;
use crate::step::StepCircuit;

verus! {

/// A terminal failure of the folding run: all of these propagate to the
/// caller and none is retried.
#[derive(Clone, Copy, PartialEq, Eq, Structural, Debug)]
pub enum IvcError {
    /// A circuit's synthesis failed during a fold.
    Synthesis(SynthesisError),
    /// A fold produced an assignment the constraint system rejects.
    AccumulationInconsistent,
    /// A commitment key is too small for its circuit's declared table size.
    CommitmentKeyInsufficient,
    /// A starting input vector does not match its circuit's arity.
    ArityMismatch,
    /// The accumulated state failed the final check.
    VerificationFailed,
}

/// The shared, read-only configuration of a folding session: both circuits'
/// constraint systems and configurations, arities, grid row capacities, and
/// commitment keys.
#[derive(Debug)]
pub struct PublicParams {
    pub primary_cs: ConstraintSystem,
    pub primary_cfg: CircuitConfig,
    pub primary_arity: usize,
    pub primary_cap: usize,
    pub primary_key: CommitmentKey,
    pub secondary_cs: ConstraintSystem,
    pub secondary_cfg: CircuitConfig,
    pub secondary_arity: usize,
    pub secondary_cap: usize,
    pub secondary_key: CommitmentKey,
}

impl PublicParams {
    /// These parameters were derived from one configuration pass of each of
    /// the two circuits.
    pub open spec fn wf_for<C1: StepCircuit, C2: StepCircuit>(self, c1: C1, c2: C2) -> bool {
        &&& self.primary_cs.wf()
        &&& c1.cfg_ok(self.primary_cfg, self.primary_cs)
        &&& self.primary_arity == c1.arity_spec()
        &&& self.primary_cap <= u32::MAX
        &&& self.secondary_cs.wf()
        &&& c2.cfg_ok(self.secondary_cfg, self.secondary_cs)
        &&& self.secondary_arity == c2.arity_spec()
        &&& self.secondary_cap <= u32::MAX
    }
}

/// Derive public parameters from the two circuits and their commitment
/// keys: run each circuit's one-time configuration pass and record the
/// resulting configurations together with the declared table sizes.
///
/// Fails, before any fold runs, exactly when a commitment key is too small
/// for the table size declared for its circuit.
pub fn new_default_pp<C1: StepCircuit, C2: StepCircuit>(
    secondary_table_log: u32,
    primary_key: &CommitmentKey,
    primary: &C1,
    primary_table_log: u32,
    secondary_key: &CommitmentKey,
    secondary: &C2,
) -> (r: Result<PublicParams, IvcError>)
    requires
        primary_table_log <= 31,
        secondary_table_log <= 31,
    ensures
        r is Ok <==> (primary_key.k >= primary_table_log && secondary_key.k
            >= secondary_table_log),
        match r {
            Ok(pp) => {
                &&& pp.wf_for(*primary, *secondary)
                &&& pp.primary_cap == (1u32 << primary_table_log) as usize
                &&& pp.secondary_cap == (1u32 << secondary_table_log) as usize
                &&& pp.primary_key == *primary_key
                &&& pp.secondary_key == *secondary_key
            },
            Err(e) => e == IvcError::CommitmentKeyInsufficient,
        },
{
    if !primary_key.supports(primary_table_log) || !secondary_key.supports(secondary_table_log) {
        return Err(IvcError::CommitmentKeyInsufficient);
    }
    let mut cs1 = ConstraintSystem::new();
    let cfg1 = primary.configure(&mut cs1);
    let a1 = primary.arity();
    let mut cs2 = ConstraintSystem::new();
    let cfg2 = secondary.configure(&mut cs2);
    let a2 = secondary.arity();
    let cap1: u32 = 1u32 << primary_table_log;
    let cap2: u32 = 1u32 << secondary_table_log;
    Ok(
        PublicParams {
            primary_cs: cs1,
            primary_cfg: cfg1,
            primary_arity: a1,
            primary_cap: cap1 as usize,
            primary_key: *primary_key,
            secondary_cs: cs2,
            secondary_cfg: cfg2,
            secondary_arity: a2,
            secondary_cap: cap2 as usize,
            secondary_key: *secondary_key,
        },
    )
}

} // verus!
