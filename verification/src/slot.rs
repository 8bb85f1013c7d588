//! A shared "current interpolant" slot for hosts that keep one instance.

use vstd::prelude::*;
use crate::error::Error;
use crate::scalar::Real;
use crate::scatter::Scatter;

verus! {

/// Holds the interpolant most recently stored by a successful construction,
/// or nothing before the first one. The value is replaced wholesale, never
/// field by field, so a reader sees either the old interpolant or the new
/// one, never a mix; a failed construction never reaches the slot.
pub struct CurrentSlot {
    /// The interpolant most recently stored, if any.
    pub current: Option<Scatter>,
}

impl CurrentSlot {
    /// Whether the stored interpolant, if any, is well formed.
    pub open spec fn wf(self) -> bool {
        match self.current {
            Option::Some(s) => s.wf(),
            Option::None => true,
        }
    }

    /// An empty slot: no construction has been stored yet.
    pub fn new() -> (s: Self)
        ensures
            s.current == Option::<Scatter>::None,
            s.wf(),
    {
        CurrentSlot { current: None }
    }

    /// Stores a freshly constructed interpolant, replacing the whole value.
    pub fn set_current(&mut self, s: Scatter)
        requires
            s.wf(),
        ensures
            final(self).current == Option::Some(s),
            final(self).wf(),
    {
        self.current = Some(s);
    }

    /// Evaluates the current interpolant at `coords`, failing with
    /// `NotInitialized` exactly when no construction has been stored.
    pub fn evaluate_current(&self, coords: &Vec<Real>) -> (res: Result<Vec<Real>, Error>)
        requires
            self.wf(),
        ensures
            (match self.current {
                Option::Some(s) => {
                    &&& (res matches Ok(v) ==> coords@.len() == s.dim() && s.eval_rel(
                        coords@,
                        v@,
                    ))
                    &&& (res matches Err(e) ==> e == Error::DimensionMismatch && coords@.len()
                        != s.dim())
                },
                Option::None => res == Err::<Vec<Real>, Error>(Error::NotInitialized),
            }),
    {
        match &self.current {
            Some(s) => s.eval(coords),
            None => Err(Error::NotInitialized),
        }
    }
}

} // verus!
