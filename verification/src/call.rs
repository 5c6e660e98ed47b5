//! One call into the native library: what a request asks for, and the arrays
//! that are lent for it.
//!
//! A request to the session is answered with an [`IntegralCall`]. The caller
//! turns it into a [`LentCall`], which owns the output and the shell indices
//! while the native library works on them, makes the foreign call, and takes
//! the output back with `finish`.

use vstd::prelude::*;
use crate::basis::CintType;
use crate::error::CintError;
use crate::family::IntegralFamily;
use crate::model::CallView;
use crate::transfer::{reclaim, release, Lent};

verus! {

/// One call into the native library that evaluates a block of integrals.
///
/// The native library reads `shls` and writes `len` values: it is the entry
/// point of `family` under `cint_type` that is called, on the tables of the
/// session. The output is column-major, and its fastest index runs over the
/// components of the first shell; a gradient comes as three such blocks, one
/// after the other.
#[derive(Debug, PartialEq, Eq)]
pub struct IntegralCall {
    /// The family whose entry point is called.
    pub family: IntegralFamily,
    /// The variant of the entry point.
    pub cint_type: CintType,
    /// The shell indices, in the order of the request.
    pub shls: Vec<i32>,
    /// Number of values in the output.
    pub len: usize,
    /// Whether the optimizer of the session is handed to the call; if not, the
    /// call gets none.
    pub optimized: bool,
}

impl View for IntegralCall {
    type V = CallView;

    open spec fn view(&self) -> CallView {
        CallView {
            family: self.family,
            cint_type: self.cint_type,
            shls: self.shls@,
            len: self.len as int,
            optimized: self.optimized,
        }
    }
}

/// A call whose output and shell indices are lent to the native library.
pub struct LentCall<E> {
    family: IntegralFamily,
    cint_type: CintType,
    optimized: bool,
    shls: Lent<i32>,
    out: Lent<E>,
}

/// A lent call, as the native library sees it.
pub struct LentCallView<E> {
    /// The family whose entry point is called.
    pub family: IntegralFamily,
    /// The variant of the entry point.
    pub cint_type: CintType,
    /// Whether the optimizer of the session is handed to the call.
    pub optimized: bool,
    /// The shell indices that the call reads.
    pub shls: Seq<i32>,
    /// The values that the call overwrites.
    pub out: Seq<E>,
}

impl IntegralCall {
    /// Allocates the output of the call, every value a copy of `fill`, and
    /// lends it to the native library together with the shell indices.
    pub fn lend<E: Clone>(self, fill: E) -> (lent: LentCall<E>)
        ensures
            lent@.family == self.family,
            lent@.cint_type == self.cint_type,
            lent@.optimized == self.optimized,
            lent@.shls == self.shls@,
            lent@.out.len() == self.len,
            forall|k: int| 0 <= k < self.len ==> cloned(fill, #[trigger] lent@.out[k]),
    {
        let out: Vec<E> = vec![fill; self.len];
        LentCall {
            family: self.family,
            cint_type: self.cint_type,
            optimized: self.optimized,
            shls: release(self.shls),
            out: release(out),
        }
    }
}

impl<E> LentCall<E> {
    pub closed spec fn view(&self) -> LentCallView<E> {
        LentCallView {
            family: self.family,
            cint_type: self.cint_type,
            optimized: self.optimized,
            shls: self.shls@,
            out: self.out@,
        }
    }

    /// The family whose entry point is called.
    pub fn family(&self) -> (family: IntegralFamily)
        ensures
            family == self@.family,
    {
        self.family
    }

    /// The variant of the entry point.
    pub fn cint_type(&self) -> (cint_type: CintType)
        ensures
            cint_type == self@.cint_type,
    {
        self.cint_type
    }

    /// Whether the optimizer of the session is handed to the call.
    pub fn optimized(&self) -> (optimized: bool)
        ensures
            optimized == self@.optimized,
    {
        self.optimized
    }

    /// The shell indices, for the foreign call.
    pub fn shls(&self) -> (shls: &[i32])
        ensures
            shls@ == self@.shls,
    {
        self.shls.use_foreign()
    }

    /// The output, for the foreign call to write. Nothing but the output
    /// changes, and what the call leaves there is what `finish` gives.
    pub fn out(&mut self) -> (out: &mut [E])
        ensures
            out@ == old(self)@.out,
            final(self)@ == (LentCallView { out: final(out)@, ..old(self)@ }),
    {
        self.out.use_foreign_mut()
    }

    /// Takes both arrays back after the foreign call, drops the shell indices
    /// and gives the output.
    pub fn finish(self) -> (out: Vec<E>)
        ensures
            out@ == self@.out,
    {
        let LentCall { shls, out, .. } = self;
        let _ = reclaim(shls);
        reclaim(out)
    }
}

/// The answer to a request, with the call as the model sees it.
pub open spec fn answer_view(answer: Result<IntegralCall, CintError>) -> Result<
    CallView,
    CintError,
> {
    match answer {
        Ok(call) => Ok(call@),
        Err(e) => Err(e),
    }
}

} // verus!
