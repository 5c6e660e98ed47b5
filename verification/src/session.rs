//! The integral session: it holds the tables that are lent to the native
//! library and knows which optimizer is held.
//!
//! The session never calls the native library. Each operation that needs a
//! foreign call says which one: a transition that drops the optimizer returns
//! the family whose handle the caller must destroy, and a request for integrals
//! returns an [`IntegralCall`] that names the entry point, the shells and the
//! size of the output. What each operation does to the session is a function
//! of [`crate::model`].

use vstd::prelude::*;
use crate::basis::{
    ao_offsets, cgto, flatten, offsets_ascend, records, total_components, CintType, ANG_OF,
    ATM_SLOTS, BAS_SLOTS, NCTR_OF,
};
use crate::call::{answer_view, IntegralCall};
use crate::error::CintError;
use crate::family::{lowercase, IntegralFamily, IJIPOPT, IJOPT};
use crate::model::{
    lemma_block_len, lemma_cgto_nonnegative, lemma_ingest, CallView, SessionView, TablesView,
};
use crate::transfer::{reclaim, release, Lent};

verus! {

/// Bound on the product of `k` component counts: 2 to the power `31 * k`.
spec fn pow31(k: nat) -> int
    decreases k,
{
    if k == 0 {
        1
    } else {
        pow31((k - 1) as nat) * 0x8000_0000
    }
}

/// The tables of a loaded session, lent to the native library.
pub struct Tables<E> {
    atm: Lent<i32>,
    natm: i32,
    bas: Lent<i32>,
    nbas: i32,
    env: Lent<E>,
    ao_loc: Lent<i32>,
    ao_type: CintType,
}

impl<E> Tables<E> {
    pub closed spec fn view(&self) -> TablesView<E> {
        TablesView {
            atm: self.atm@,
            natm: self.natm as int,
            bas: self.bas@,
            nbas: self.nbas as int,
            env: self.env@,
            ao_loc: self.ao_loc@,
            ao_type: self.ao_type,
        }
    }

    /// The atom records, for a foreign call.
    pub fn atm(&self) -> (atm: &[i32])
        ensures
            atm@ == self@.atm,
    {
        self.atm.use_foreign()
    }

    /// The declared number of atoms.
    pub fn natm(&self) -> (natm: i32)
        ensures
            natm == self@.natm,
    {
        self.natm
    }

    /// The shell records, for a foreign call.
    pub fn bas(&self) -> (bas: &[i32])
        ensures
            bas@ == self@.bas,
    {
        self.bas.use_foreign()
    }

    /// The declared number of shells.
    pub fn nbas(&self) -> (nbas: i32)
        ensures
            nbas == self@.nbas,
    {
        self.nbas
    }

    /// The environment values, for a foreign call.
    pub fn env(&self) -> (env: &[E])
        ensures
            env@ == self@.env,
    {
        self.env.use_foreign()
    }

    /// The offset table.
    pub fn ao_loc(&self) -> (ao_loc: &[i32])
        ensures
            ao_loc@ == self@.ao_loc,
    {
        self.ao_loc.use_foreign()
    }

    /// The convention under which the offset table was computed.
    pub fn ao_type(&self) -> (ao_type: CintType)
        ensures
            ao_type == self@.ao_type,
    {
        self.ao_type
    }

    /// Takes every table back from the native library and drops it.
    fn reclaim_all(self) {
        let Tables { atm, bas, env, ao_loc, .. } = self;
        let _ = reclaim(atm);
        let _ = reclaim(bas);
        let _ = reclaim(env);
        let _ = reclaim(ao_loc);
    }
}

/// An integral session.
///
/// `E` is the type of an environment value; the native library reads 64-bit
/// floating-point numbers there. The session never looks at one.
pub struct CINTR2CDATA<E> {
    tables: Option<Tables<E>>,
    optimizer: Option<IntegralFamily>,
    cint_type: CintType,
}

impl<E> CINTR2CDATA<E> {
    #[verifier::type_invariant]
    spec fn inv(&self) -> bool {
        self@.wf()
    }

    pub closed spec fn view(&self) -> SessionView<E> {
        SessionView {
            cint_type: self.cint_type,
            tables: match self.tables {
                Some(tables) => Some(tables@),
                None => None,
            },
            optimizer: self.optimizer,
        }
    }

    /// An empty session with the spheric convention.
    pub fn new() -> (session: CINTR2CDATA<E>)
        ensures
            session@ == SessionView::<E>::empty(),
    {
        CINTR2CDATA { tables: None, optimizer: None, cint_type: CintType::Spheric }
    }

    /// Sets the convention of the next ingestion and of every later request.
    /// Tables that are loaded, their offset table and the optimizer stay as
    /// they are.
    pub fn set_cint_type(&mut self, ctype: &CintType)
        ensures
            final(self)@ == old(self)@.with_cint_type(*ctype),
            final(self)@.wf(),
    {
        proof {
            use_type_invariant(&*self);
        }
        self.cint_type = *ctype;
    }

    /// Ingests the tables of a molecule and lends them to the native library.
    ///
    /// `atm` and `bas` hold one record per atom and per shell; `natm` and `nbas`
    /// are the counts that every later foreign call declares. The records are
    /// laid out one after the other, the offset table is computed under the
    /// convention in force, and all four arrays are released. Tables that were
    /// loaded before are reclaimed and dropped. No optimizer is held afterwards:
    /// the result names the family of the one that was, whose handle the caller
    /// must destroy.
    ///
    /// Tables with a fault are refused, and the session stays as it was.
    pub fn initial_r2c(
        &mut self,
        atm: &Vec<Vec<i32>>,
        natm: i32,
        bas: &Vec<Vec<i32>>,
        nbas: i32,
        env: Vec<E>,
    ) -> (result: Result<Option<IntegralFamily>, CintError>)
        ensures
            result == old(self)@.ingest_answer(
                records(atm@),
                natm as int,
                records(bas@),
                nbas as int,
            ),
            final(self)@ == old(self)@.ingest(
                records(atm@),
                natm as int,
                records(bas@),
                nbas as int,
                env@,
            ),
            final(self)@.wf(),
            result is Ok ==> {
                &&& offsets_ascend(final(self)@.tables.unwrap().ao_loc)
                &&& final(self)@.tables.unwrap().ao_loc.last() == total_components(
                    old(self)@.cint_type,
                    records(bas@).flatten(),
                )
            },
    {
        proof {
            use_type_invariant(&*self);
        }
        if natm < 0 || nbas < 0 || natm as usize != atm.len() || nbas as usize != bas.len() {
            return Err(CintError::CountMismatch);
        }
        let atm_flat = match flatten(atm, ATM_SLOTS) {
            Some(flat) => flat,
            None => {
                return Err(CintError::RecordWidth);
            },
        };
        let bas_flat = match flatten(bas, BAS_SLOTS) {
            Some(flat) => flat,
            None => {
                return Err(CintError::RecordWidth);
            },
        };
        let ao_loc = match ao_offsets(self.cint_type, bas_flat.as_slice()) {
            Ok(ao_loc) => ao_loc,
            Err(e) => {
                return Err(e);
            },
        };
        let tables = Tables {
            atm: release(atm_flat),
            natm,
            bas: release(bas_flat),
            nbas,
            env: release(env),
            ao_loc: release(ao_loc),
            ao_type: self.cint_type,
        };
        let mut previous = CINTR2CDATA {
            tables: Some(tables),
            optimizer: None,
            cint_type: self.cint_type,
        };
        proof {
            lemma_ingest(old(self)@, records(atm@), natm as int, records(bas@), nbas as int, env@);
        }
        core::mem::swap(self, &mut previous);
        let CINTR2CDATA { tables, optimizer, .. } = previous;
        if let Some(tables) = tables {
            tables.reclaim_all();
        }
        Ok(optimizer)
    }

    /// Tears the session down: the tables are reclaimed and dropped, no
    /// optimizer is held, and the convention is the spheric one again. The
    /// result names the family of the optimizer that was held, whose handle the
    /// caller must destroy. On an empty session nothing happens.
    pub fn final_c2r(&mut self) -> (stale: Option<IntegralFamily>)
        ensures
            final(self)@ == old(self)@.teardown(),
            stale == old(self)@.optimizer,
            final(self)@.wf(),
    {
        proof {
            use_type_invariant(&*self);
        }
        if self.tables.is_none() {
            return None;
        }
        let mut previous = CINTR2CDATA::new();
        core::mem::swap(self, &mut previous);
        let CINTR2CDATA { tables, optimizer, .. } = previous;
        if let Some(tables) = tables {
            tables.reclaim_all();
        }
        optimizer
    }

    /// Drops the optimizer. The result names its family, and the caller must
    /// destroy its handle; where none is held nothing happens.
    pub fn cint_del_optimizer_rust(&mut self) -> (stale: Option<IntegralFamily>)
        ensures
            final(self)@ == old(self)@.without_optimizer(),
            stale == old(self)@.optimizer,
            final(self)@.wf(),
    {
        proof {
            use_type_invariant(&*self);
        }
        let stale = self.optimizer;
        self.optimizer = None;
        stale
    }

    /// Selects the optimizer for `family`: the one that is held is dropped, and
    /// the caller must build a new one for `family` over the tables that are
    /// loaded. The result names the family of the one that was dropped, whose
    /// handle the caller must destroy first.
    ///
    /// Refused on an empty session.
    pub fn select_optimizer(&mut self, family: IntegralFamily) -> (result: Result<
        Option<IntegralFamily>,
        CintError,
    >)
        ensures
            result == old(self)@.select_answer(),
            final(self)@ == old(self)@.select(family),
            final(self)@.wf(),
    {
        proof {
            use_type_invariant(&*self);
        }
        if self.tables.is_none() {
            return Err(CintError::NotLoaded);
        }
        let stale = self.optimizer;
        self.optimizer = Some(family);
        Ok(stale)
    }

    /// Selects the optimizer for two-centre two-electron integrals.
    pub fn cint2c2e_optimizer_rust(&mut self) -> (result: Result<Option<IntegralFamily>, CintError>)
        ensures
            result == old(self)@.select_answer(),
            final(self)@ == old(self)@.select(IntegralFamily::Int2c2e),
            final(self)@.wf(),
    {
        self.select_optimizer(IntegralFamily::Int2c2e)
    }

    /// Selects the optimizer for three-centre two-electron integrals.
    pub fn cint3c2e_optimizer_rust(&mut self) -> (result: Result<Option<IntegralFamily>, CintError>)
        ensures
            result == old(self)@.select_answer(),
            final(self)@ == old(self)@.select(IntegralFamily::Int3c2e),
            final(self)@.wf(),
    {
        self.select_optimizer(IntegralFamily::Int3c2e)
    }

    /// Selects the optimizer for four-centre two-electron integrals.
    pub fn cint2e_optimizer_rust(&mut self) -> (result: Result<Option<IntegralFamily>, CintError>)
        ensures
            result == old(self)@.select_answer(),
            final(self)@ == old(self)@.select(IntegralFamily::Int2e),
            final(self)@.wf(),
    {
        self.select_optimizer(IntegralFamily::Int2e)
    }

    /// Selects the optimizer for overlap integrals.
    pub fn cint1e_ovlp_optimizer_rust(&mut self) -> (result: Result<Option<IntegralFamily>, CintError>)
        ensures
            result == old(self)@.select_answer(),
            final(self)@ == old(self)@.select(IntegralFamily::Int1e(IJOPT::Ovlp)),
            final(self)@.wf(),
    {
        self.select_optimizer(IntegralFamily::Int1e(IJOPT::Ovlp))
    }

    /// Selects the optimizer for nuclear-attraction integrals.
    pub fn cint1e_nuc_optimizer_rust(&mut self) -> (result: Result<Option<IntegralFamily>, CintError>)
        ensures
            result == old(self)@.select_answer(),
            final(self)@ == old(self)@.select(IntegralFamily::Int1e(IJOPT::Nuclear)),
            final(self)@.wf(),
    {
        self.select_optimizer(IntegralFamily::Int1e(IJOPT::Nuclear))
    }

    /// Selects the optimizer for kinetic-energy integrals.
    pub fn cint1e_kin_optimizer_rust(&mut self) -> (result: Result<Option<IntegralFamily>, CintError>)
        ensures
            result == old(self)@.select_answer(),
            final(self)@ == old(self)@.select(IntegralFamily::Int1e(IJOPT::Kinetic)),
            final(self)@.wf(),
    {
        self.select_optimizer(IntegralFamily::Int1e(IJOPT::Kinetic))
    }

    /// Selects the optimizer for gradients of overlap integrals.
    pub fn int1e_ipovlp_optimizer_rust(&mut self) -> (result: Result<Option<IntegralFamily>, CintError>)
        ensures
            result == old(self)@.select_answer(),
            final(self)@ == old(self)@.select(IntegralFamily::Int1eIp(IJIPOPT::IPOvlp)),
            final(self)@.wf(),
    {
        self.select_optimizer(IntegralFamily::Int1eIp(IJIPOPT::IPOvlp))
    }

    /// Selects the optimizer for gradients of kinetic-energy integrals.
    pub fn int1e_ipkin_optimizer_rust(&mut self) -> (result: Result<Option<IntegralFamily>, CintError>)
        ensures
            result == old(self)@.select_answer(),
            final(self)@ == old(self)@.select(IntegralFamily::Int1eIp(IJIPOPT::IPKin)),
            final(self)@.wf(),
    {
        self.select_optimizer(IntegralFamily::Int1eIp(IJIPOPT::IPKin))
    }

    /// Selects the optimizer for gradients of nuclear-attraction integrals.
    pub fn int1e_ipnuc_optimizer_rust(&mut self) -> (result: Result<Option<IntegralFamily>, CintError>)
        ensures
            result == old(self)@.select_answer(),
            final(self)@ == old(self)@.select(IntegralFamily::Int1eIp(IJIPOPT::IPNuc)),
            final(self)@.wf(),
    {
        self.select_optimizer(IntegralFamily::Int1eIp(IJIPOPT::IPNuc))
    }

    /// Selects the optimizer for gradients of inverse-distance integrals.
    pub fn int1e_iprinv_optimizer_rust(&mut self) -> (result: Result<Option<IntegralFamily>, CintError>)
        ensures
            result == old(self)@.select_answer(),
            final(self)@ == old(self)@.select(IntegralFamily::Int1eIp(IJIPOPT::IPRInv)),
            final(self)@.wf(),
    {
        self.select_optimizer(IntegralFamily::Int1eIp(IJIPOPT::IPRInv))
    }

    /// Number of components of shell `index` under the convention in force.
    pub fn cint_cgto_rust(&self, index: i32) -> (result: Result<i32, CintError>)
        ensures
            result == self@.cgto_answer(index as int),
    {
        proof {
            use_type_invariant(self);
        }
        let tables = match &self.tables {
            Some(tables) => tables,
            None => {
                return Err(CintError::NotLoaded);
            },
        };
        if index < 0 || index >= tables.nbas {
            return Err(CintError::ShellOutOfRange);
        }
        let bas = tables.bas.use_foreign();
        let shell: usize = index as usize;
        proof {
            assert(bas@.len() == bas.len() == tables.nbas * BAS_SLOTS);
        }
        let l: i32 = bas[shell * BAS_SLOTS + ANG_OF];
        let nctr: i32 = bas[shell * BAS_SLOTS + NCTR_OF];
        match cgto(self.cint_type, l, nctr) {
            Ok(count) => Ok(count),
            Err(_) => Err(CintError::ComponentOverflow),
        }
    }

    /// Plans the evaluation of one block of integrals of `family` over the
    /// shells `shls`.
    #[verifier::loop_isolation(false)]
    pub fn integral(&self, family: IntegralFamily, shls: Vec<i32>) -> (result: Result<
        IntegralCall,
        CintError,
    >)
        ensures
            answer_view(result) == self@.plan(family, shls@),
    {
        proof {
            use_type_invariant(self);
        }
        let nbas: i32 = match &self.tables {
            Some(tables) => tables.nbas,
            None => {
                return Err(CintError::NotLoaded);
            },
        };
        if shls.len() != family.centers() {
            return Err(CintError::ShellArity);
        }
        let optimized = match self.optimizer {
            Some(held) => {
                if held != family {
                    return Err(CintError::OptimizerMismatch);
                }
                true
            },
            None => false,
        };
        let mut k: usize = 0;
        while k < shls.len()
            invariant
                k <= shls.len(),
                self@.loaded(),
                forall|j: int| 0 <= j < k ==> self@.shell_in_range(#[trigger] shls@[j] as int),
            decreases shls.len() - k,
        {
            if shls[k] < 0 || shls[k] >= nbas {
                return Err(CintError::ShellOutOfRange);
            }
            k += 1;
        }
        let mut len: u128 = family.output_blocks() as u128;
        k = 0;
        while k < shls.len()
            invariant
                k <= shls.len() <= 4,
                self@.loaded(),
                self@.shells_in_range(shls@),
                forall|j: int| 0 <= j < k ==> self@.cgto(#[trigger] shls@[j] as int) <= i32::MAX,
                len == family.blocks() * self@.block_len(shls@.take(k as int)),
                len <= 3 * pow31(k as nat),
            decreases shls.len() - k,
        {
            let count: i32 = match self.cint_cgto_rust(shls[k]) {
                Ok(count) => count,
                Err(_) => {
                    return Err(CintError::ComponentOverflow);
                },
            };
            proof {
                lemma_cgto_nonnegative(self@, shls@[k as int] as int);
                let seen = shls@.take(k as int);
                let next = shls@.take(k + 1);
                assert(next.drop_last() == seen);
                let block = self@.block_len(seen);
                let blocks = family.blocks() as int;
                assert(len * count == blocks * (block * count)) by (nonlinear_arith)
                    requires
                        len == blocks * block,
                ;
                assert(len * count <= 3 * (pow31(k as nat) * 0x8000_0000)) by (nonlinear_arith)
                    requires
                        0 <= len <= 3 * pow31(k as nat),
                        0 <= count <= 0x8000_0000,
                ;
                reveal_with_fuel(pow31, 5);
            }
            len = len * (count as u128);
            k += 1;
        }
        proof {
            assert(shls@.take(k as int) == shls@);
        }
        if len > usize::MAX as u128 {
            return Err(CintError::BufferTooLarge);
        }
        Ok(IntegralCall { family, cint_type: self.cint_type, shls, len: len as usize, optimized })
    }

    /// Plans a two-centre two-electron block over the shells `i` and `j`.
    pub fn cint_2c2e(&self, i: i32, j: i32) -> (result: Result<IntegralCall, CintError>)
        ensures
            answer_view(result) == self@.plan(IntegralFamily::Int2c2e, seq![i, j]),
            result matches Ok(call) ==> call.len == self@.cgto(i as int) * self@.cgto(j as int),
    {
        proof {
            lemma_block_len(self@, i, j, 0, 0);
        }
        self.integral(IntegralFamily::Int2c2e, vec![i, j])
    }

    /// Plans a three-centre two-electron block over the shells `i`, `j` and
    /// `k`.
    pub fn cint_3c2e(&self, i: i32, j: i32, k: i32) -> (result: Result<IntegralCall, CintError>)
        ensures
            answer_view(result) == self@.plan(IntegralFamily::Int3c2e, seq![i, j, k]),
            result matches Ok(call) ==> call.len == self@.cgto(i as int) * self@.cgto(j as int)
                * self@.cgto(k as int),
    {
        proof {
            lemma_block_len(self@, i, j, k, 0);
        }
        self.integral(IntegralFamily::Int3c2e, vec![i, j, k])
    }

    /// Plans a four-centre two-electron block over the shells `i`, `j`, `k` and
    /// `l`.
    pub fn cint_ijkl_by_shell(&self, i: i32, j: i32, k: i32, l: i32) -> (result: Result<
        IntegralCall,
        CintError,
    >)
        ensures
            answer_view(result) == self@.plan(IntegralFamily::Int2e, seq![i, j, k, l]),
            result matches Ok(call) ==> call.len == self@.cgto(i as int) * self@.cgto(j as int)
                * self@.cgto(k as int) * self@.cgto(l as int),
    {
        proof {
            lemma_block_len(self@, i, j, k, l);
        }
        self.integral(IntegralFamily::Int2e, vec![i, j, k, l])
    }

    /// Plans a block of the one-electron operator `op` over the shells `i` and
    /// `j`.
    pub fn cint_1e(&self, i: i32, j: i32, op: IJOPT) -> (result: Result<IntegralCall, CintError>)
        ensures
            answer_view(result) == self@.plan(IntegralFamily::Int1e(op), seq![i, j]),
            result matches Ok(call) ==> call.len == self@.cgto(i as int) * self@.cgto(j as int),
    {
        proof {
            lemma_block_len(self@, i, j, 0, 0);
        }
        self.integral(IntegralFamily::Int1e(op), vec![i, j])
    }

    /// Plans the three gradient blocks of the one-electron operator `op` over
    /// the shells `i` and `j`.
    pub fn cint_1e_ip(&self, i: i32, j: i32, op: IJIPOPT) -> (result: Result<
        IntegralCall,
        CintError,
    >)
        ensures
            answer_view(result) == self@.plan(IntegralFamily::Int1eIp(op), seq![i, j]),
            result matches Ok(call) ==> call.len == 3 * (self@.cgto(i as int) * self@.cgto(
                j as int,
            )),
    {
        proof {
            lemma_block_len(self@, i, j, 0, 0);
        }
        self.integral(IntegralFamily::Int1eIp(op), vec![i, j])
    }

    /// Plans a block of the one-electron operator named `op_name` over the
    /// shells `i` and `j`. The name is one of `ovlp`, `kinetic` and `nuclear`,
    /// in any mix of upper and lower case; any other name is refused before
    /// the session is looked at.
    pub fn cint_ij(&self, i: i32, j: i32, op_name: &String) -> (result: Result<
        IntegralCall,
        CintError,
    >)
        ensures
            match IJOPT::named(lowercase(op_name@)) {
                Some(op) => answer_view(result) == self@.plan(IntegralFamily::Int1e(op), seq![i, j]),
                None => answer_view(result) == Err::<CallView, CintError>(
                    CintError::UnknownOperator,
                ),
            },
            result matches Ok(call) ==> call.len == self@.cgto(i as int) * self@.cgto(j as int),
    {
        match IJOPT::from_name(op_name) {
            Some(op) => self.cint_1e(i, j, op),
            None => Err(CintError::UnknownOperator),
        }
    }

    /// Plans the three gradient blocks of the one-electron operator named
    /// `op_name` over the shells `i` and `j`. The name is one of `ipovlp`,
    /// `ipkin`, `ipnuc` and `iprinv`, in any mix of upper and lower case; any
    /// other name is refused before the session is looked at.
    pub fn cint_ip_ij(&self, i: i32, j: i32, op_name: &String) -> (result: Result<
        IntegralCall,
        CintError,
    >)
        ensures
            match IJIPOPT::named(lowercase(op_name@)) {
                Some(op) => answer_view(result) == self@.plan(IntegralFamily::Int1eIp(op), seq![i, j]),
                None => answer_view(result) == Err::<CallView, CintError>(
                    CintError::UnknownOperator,
                ),
            },
            result matches Ok(call) ==> call.len == 3 * (self@.cgto(i as int) * self@.cgto(
                j as int,
            )),
    {
        match IJIPOPT::from_name(op_name) {
            Some(op) => self.cint_1e_ip(i, j, op),
            None => Err(CintError::UnknownOperator),
        }
    }

    /// The convention in force.
    pub fn cint_type(&self) -> (cint_type: CintType)
        ensures
            cint_type == self@.cint_type,
    {
        self.cint_type
    }

    /// The family of the optimizer that is held, if any.
    pub fn optimizer(&self) -> (family: Option<IntegralFamily>)
        ensures
            family == self@.optimizer,
            self@.wf(),
    {
        proof {
            use_type_invariant(self);
        }
        self.optimizer
    }

    /// The tables that are lent out, if any.
    pub fn tables(&self) -> (tables: Option<&Tables<E>>)
        ensures
            tables is Some == self@.loaded(),
            tables matches Some(t) ==> Some(t@) == self@.tables,
            self@.wf(),
    {
        proof {
            use_type_invariant(self);
        }
        self.tables.as_ref()
    }
}

} // verus!
