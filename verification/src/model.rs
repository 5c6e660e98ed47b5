//! The session as a state machine over plain values, and what holds of it.
//!
//! A session is empty, or loaded without an optimizer, or loaded with the
//! optimizer of one integral family. Every operation of the session is a
//! function here, from the state before to the state after and to the answer
//! that the caller gets. The executable session in [`crate::session`] promises
//! to follow these functions; the lemmas below say what follows from them.

use vstd::prelude::*;
use crate::basis::{
    ao_table, basis_error, conventions_agree_on, lemma_ao_table, lemma_ao_table_monotone,
    lemma_component_count_bounds, lemma_convention_switch, lemma_flatten_len, offsets_ascend,
    shell_ang, shell_components, shell_nctr, total_components, uniform, CintType, ATM_SLOTS,
    BAS_SLOTS,
};
use crate::error::CintError;
use crate::family::IntegralFamily;

verus! {

/// The tables of a loaded session, as the native library sees them.
pub struct TablesView<E> {
    /// Atom records, one after the other.
    pub atm: Seq<i32>,
    /// Number of atoms declared to the native library.
    pub natm: int,
    /// Shell records, one after the other.
    pub bas: Seq<i32>,
    /// Number of shells declared to the native library.
    pub nbas: int,
    /// Coordinates, exponents and coefficients that the records point into.
    pub env: Seq<E>,
    /// Offset of each shell's first component, and the total after the last.
    pub ao_loc: Seq<i32>,
    /// Convention under which `ao_loc` was computed.
    pub ao_type: CintType,
}

impl<E> TablesView<E> {
    /// The declared counts describe the tables, no shell has a negative field,
    /// and `ao_loc` is the offset table of `bas` under `ao_type`.
    pub open spec fn wf(self) -> bool {
        &&& 0 <= self.natm <= i32::MAX
        &&& 0 <= self.nbas <= i32::MAX
        &&& self.atm.len() == self.natm * ATM_SLOTS
        &&& self.bas.len() == self.nbas * BAS_SLOTS
        &&& basis_error(self.ao_type, self.bas) is None
        &&& self.ao_loc == ao_table(self.ao_type, self.bas)
    }
}

/// One call into the native library that evaluates a block of integrals.
pub struct CallView {
    /// The family whose entry point is called.
    pub family: IntegralFamily,
    /// The variant of the entry point.
    pub cint_type: CintType,
    /// The shell indices, in the order of the request.
    pub shls: Seq<i32>,
    /// Number of values in the output.
    pub len: int,
    /// Whether the optimizer of the session is handed to the call.
    pub optimized: bool,
}

/// A session, as its operations see it.
pub struct SessionView<E> {
    /// Convention of the next ingestion and of every request.
    pub cint_type: CintType,
    /// The tables that are lent out, if any.
    pub tables: Option<TablesView<E>>,
    /// The family of the optimizer that is held, if any.
    pub optimizer: Option<IntegralFamily>,
}

impl<E> SessionView<E> {
    /// The session that `new` gives: nothing loaded, no optimizer, spheric.
    pub open spec fn empty() -> Self {
        SessionView { cint_type: CintType::Spheric, tables: None, optimizer: None }
    }

    /// Tables are lent out.
    pub open spec fn loaded(self) -> bool {
        self.tables is Some
    }

    /// What holds of every session: loaded tables are well formed, and an
    /// optimizer is held only for tables that are loaded.
    pub open spec fn wf(self) -> bool {
        &&& self.tables matches Some(tables) ==> tables.wf()
        &&& self.optimizer is Some ==> self.tables is Some
    }

    /// The session after a change of convention. Loaded tables, their offset
    /// table and the optimizer stay.
    pub open spec fn with_cint_type(self, cint_type: CintType) -> Self {
        SessionView { cint_type, ..self }
    }

    /// Why the given tables cannot be ingested, if they cannot: the first of a
    /// count that is not the number of records, a record of the wrong width, a
    /// shell with a negative field, and more components than an `i32` counts.
    pub open spec fn ingest_error(
        self,
        atm: Seq<Seq<i32>>,
        natm: int,
        bas: Seq<Seq<i32>>,
        nbas: int,
    ) -> Option<CintError> {
        if natm != atm.len() || nbas != bas.len() {
            Some(CintError::CountMismatch)
        } else if !uniform(atm, ATM_SLOTS as int) || !uniform(bas, BAS_SLOTS as int) {
            Some(CintError::RecordWidth)
        } else {
            basis_error(self.cint_type, bas.flatten())
        }
    }

    /// The session with the given tables loaded: the records laid out one
    /// after the other, the offset table under the convention in force, and no
    /// optimizer.
    pub open spec fn with_tables(self, atm: Seq<Seq<i32>>, bas: Seq<Seq<i32>>, env: Seq<E>) -> Self {
        SessionView {
            cint_type: self.cint_type,
            tables: Some(
                TablesView {
                    atm: atm.flatten(),
                    natm: atm.len() as int,
                    bas: bas.flatten(),
                    nbas: bas.len() as int,
                    env,
                    ao_loc: ao_table(self.cint_type, bas.flatten()),
                    ao_type: self.cint_type,
                },
            ),
            optimizer: None,
        }
    }

    /// The session after an ingestion: the given tables are loaded if they are
    /// without fault, and else nothing changes.
    pub open spec fn ingest(
        self,
        atm: Seq<Seq<i32>>,
        natm: int,
        bas: Seq<Seq<i32>>,
        nbas: int,
        env: Seq<E>,
    ) -> Self {
        if self.ingest_error(atm, natm, bas, nbas) is None {
            self.with_tables(atm, bas, env)
        } else {
            self
        }
    }

    /// The answer to an ingestion: the family of the optimizer that was held
    /// and is dropped, or the fault of the tables.
    pub open spec fn ingest_answer(
        self,
        atm: Seq<Seq<i32>>,
        natm: int,
        bas: Seq<Seq<i32>>,
        nbas: int,
    ) -> Result<Option<IntegralFamily>, CintError> {
        match self.ingest_error(atm, natm, bas, nbas) {
            Some(e) => Err(e),
            None => Ok(self.optimizer),
        }
    }

    /// The session after its optimizer was dropped.
    pub open spec fn without_optimizer(self) -> Self {
        SessionView { optimizer: None, ..self }
    }

    /// The session after the optimizer for `family` was selected: a loaded
    /// session holds that optimizer, an empty session stays as it is.
    pub open spec fn select(self, family: IntegralFamily) -> Self {
        if self.loaded() {
            SessionView { optimizer: Some(family), ..self }
        } else {
            self
        }
    }

    /// The answer to the selection of an optimizer: the family of the one that
    /// was held and is dropped, or the refusal of an empty session.
    pub open spec fn select_answer(self) -> Result<Option<IntegralFamily>, CintError> {
        if self.loaded() {
            Ok(self.optimizer)
        } else {
            Err(CintError::NotLoaded)
        }
    }

    /// The session after teardown: a loaded session becomes the empty one, an
    /// empty session stays as it is.
    pub open spec fn teardown(self) -> Self {
        if self.loaded() {
            Self::empty()
        } else {
            self
        }
    }

    /// `shell` is the index of a shell of the loaded tables.
    pub open spec fn shell_in_range(self, shell: int) -> bool {
        self.tables matches Some(tables) && 0 <= shell < tables.nbas
    }

    /// Number of components of shell `shell` under the convention in force.
    pub open spec fn cgto(self, shell: int) -> int {
        shell_components(self.cint_type, self.tables.unwrap().bas, shell)
    }

    /// The answer to the question for the component count of shell `shell`.
    pub open spec fn cgto_answer(self, shell: int) -> Result<i32, CintError> {
        if !self.loaded() {
            Err(CintError::NotLoaded)
        } else if !self.shell_in_range(shell) {
            Err(CintError::ShellOutOfRange)
        } else if self.cgto(shell) > i32::MAX {
            Err(CintError::ComponentOverflow)
        } else {
            Ok(self.cgto(shell) as i32)
        }
    }

    /// Every index in `shls` is the index of a shell.
    pub open spec fn shells_in_range(self, shls: Seq<i32>) -> bool {
        forall|k: int| 0 <= k < shls.len() ==> self.shell_in_range(#[trigger] shls[k] as int)
    }

    /// The component count of every shell in `shls` fits an `i32`.
    pub open spec fn counts_fit(self, shls: Seq<i32>) -> bool {
        forall|k: int| 0 <= k < shls.len() ==> self.cgto(#[trigger] shls[k] as int) <= i32::MAX
    }

    /// Number of integrals in one block over the shells `shls`: the product of
    /// their component counts.
    pub open spec fn block_len(self, shls: Seq<i32>) -> int
        decreases shls.len(),
    {
        if shls.len() == 0 {
            1
        } else {
            self.block_len(shls.drop_last()) * self.cgto(shls.last() as int)
        }
    }

    /// Number of values that a request of `family` over `shls` writes: one
    /// block, or three for a gradient.
    pub open spec fn output_len(self, family: IntegralFamily, shls: Seq<i32>) -> int {
        family.blocks() * self.block_len(shls)
    }

    /// Why a request of `family` over the shells `shls` is refused, if it is.
    /// The first that applies: no tables; a wrong number of shells; an
    /// optimizer of another family; a shell index out of range; a component
    /// count beyond `i32`; an output beyond `usize`.
    pub open spec fn call_error(self, family: IntegralFamily, shls: Seq<i32>) -> Option<
        CintError,
    > {
        if !self.loaded() {
            Some(CintError::NotLoaded)
        } else if shls.len() != family.arity() {
            Some(CintError::ShellArity)
        } else if self.optimizer is Some && self.optimizer != Some(family) {
            Some(CintError::OptimizerMismatch)
        } else if !self.shells_in_range(shls) {
            Some(CintError::ShellOutOfRange)
        } else if !self.counts_fit(shls) {
            Some(CintError::ComponentOverflow)
        } else if self.output_len(family, shls) > usize::MAX {
            Some(CintError::BufferTooLarge)
        } else {
            None
        }
    }

    /// The foreign call that serves a request of `family` over `shls`. The
    /// optimizer goes with the call if it is the one of `family`.
    pub open spec fn call(self, family: IntegralFamily, shls: Seq<i32>) -> CallView {
        CallView {
            family,
            cint_type: self.cint_type,
            shls,
            len: self.output_len(family, shls),
            optimized: self.optimizer == Some(family),
        }
    }

    /// The answer to a request of `family` over `shls`: the call that serves
    /// it, or the reason why it is refused.
    pub open spec fn plan(self, family: IntegralFamily, shls: Seq<i32>) -> Result<
        CallView,
        CintError,
    > {
        match self.call_error(family, shls) {
            Some(e) => Err(e),
            None => Ok(self.call(family, shls)),
        }
    }
}

/// Every operation leaves a well-formed session well formed.
pub proof fn lemma_operations_keep_wf<E>(
    session: SessionView<E>,
    cint_type: CintType,
    family: IntegralFamily,
    atm: Seq<Seq<i32>>,
    natm: int,
    bas: Seq<Seq<i32>>,
    nbas: int,
    env: Seq<E>,
)
    requires
        session.wf(),
        natm <= i32::MAX,
        nbas <= i32::MAX,
    ensures
        SessionView::<E>::empty().wf(),
        session.with_cint_type(cint_type).wf(),
        session.ingest(atm, natm, bas, nbas, env).wf(),
        session.select(family).wf(),
        session.without_optimizer().wf(),
        session.teardown().wf(),
{
    if session.ingest_error(atm, natm, bas, nbas) is None {
        lemma_ingest(session, atm, natm, bas, nbas, env);
    }
}

/// Tables without fault are loaded as they were given, whatever was loaded
/// before, and no optimizer is held afterwards. The offset table has one entry
/// per shell and one more, starts at 0, never decreases, and ends with the
/// number of components of all shells under the convention in force.
pub proof fn lemma_ingest<E>(
    session: SessionView<E>,
    atm: Seq<Seq<i32>>,
    natm: int,
    bas: Seq<Seq<i32>>,
    nbas: int,
    env: Seq<E>,
)
    requires
        natm <= i32::MAX,
        nbas <= i32::MAX,
        session.ingest_error(atm, natm, bas, nbas) is None,
    ensures
        session.ingest(atm, natm, bas, nbas, env) == session.with_tables(atm, bas, env),
        session.ingest(atm, natm, bas, nbas, env) == SessionView::<E>::empty().with_cint_type(
            session.cint_type,
        ).with_tables(atm, bas, env),
        session.ingest(atm, natm, bas, nbas, env).wf(),
        session.ingest(atm, natm, bas, nbas, env).optimizer is None,
        session.ingest(atm, natm, bas, nbas, env).tables.unwrap().ao_loc.len() == nbas + 1,
        session.ingest(atm, natm, bas, nbas, env).tables.unwrap().ao_loc[0] == 0,
        offsets_ascend(session.ingest(atm, natm, bas, nbas, env).tables.unwrap().ao_loc),
        session.ingest(atm, natm, bas, nbas, env).tables.unwrap().ao_loc.last()
            == total_components(session.cint_type, bas.flatten()),
{
    lemma_flatten_len(atm, ATM_SLOTS as int);
    lemma_flatten_len(bas, BAS_SLOTS as int);
    let flat = bas.flatten();
    let ao_loc = ao_table(session.cint_type, flat);
    lemma_ao_table(session.cint_type, flat, 0);
    assert forall|i: int, j: int| 0 <= i <= j < ao_loc.len() implies ao_loc[i] <= ao_loc[j] by {
        lemma_ao_table_monotone(session.cint_type, flat, i, j);
    }
}

/// Teardown of an empty session changes nothing, and an ingestion after it
/// goes as if the teardown had not happened.
pub proof fn lemma_teardown_of_empty<E>(
    session: SessionView<E>,
    atm: Seq<Seq<i32>>,
    natm: int,
    bas: Seq<Seq<i32>>,
    nbas: int,
    env: Seq<E>,
)
    requires
        !session.loaded(),
    ensures
        session.teardown() == session,
        session.teardown().ingest_answer(atm, natm, bas, nbas) == session.ingest_answer(
            atm,
            natm,
            bas,
            nbas,
        ),
        session.teardown().ingest(atm, natm, bas, nbas, env) == session.ingest(
            atm,
            natm,
            bas,
            nbas,
            env,
        ),
{
}

/// Teardown of a loaded session gives the session that `new` gives. After a
/// teardown nothing is loaded and no optimizer is held, and a second teardown
/// changes nothing.
pub proof fn lemma_teardown<E>(session: SessionView<E>)
    requires
        session.wf(),
    ensures
        session.loaded() ==> session.teardown() == SessionView::<E>::empty(),
        !session.teardown().loaded(),
        session.teardown().optimizer is None,
        session.teardown().teardown() == session.teardown(),
{
}

/// A selected optimizer is held until the next ingestion, teardown, selection
/// or drop; a change of convention keeps it. After an ingestion none is held.
pub proof fn lemma_optimizer_scope<E>(
    session: SessionView<E>,
    family: IntegralFamily,
    cint_type: CintType,
    atm: Seq<Seq<i32>>,
    natm: int,
    bas: Seq<Seq<i32>>,
    nbas: int,
    env: Seq<E>,
)
    requires
        session.loaded(),
    ensures
        session.select(family).optimizer == Some(family),
        session.select(family).tables == session.tables,
        session.select(family).with_cint_type(cint_type).optimizer == Some(family),
        session.select(family).without_optimizer().optimizer is None,
        session.select(family).teardown().optimizer is None,
        session.select(family).ingest_error(atm, natm, bas, nbas) is None ==> session.select(
            family,
        ).ingest(atm, natm, bas, nbas, env).optimizer is None,
{
}

/// The same tables ingested under the two conventions get the same offset
/// table exactly when the conventions agree on every shell, that is when each
/// shell is of s or p type or holds no function.
pub proof fn lemma_ingest_convention_switch<E>(
    session: SessionView<E>,
    atm: Seq<Seq<i32>>,
    natm: int,
    bas: Seq<Seq<i32>>,
    nbas: int,
    env: Seq<E>,
)
    requires
        session.with_cint_type(CintType::Spheric).ingest_error(atm, natm, bas, nbas) is None,
        session.with_cint_type(CintType::Cartesian).ingest_error(atm, natm, bas, nbas) is None,
    ensures
        session.with_cint_type(CintType::Spheric).ingest(
            atm,
            natm,
            bas,
            nbas,
            env,
        ).tables.unwrap().ao_loc == session.with_cint_type(CintType::Cartesian).ingest(
            atm,
            natm,
            bas,
            nbas,
            env,
        ).tables.unwrap().ao_loc <==> forall|shell: int|
            0 <= shell < nbas ==> conventions_agree_on(bas.flatten(), shell),
{
    lemma_flatten_len(bas, BAS_SLOTS as int);
    lemma_convention_switch(bas.flatten());
}

/// A shell of well-formed tables has no negative number of components, under
/// either convention.
pub proof fn lemma_cgto_nonnegative<E>(session: SessionView<E>, shell: int)
    requires
        session.wf(),
        session.shell_in_range(shell),
    ensures
        0 <= session.cgto(shell),
        0 <= session.with_cint_type(CintType::Spheric).cgto(shell) <= session.with_cint_type(
            CintType::Cartesian,
        ).cgto(shell),
{
    let bas = session.tables.unwrap().bas;
    lemma_component_count_bounds(shell_ang(bas, shell), shell_nctr(bas, shell));
}

/// The number of integrals in a block over two, three and four shells is the
/// product of their component counts.
pub proof fn lemma_block_len<E>(session: SessionView<E>, i: i32, j: i32, k: i32, l: i32)
    ensures
        session.block_len(seq![i, j]) == session.cgto(i as int) * session.cgto(j as int),
        session.block_len(seq![i, j, k]) == session.cgto(i as int) * session.cgto(j as int)
            * session.cgto(k as int),
        session.block_len(seq![i, j, k, l]) == session.cgto(i as int) * session.cgto(j as int)
            * session.cgto(k as int) * session.cgto(l as int),
{
    let one = seq![i];
    let two = seq![i, j];
    let three = seq![i, j, k];
    let four = seq![i, j, k, l];
    assert(one.drop_last() == Seq::<i32>::empty());
    assert(two.drop_last() == one);
    assert(three.drop_last() == two);
    assert(four.drop_last() == three);
    let (di, dj, dk, dl) = (
        session.cgto(i as int),
        session.cgto(j as int),
        session.cgto(k as int),
        session.cgto(l as int),
    );
    assert(session.block_len(one.drop_last()) == 1);
    assert(session.block_len(one) == di) by (nonlinear_arith)
        requires
            session.block_len(one) == 1 * di,
    ;
    assert(session.block_len(two) == di * dj);
    assert(session.block_len(three) == di * dj * dk);
    assert(session.block_len(four) == di * dj * dk * dl);
}

/// A request is answered with a call exactly when nothing speaks against it,
/// and the call then has the family and the shells of the request, the
/// convention in force, and room for every integral.
pub proof fn lemma_plan<E>(session: SessionView<E>, family: IntegralFamily, shls: Seq<i32>)
    ensures
        session.plan(family, shls) is Ok <==> session.call_error(family, shls) is None,
        session.plan(family, shls) matches Ok(call) ==> {
            &&& session.loaded()
            &&& call.family == family
            &&& call.cint_type == session.cint_type
            &&& call.shls == shls
            &&& call.shls.len() == family.arity()
            &&& call.len == family.blocks() * session.block_len(shls)
            &&& call.len <= usize::MAX
            &&& call.optimized <==> session.optimizer is Some
        },
{
}

} // verus!
