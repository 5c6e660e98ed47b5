//! Shell records, component counts and the table of atomic-orbital offsets.

use vstd::prelude::*;
use crate::error::CintError;

verus! {

/// Number of integers in one atom record.
pub const ATM_SLOTS: usize = 6;

/// Number of integers in one shell record.
pub const BAS_SLOTS: usize = 8;

/// Slot of a shell record that holds the angular momentum.
pub const ANG_OF: usize = 1;

/// Slot of a shell record that holds the number of contracted functions.
pub const NCTR_OF: usize = 3;

/// How the angular components of a shell are counted and ordered.
#[derive(Clone, Copy, Debug, PartialEq, Eq, Structural)]
pub enum CintType {
    Spheric,
    Cartesian,
}

/// Number of scalar components of a shell with angular momentum `l` and
/// `nctr` contracted functions.
pub open spec fn component_count(cint_type: CintType, l: int, nctr: int) -> int {
    match cint_type {
        CintType::Spheric => (2 * l + 1) * nctr,
        CintType::Cartesian => ((l + 1) * (l + 2) / 2) * nctr,
    }
}

/// Component count of one shell, or why it cannot be given.
pub fn cgto(cint_type: CintType, l: i32, nctr: i32) -> (count: Result<i32, CintError>)
    ensures
        count == if l < 0 || nctr < 0 {
            Err::<i32, CintError>(CintError::NegativeShell)
        } else if component_count(cint_type, l as int, nctr as int) > i32::MAX {
            Err(CintError::ComponentOverflow)
        } else {
            Ok(component_count(cint_type, l as int, nctr as int) as i32)
        },
{
    if l < 0 || nctr < 0 {
        return Err(CintError::NegativeShell);
    }
    let wide_l: u128 = l as u128;
    let wide_nctr: u128 = nctr as u128;
    let per_function: u128 = match cint_type {
        CintType::Spheric => 2 * wide_l + 1,
        CintType::Cartesian => {
            assert((wide_l + 1) * (wide_l + 2) <= 0x8000_0000 * 0x8000_0001) by (nonlinear_arith)
                requires
                    wide_l < 0x8000_0000,
            ;
            (wide_l + 1) * (wide_l + 2) / 2
        },
    };
    assert(per_function * wide_nctr <= 0x4000_0000_4000_0000 * 0x8000_0000) by (nonlinear_arith)
        requires
            per_function <= 0x4000_0000_4000_0000,
            wide_nctr < 0x8000_0000,
    ;
    let count: u128 = per_function * wide_nctr;
    if count > i32::MAX as u128 {
        Err(CintError::ComponentOverflow)
    } else {
        Ok(count as i32)
    }
}

/// The records of a table, each as the sequence of its integers.
pub open spec fn records(rows: Seq<Vec<i32>>) -> Seq<Seq<i32>> {
    rows.map_values(|row: Vec<i32>| row@)
}

/// Every record has exactly `width` integers.
pub open spec fn uniform(rows: Seq<Seq<i32>>, width: int) -> bool {
    forall|r: int| 0 <= r < rows.len() ==> (#[trigger] rows[r]).len() == width
}

/// Lays the records of a table out one after the other, in their order, as the
/// native library reads them. Gives nothing if a record is not `width` long.
pub fn flatten(rows: &Vec<Vec<i32>>, width: usize) -> (flat: Option<Vec<i32>>)
    ensures
        flat is Some <==> uniform(records(rows@), width as int),
        flat matches Some(f) ==> f@ == records(rows@).flatten() && f@.len() == rows@.len() * width,
{
    let mut flat: Vec<i32> = Vec::new();
    let mut r: usize = 0;
    while r < rows.len()
        invariant
            r <= rows.len(),
            uniform(records(rows@).take(r as int), width as int),
            flat@ == records(rows@).take(r as int).flatten(),
            flat@.len() == r * width,
        decreases rows.len() - r,
    {
        let row = &rows[r];
        if row.len() != width {
            assert(records(rows@)[r as int].len() != width);
            return None;
        }
        let ghost before = flat@;
        let mut c: usize = 0;
        while c < width
            invariant
                c <= width,
                row@.len() == width,
                flat@ == before + row@.take(c as int),
            decreases width - c,
        {
            flat.push(row[c]);
            proof {
            }
            c += 1;
        }
        proof {
            let seen = records(rows@).take(r as int);
            assert(records(rows@).take(r + 1) == seen.push(row@));
            seen.lemma_flatten_push(row@);
            assert((r + 1) * width == r * width + width) by (nonlinear_arith);
        }
        r += 1;
    }
    proof {
        assert(records(rows@).take(r as int) == records(rows@));
    }
    Some(flat)
}

/// A table of `n` records of one width is `n * width` integers long.
pub proof fn lemma_flatten_len(rows: Seq<Seq<i32>>, width: int)
    requires
        uniform(rows, width),
    ensures
        rows.flatten().len() == rows.len() * width,
    decreases rows.len(),
{
    if rows.len() == 0 {
    } else {
        let init = rows.drop_last();
        assert(rows == init.push(rows.last()));
        init.lemma_flatten_push(rows.last());
        lemma_flatten_len(init, width);
        assert(rows.len() * width == init.len() * width + width) by (nonlinear_arith)
            requires
                rows.len() == init.len() + 1,
        ;
    }
}

/// In a table of records of one width, the integer in slot `slot` of record
/// `r` lies at position `r * width + slot` of the flat layout.
pub proof fn lemma_flatten_index(rows: Seq<Seq<i32>>, width: int, r: int, slot: int)
    requires
        uniform(rows, width),
        0 <= r < rows.len(),
        0 <= slot < width,
    ensures
        0 <= r * width + slot < rows.flatten().len(),
        rows.flatten()[r * width + slot] == rows[r][slot],
    decreases rows.len(),
{
    let init = rows.drop_last();
    assert(rows == init.push(rows.last()));
    init.lemma_flatten_push(rows.last());
    lemma_flatten_len(rows, width);
    lemma_flatten_len(init, width);
    if r < init.len() {
        lemma_flatten_index(init, width, r, slot);
    } else {
        assert(r * width == init.len() * width) by (nonlinear_arith)
            requires
                r == init.len(),
        ;
    }
}

/// The flat shell table holds whole records only.
pub open spec fn whole_records(bas: Seq<i32>) -> bool {
    bas.len() % (BAS_SLOTS as nat) == 0
}

/// Number of shells in a flat shell table.
pub open spec fn shell_count(bas: Seq<i32>) -> int {
    bas.len() as int / (BAS_SLOTS as int)
}

/// Angular momentum of shell `shell`.
pub open spec fn shell_ang(bas: Seq<i32>, shell: int) -> int {
    bas[shell * BAS_SLOTS + ANG_OF] as int
}

/// Number of contracted functions of shell `shell`.
pub open spec fn shell_nctr(bas: Seq<i32>, shell: int) -> int {
    bas[shell * BAS_SLOTS + NCTR_OF] as int
}

/// No shell has a negative angular momentum or contraction count.
pub open spec fn shells_nonnegative(bas: Seq<i32>) -> bool {
    forall|shell: int|
        0 <= shell < shell_count(bas) ==> 0 <= #[trigger] shell_ang(bas, shell) && 0 <= shell_nctr(
            bas,
            shell,
        )
}

/// Number of components of shell `shell`.
pub open spec fn shell_components(cint_type: CintType, bas: Seq<i32>, shell: int) -> int {
    component_count(cint_type, shell_ang(bas, shell), shell_nctr(bas, shell))
}

/// Number of components of the shells that come before shell `shell`.
pub open spec fn components_before(cint_type: CintType, bas: Seq<i32>, shell: int) -> int
    decreases shell,
{
    if shell <= 0 {
        0
    } else {
        components_before(cint_type, bas, shell - 1) + shell_components(cint_type, bas, shell - 1)
    }
}

/// Number of components of all shells together.
pub open spec fn total_components(cint_type: CintType, bas: Seq<i32>) -> int {
    components_before(cint_type, bas, shell_count(bas))
}

/// The offset table of a flat shell table: one entry per shell and one more,
/// each the number of components before that shell.
pub open spec fn ao_table(cint_type: CintType, bas: Seq<i32>) -> Seq<i32> {
    Seq::new(
        (shell_count(bas) + 1) as nat,
        |shell: int| components_before(cint_type, bas, shell) as i32,
    )
}

/// No entry of an offset table is below an earlier one.
pub open spec fn offsets_ascend(ao_loc: Seq<i32>) -> bool {
    forall|i: int, j: int| 0 <= i <= j < ao_loc.len() ==> ao_loc[i] <= ao_loc[j]
}

/// What is wrong with a flat shell table, if anything: the first of a broken
/// record, a negative field, and more components than an `i32` counts.
pub open spec fn basis_error(cint_type: CintType, bas: Seq<i32>) -> Option<CintError> {
    if !whole_records(bas) {
        Some(CintError::RecordWidth)
    } else if !shells_nonnegative(bas) {
        Some(CintError::NegativeShell)
    } else if total_components(cint_type, bas) > i32::MAX {
        Some(CintError::ComponentOverflow)
    } else {
        None
    }
}

/// A shell with non-negative fields has a non-negative number of components,
/// and at least as many Cartesian as spheric ones.
pub proof fn lemma_component_count_bounds(l: int, nctr: int)
    requires
        0 <= l,
        0 <= nctr,
    ensures
        0 <= component_count(CintType::Spheric, l, nctr) <= component_count(
            CintType::Cartesian,
            l,
            nctr,
        ),
{
    assert(2 * ((l + 1) * (l + 2) / 2) == (l + 1) * (l + 2)) by {
        lemma_consecutive_even(l + 1);
    }
    assert((l + 1) * (l + 2) >= 2 * (2 * l + 1)) by (nonlinear_arith)
        requires
            0 <= l,
    ;
    let sph = 2 * l + 1;
    let cart = (l + 1) * (l + 2) / 2;
    assert(0 <= sph * nctr <= cart * nctr) by (nonlinear_arith)
        requires
            0 <= sph <= cart,
            0 <= nctr,
    ;
}

/// Of two consecutive integers one is even, so their product is.
proof fn lemma_consecutive_even(n: int)
    ensures
        (n * (n + 1)) % 2 == 0,
{
    if n % 2 == 0 {
        let h = n / 2;
        assert(n * (n + 1) == 2 * (h * (n + 1))) by (nonlinear_arith)
            requires
                n == 2 * h,
        ;
    } else {
        let h = (n + 1) / 2;
        assert(n * (n + 1) == 2 * (n * h)) by (nonlinear_arith)
            requires
                n + 1 == 2 * h,
        ;
    }
}

/// The offsets never decrease from one shell to a later one.
pub proof fn lemma_offsets_monotone(cint_type: CintType, bas: Seq<i32>, first: int, second: int)
    requires
        shells_nonnegative(bas),
        0 <= first <= second <= shell_count(bas),
    ensures
        0 <= components_before(cint_type, bas, first) <= components_before(cint_type, bas, second),
    decreases second,
{
    if second > 0 {
        lemma_component_count_bounds(shell_ang(bas, second - 1), shell_nctr(bas, second - 1));
        if first < second {
            lemma_offsets_monotone(cint_type, bas, first, second - 1);
        } else {
            lemma_offsets_monotone(cint_type, bas, first - 1, second - 1);
        }
    }
}

/// In the offset table of a table without fault, entry `shell` is the number of
/// components before shell `shell`, the first entry is 0 and the last is the
/// number of components of all shells.
pub proof fn lemma_ao_table(cint_type: CintType, bas: Seq<i32>, shell: int)
    requires
        basis_error(cint_type, bas) is None,
        0 <= shell <= shell_count(bas),
    ensures
        ao_table(cint_type, bas).len() == shell_count(bas) + 1,
        ao_table(cint_type, bas)[shell] == components_before(cint_type, bas, shell),
        ao_table(cint_type, bas)[0] == 0,
        ao_table(cint_type, bas).last() == total_components(cint_type, bas),
{
    lemma_offsets_monotone(cint_type, bas, shell, shell_count(bas));
    lemma_offsets_monotone(cint_type, bas, 0, shell_count(bas));
}

/// The offset table of a table without fault never decreases from one shell to
/// a later one.
pub proof fn lemma_ao_table_monotone(cint_type: CintType, bas: Seq<i32>, first: int, second: int)
    requires
        basis_error(cint_type, bas) is None,
        0 <= first <= second <= shell_count(bas),
    ensures
        0 <= ao_table(cint_type, bas)[first] <= ao_table(cint_type, bas)[second],
{
    lemma_ao_table(cint_type, bas, first);
    lemma_ao_table(cint_type, bas, second);
    lemma_offsets_monotone(cint_type, bas, first, second);
}

/// Shell `shell` has the same number of components under both conventions: it
/// is of s or p type, or has no contracted function.
pub open spec fn conventions_agree_on(bas: Seq<i32>, shell: int) -> bool {
    shell_ang(bas, shell) <= 1 || shell_nctr(bas, shell) == 0
}

/// The two counts of one shell are equal exactly for angular momentum 0 and 1,
/// and where there is no contracted function.
pub proof fn lemma_component_counts_equal(l: int, nctr: int)
    requires
        0 <= l,
        0 <= nctr,
    ensures
        component_count(CintType::Spheric, l, nctr) == component_count(CintType::Cartesian, l, nctr)
            <==> (l <= 1 || nctr == 0),
{
    let sph = 2 * l + 1;
    let cart = (l + 1) * (l + 2) / 2;
    assert(2 * cart == (l + 1) * (l + 2)) by {
        lemma_consecutive_even(l + 1);
    }
    if l <= 1 {
        assert(cart == sph) by (nonlinear_arith)
            requires
                0 <= l <= 1,
                2 * cart == (l + 1) * (l + 2),
                sph == 2 * l + 1,
        ;
    } else {
        assert(cart > sph) by (nonlinear_arith)
            requires
                2 <= l,
                2 * cart == (l + 1) * (l + 2),
                sph == 2 * l + 1,
        ;
        if nctr > 0 {
            assert(cart * nctr > sph * nctr) by (nonlinear_arith)
                requires
                    cart > sph,
                    nctr > 0,
            ;
        }
    }
}

/// Before any shell there are at least as many Cartesian components as
/// spheric ones, and as many exactly when the conventions agree on every
/// earlier shell.
pub proof fn lemma_convention_gap(bas: Seq<i32>, shell: int)
    requires
        shells_nonnegative(bas),
        0 <= shell <= shell_count(bas),
    ensures
        components_before(CintType::Spheric, bas, shell) <= components_before(
            CintType::Cartesian,
            bas,
            shell,
        ),
        components_before(CintType::Spheric, bas, shell) == components_before(
            CintType::Cartesian,
            bas,
            shell,
        ) <==> forall|k: int| 0 <= k < shell ==> conventions_agree_on(bas, k),
    decreases shell,
{
    if shell > 0 {
        let last = shell - 1;
        lemma_convention_gap(bas, last);
        lemma_component_count_bounds(shell_ang(bas, last), shell_nctr(bas, last));
        lemma_component_counts_equal(shell_ang(bas, last), shell_nctr(bas, last));
        if forall|k: int| 0 <= k < shell ==> conventions_agree_on(bas, k) {
            assert(conventions_agree_on(bas, last));
        } else if forall|k: int| 0 <= k < last ==> conventions_agree_on(bas, k) {
            assert(!conventions_agree_on(bas, last));
        }
    }
}

/// The offset tables of one shell table under the two conventions are the same
/// exactly when the conventions agree on every shell. A table of s and p
/// shells has one offset table; a table with a d shell that holds a function
/// has two.
pub proof fn lemma_convention_switch(bas: Seq<i32>)
    requires
        basis_error(CintType::Spheric, bas) is None,
        basis_error(CintType::Cartesian, bas) is None,
    ensures
        ao_table(CintType::Spheric, bas) == ao_table(CintType::Cartesian, bas) <==> forall|k: int|
            0 <= k < shell_count(bas) ==> conventions_agree_on(bas, k),
{
    let n = shell_count(bas);
    let spheric = ao_table(CintType::Spheric, bas);
    let cartesian = ao_table(CintType::Cartesian, bas);
    lemma_convention_gap(bas, n);
    lemma_ao_table(CintType::Spheric, bas, n);
    lemma_ao_table(CintType::Cartesian, bas, n);
    if forall|k: int| 0 <= k < n ==> conventions_agree_on(bas, k) {
        assert forall|shell: int| 0 <= shell <= n implies spheric[shell] == cartesian[shell] by {
            lemma_convention_gap(bas, shell);
        }
        assert(spheric =~= cartesian);
    } else {
        assert(spheric[n] != cartesian[n]);
    }
}

/// Computes the offset table of a flat shell table: entry `k` is the number of
/// components of the shells before shell `k`, and the last entry is the number
/// of components of all shells.
pub fn ao_offsets(cint_type: CintType, bas: &[i32]) -> (result: Result<Vec<i32>, CintError>)
    ensures
        match result {
            Ok(ao_loc) => {
                &&& basis_error(cint_type, bas@) is None
                &&& ao_loc@ == ao_table(cint_type, bas@)
                &&& ao_loc@[0] == 0
                &&& ao_loc@.last() == total_components(cint_type, bas@)
                &&& offsets_ascend(ao_loc@)
            },
            Err(e) => basis_error(cint_type, bas@) == Some(e),
        },
{
    if bas.len() % BAS_SLOTS != 0 {
        return Err(CintError::RecordWidth);
    }
    let nbas: usize = bas.len() / BAS_SLOTS;
    let mut shell: usize = 0;
    while shell < nbas
        invariant
            shell <= nbas,
            nbas == shell_count(bas@),
            whole_records(bas@),
            bas@.len() <= usize::MAX,
            forall|k: int|
                0 <= k < shell ==> 0 <= #[trigger] shell_ang(bas@, k) && 0 <= shell_nctr(bas@, k),
        decreases nbas - shell,
    {
        if bas[shell * BAS_SLOTS + ANG_OF] < 0 || bas[shell * BAS_SLOTS + NCTR_OF] < 0 {
            assert(!(0 <= shell_ang(bas@, shell as int) && 0 <= shell_nctr(bas@, shell as int)));
            return Err(CintError::NegativeShell);
        }
        shell += 1;
    }
    let mut ao_loc: Vec<i32> = Vec::new();
    ao_loc.push(0);
    let mut sum: i32 = 0;
    shell = 0;
    while shell < nbas
        invariant
            shell <= nbas,
            nbas == shell_count(bas@),
            whole_records(bas@),
            bas@.len() <= usize::MAX,
            shells_nonnegative(bas@),
            sum == components_before(cint_type, bas@, shell as int),
            ao_loc@.len() == shell + 1,
            forall|k: int|
                0 <= k <= shell ==> #[trigger] ao_loc@[k] == components_before(cint_type, bas@, k),
        decreases nbas - shell,
    {
        let l: i32 = bas[shell * BAS_SLOTS + ANG_OF];
        let nctr: i32 = bas[shell * BAS_SLOTS + NCTR_OF];
        proof {
            lemma_offsets_monotone(cint_type, bas@, shell as int, shell as int);
            lemma_offsets_monotone(cint_type, bas@, shell + 1, nbas as int);
        }
        let next: i32 = match cgto(cint_type, l, nctr) {
            Ok(count) => {
                if count > i32::MAX - sum {
                    return Err(CintError::ComponentOverflow);
                }
                sum + count
            },
            Err(_) => {
                return Err(CintError::ComponentOverflow);
            },
        };
        sum = next;
        ao_loc.push(sum);
        shell += 1;
    }
    proof {
        assert forall|i: int, j: int| 0 <= i <= j < ao_loc@.len() implies ao_loc@[i] <= ao_loc@[j] by {
            lemma_offsets_monotone(cint_type, bas@, i, j);
        }
    }
    Ok(ao_loc)
}

} // verus!
