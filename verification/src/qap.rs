//! From the constraints of a circuit to its quadratic arithmetic program.
//!
//! A circuit is synthesized into rows, one for each constraint and side,
//! whose terms name variables. The program holds columns, one for each
//! variable and side, whose terms name constraints.

use crate::curve::{scalar_one, Scalar};
use crate::error::Phase2Error;
use crate::polynomial::{side_views, term_views, AssemblyView, KeypairAssembly, Terms};
use vstd::prelude::*;

verus! {

/// A variable of a circuit.
#[derive(Clone, Copy, Debug, PartialEq, Eq, Structural)]
pub enum Index {
    /// A public variable, by its number among the public ones.
    Public(usize),
    /// A private variable, by its number among the private ones.
    Private(usize),
}

/// The constraints of a synthesized circuit: for each constraint and side a
/// linear combination of variables.
pub struct Constraints {
    pub num_public_variables: usize,
    pub num_private_variables: usize,
    pub a: Vec<Vec<(Scalar, Index)>>,
    pub b: Vec<Vec<(Scalar, Index)>>,
    pub c: Vec<Vec<(Scalar, Index)>>,
}

/// The place of a variable among all variables: the public ones come
/// first.
pub open spec fn spec_position(index: Index, num_public: nat) -> nat {
    match index {
        Index::Public(i) => i as nat,
        Index::Private(j) => (num_public + j) as nat,
    }
}

/// Whether `index` names one of the variables of the circuit.
pub open spec fn index_in_range(index: Index, num_public: nat, num_private: nat) -> bool {
    match index {
        Index::Public(i) => i < num_public,
        Index::Private(j) => j < num_private,
    }
}

/// A row as plain values, its variables by their places.
pub open spec fn row_view(row: Seq<(Scalar, Index)>, num_public: nat) -> Terms {
    Seq::new(row.len(), |t: int| (row[t].0@, spec_position(row[t].1, num_public)))
}

/// The rows of one side as plain values.
pub open spec fn rows_view(rows: Seq<Vec<(Scalar, Index)>>, num_public: nat) -> Seq<Terms> {
    Seq::new(rows.len(), |k: int| row_view(rows[k]@, num_public))
}

/// Every term of every row names one of the variables of the circuit.
pub open spec fn rows_in_range(rows: Seq<Vec<(Scalar, Index)>>, num_public: nat, num_private: nat) -> bool {
    forall|k: int, t: int|
        0 <= k < rows.len() && 0 <= t < rows[k]@.len() ==> index_in_range(
            (#[trigger] rows[k]@[t]).1,
            num_public,
            num_private,
        )
}

/// The constraints of a circuit as plain values.
pub struct ConstraintsView {
    pub num_public_variables: nat,
    pub num_private_variables: nat,
    pub a: Seq<Terms>,
    pub b: Seq<Terms>,
    pub c: Seq<Terms>,
}

impl View for Constraints {
    type V = ConstraintsView;

    open spec fn view(&self) -> ConstraintsView {
        ConstraintsView {
            num_public_variables: self.num_public_variables as nat,
            num_private_variables: self.num_private_variables as nat,
            a: rows_view(self.a@, self.num_public_variables as nat),
            b: rows_view(self.b@, self.num_public_variables as nat),
            c: rows_view(self.c@, self.num_public_variables as nat),
        }
    }
}

impl Constraints {
    /// The three sides have one row for each constraint, the variables can
    /// be numbered, and every term names one of them.
    pub open spec fn wf(&self) -> bool {
        &&& self.a@.len() == self.b@.len()
        &&& self.a@.len() == self.c@.len()
        &&& self.num_public_variables + self.num_private_variables <= usize::MAX
        &&& self.a@.len() + self.num_public_variables <= usize::MAX
        &&& rows_in_range(
            self.a@,
            self.num_public_variables as nat,
            self.num_private_variables as nat,
        )
        &&& rows_in_range(
            self.b@,
            self.num_public_variables as nat,
            self.num_private_variables as nat,
        )
        &&& rows_in_range(
            self.c@,
            self.num_public_variables as nat,
            self.num_private_variables as nat,
        )
    }
}

/// What the first `count` terms of row `k` give to the column of the
/// variable `v`: a term with the number of the constraint for each term
/// that names the variable.
pub open spec fn row_part(row: Terms, v: nat, k: nat, count: nat) -> Terms
    decreases count,
{
    if count == 0 {
        Seq::empty()
    } else {
        let before = row_part(row, v, k, (count - 1) as nat);
        if row[count - 1].1 == v {
            before.push((row[count - 1].0, k))
        } else {
            before
        }
    }
}

/// The column of the variable `v` as far as the first `count` rows give it.
pub open spec fn column_upto(rows: Seq<Terms>, v: nat, count: nat) -> Terms
    decreases count,
{
    if count == 0 {
        Seq::empty()
    } else {
        column_upto(rows, v, (count - 1) as nat) + row_part(
            rows[count - 1],
            v,
            (count - 1) as nat,
            rows[count - 1].len(),
        )
    }
}

/// The columns of one side: for each variable the terms of all rows that
/// name it, in the order of the rows, with the numbers of their
/// constraints.
pub open spec fn spec_transpose(rows: Seq<Terms>, variables: nat) -> Seq<Terms> {
    Seq::new(variables, |v: int| column_upto(rows, v as nat, rows.len()))
}

/// The rows that make the query of the public variables dense: for each
/// public variable the constraint `variable * 0 = 0`, whose left side is
/// the variable itself.
pub open spec fn input_rows(num_public: nat) -> Seq<Terms> {
    Seq::new(num_public, |i: int| seq![(scalar_one(), i as nat)])
}

/// As many empty rows as there are public variables.
pub open spec fn empty_rows(num_public: nat) -> Seq<Terms> {
    Seq::new(num_public, |i: int| Seq::empty())
}

/// The program of a circuit: its constraints, followed by one constraint
/// for each public variable, turned from rows into columns.
pub open spec fn spec_circuit_to_qap(circuit: ConstraintsView) -> AssemblyView {
    let variables = circuit.num_public_variables + circuit.num_private_variables;
    AssemblyView {
        num_public_variables: circuit.num_public_variables,
        num_private_variables: circuit.num_private_variables,
        at: spec_transpose(circuit.a + input_rows(circuit.num_public_variables), variables),
        bt: spec_transpose(circuit.b + empty_rows(circuit.num_public_variables), variables),
        ct: spec_transpose(circuit.c + empty_rows(circuit.num_public_variables), variables),
    }
}

/// The place of a variable among all variables.
fn position(index: Index, num_public: usize, num_private: usize) -> (place: usize)
    requires
        index_in_range(index, num_public as nat, num_private as nat),
        num_public + num_private <= usize::MAX,
    ensures
        place == spec_position(index, num_public as nat),
        place < num_public + num_private,
{
    match index {
        Index::Public(i) => i,
        Index::Private(j) => num_public + j,
    }
}

/// Whether every term of every row names one of the variables.
fn check_rows(rows: &Vec<Vec<(Scalar, Index)>>, num_public: usize, num_private: usize) -> (ok: bool)
    ensures
        ok == rows_in_range(rows@, num_public as nat, num_private as nat),
{
    let mut k: usize = 0;
    while k < rows.len()
        invariant
            k <= rows@.len(),
            forall|i: int, t: int|
                0 <= i < k && 0 <= t < rows@[i]@.len() ==> index_in_range(
                    (#[trigger] rows@[i]@[t]).1,
                    num_public as nat,
                    num_private as nat,
                ),
        decreases rows@.len() - k,
    {
        let row = &rows[k];
        let mut t: usize = 0;
        while t < row.len()
            invariant
                t <= row@.len(),
                k < rows@.len(),
                row@ == rows@[k as int]@,
                forall|u: int|
                    0 <= u < t ==> index_in_range(
                        (#[trigger] row@[u]).1,
                        num_public as nat,
                        num_private as nat,
                    ),
            decreases row@.len() - t,
        {
            let in_range = match row[t].1 {
                Index::Public(i) => i < num_public,
                Index::Private(j) => j < num_private,
            };
            if !in_range {
                assert(!index_in_range(
                    rows@[k as int]@[t as int].1,
                    num_public as nat,
                    num_private as nat,
                ));
                return false;
            }
            t += 1;
        }
        k += 1;
    }
    true
}

/// The columns so far: what the rows before `k` and the first `t` terms of
/// row `k` give.
spec fn columns_match(
    columns: Seq<Vec<(Scalar, usize)>>,
    rows: Seq<Terms>,
    k: nat,
    t: nat,
) -> bool {
    forall|v: int|
        0 <= v < columns.len() ==> term_views((#[trigger] columns[v])@) == column_upto(
            rows,
            v as nat,
            k,
        ) + row_part(rows[k as int], v as nat, k, t)
}

/// Turns the rows of one side into columns, one for each variable.
fn transpose(rows: &Vec<Vec<(Scalar, Index)>>, num_public: usize, num_private: usize) -> (columns: Vec<
    Vec<(Scalar, usize)>,
>)
    requires
        num_public + num_private <= usize::MAX,
        rows_in_range(rows@, num_public as nat, num_private as nat),
    ensures
        side_views(columns@) == spec_transpose(
            rows_view(rows@, num_public as nat),
            (num_public + num_private) as nat,
        ),
{
    let variables = num_public + num_private;
    let ghost view = rows_view(rows@, num_public as nat);
    let mut columns: Vec<Vec<(Scalar, usize)>> = Vec::new();
    let mut v: usize = 0;
    while v < variables
        invariant
            v <= variables,
            columns@.len() == v,
            forall|i: int| 0 <= i < v ==> (#[trigger] columns@[i])@.len() == 0,
        decreases variables - v,
    {
        columns.push(Vec::new());
        v += 1;
    }
    let mut k: usize = 0;
    proof {
        assert forall|i: int| 0 <= i < columns@.len() implies term_views((#[trigger] columns@[i])@)
            == column_upto(view, i as nat, 0) + row_part(view[0], i as nat, 0, 0) by {
            assert(term_views(columns@[i]@) =~= Seq::<(Seq<u8>, nat)>::empty());
            assert(column_upto(view, i as nat, 0) + row_part(view[0], i as nat, 0, 0)
                =~= Seq::<(Seq<u8>, nat)>::empty());
        }
    }
    while k < rows.len()
        invariant
            k <= rows@.len(),
            variables == num_public + num_private,
            view == rows_view(rows@, num_public as nat),
            rows_in_range(rows@, num_public as nat, num_private as nat),
            columns@.len() == variables,
            columns_match(columns@, view, k as nat, 0),
        decreases rows@.len() - k,
    {
        let row = &rows[k];
        let mut t: usize = 0;
        while t < row.len()
            invariant
                t <= row@.len(),
                k < rows@.len(),
                row@ == rows@[k as int]@,
                variables == num_public + num_private,
                view == rows_view(rows@, num_public as nat),
                rows_in_range(rows@, num_public as nat, num_private as nat),
                columns@.len() == variables,
                columns_match(columns@, view, k as nat, t as nat),
            decreases row@.len() - t,
        {
            assert(index_in_range(rows@[k as int]@[t as int].1, num_public as nat, num_private as nat));
            let place = position(row[t].1, num_public, num_private);
            let coefficient = row[t].0.clone();
            let ghost before = columns@;
            let ghost added = (coefficient@, k as nat);
            let mut column: Vec<(Scalar, usize)> = Vec::new();
            std::mem::swap(&mut column, &mut columns[place]);
            column.push((coefficient, k));
            columns.set(place, column);
            proof {
                assert(view[k as int][t as int] == (coefficient@, place as nat));
                assert forall|i: int| 0 <= i < columns@.len() implies term_views(
                    (#[trigger] columns@[i])@,
                ) == column_upto(view, i as nat, k as nat) + row_part(
                    view[k as int],
                    i as nat,
                    k as nat,
                    (t + 1) as nat,
                ) by {
                    let so_far = column_upto(view, i as nat, k as nat);
                    let part = row_part(view[k as int], i as nat, k as nat, t as nat);
                    assert(term_views(before[i]@) == so_far + part);
                    if i == place {
                        assert(term_views(columns@[i]@) =~= term_views(before[i]@).push(added));
                        assert((so_far + part).push(added) =~= so_far + part.push(added));
                    } else {
                        assert(columns@[i] == before[i]);
                    }
                }
            }
            t += 1;
        }
        proof {
            assert forall|i: int| 0 <= i < columns@.len() implies term_views(
                (#[trigger] columns@[i])@,
            ) == column_upto(view, i as nat, (k + 1) as nat) + row_part(
                view[k + 1],
                i as nat,
                (k + 1) as nat,
                0,
            ) by {
                assert(row@.len() == view[k as int].len());
                assert(column_upto(view, i as nat, (k + 1) as nat) + Seq::<(Seq<u8>, nat)>::empty()
                    =~= column_upto(view, i as nat, (k + 1) as nat));
            }
        }
        k += 1;
    }
    proof {
        assert forall|i: int| 0 <= i < columns@.len() implies term_views((#[trigger] columns@[i])@)
            == column_upto(view, i as nat, view.len()) by {
            assert(column_upto(view, i as nat, k as nat) + Seq::<(Seq<u8>, nat)>::empty()
                =~= column_upto(view, i as nat, k as nat));
        }
        assert(side_views(columns@) =~= spec_transpose(view, variables as nat));
    }
    columns
}

/// Turns the constraints of a synthesized circuit into its program. One
/// constraint is added for each public variable, which makes the query of
/// the public variables dense; then the rows are turned into columns.
///
/// Fails with `InvalidLength` if the sides differ in their number of rows,
/// if a term names a variable that the circuit does not have, or if the
/// variables or the constraints are too many to be numbered.
pub fn circuit_to_qap(circuit: Constraints) -> (r: Result<KeypairAssembly, Phase2Error>)
    ensures
        match r {
            Ok(assembly) => circuit.wf() && assembly@ == spec_circuit_to_qap(circuit@),
            Err(e) => e == Phase2Error::InvalidLength && !circuit.wf(),
        },
{
    let num_public = circuit.num_public_variables;
    let num_private = circuit.num_private_variables;
    if circuit.b.len() != circuit.a.len() || circuit.c.len() != circuit.a.len() {
        return Err(Phase2Error::InvalidLength);
    }
    if num_private > usize::MAX - num_public || circuit.a.len() > usize::MAX - num_public {
        return Err(Phase2Error::InvalidLength);
    }
    if !check_rows(&circuit.a, num_public, num_private) || !check_rows(
        &circuit.b,
        num_public,
        num_private,
    ) || !check_rows(&circuit.c, num_public, num_private) {
        return Err(Phase2Error::InvalidLength);
    }
    let ghost given = circuit@;
    let mut a = circuit.a;
    let mut b = circuit.b;
    let mut c = circuit.c;
    let mut i: usize = 0;
    proof {
        assert(rows_view(a@, num_public as nat) =~= given.a + input_rows(num_public as nat).take(0));
        assert(rows_view(b@, num_public as nat) =~= given.b + empty_rows(num_public as nat).take(0));
        assert(rows_view(c@, num_public as nat) =~= given.c + empty_rows(num_public as nat).take(0));
    }
    while i < num_public
        invariant
            i <= num_public,
            num_public + num_private <= usize::MAX,
            rows_in_range(a@, num_public as nat, num_private as nat),
            rows_in_range(b@, num_public as nat, num_private as nat),
            rows_in_range(c@, num_public as nat, num_private as nat),
            rows_view(a@, num_public as nat) == given.a + input_rows(num_public as nat).take(i as int),
            rows_view(b@, num_public as nat) == given.b + empty_rows(num_public as nat).take(i as int),
            rows_view(c@, num_public as nat) == given.c + empty_rows(num_public as nat).take(i as int),
        decreases num_public - i,
    {
        let ghost a_before = a@;
        let ghost b_before = b@;
        let ghost c_before = c@;
        let mut row: Vec<(Scalar, Index)> = Vec::new();
        row.push((Scalar::one(), Index::Public(i)));
        let empty_b: Vec<(Scalar, Index)> = Vec::new();
        let empty_c: Vec<(Scalar, Index)> = Vec::new();
        proof {
            assert(row_view(row@, num_public as nat) =~= seq![(scalar_one(), i as nat)]);
            assert(row_view(empty_b@, num_public as nat) =~= Seq::<(Seq<u8>, nat)>::empty());
            assert(row_view(empty_c@, num_public as nat) =~= Seq::<(Seq<u8>, nat)>::empty());
        }
        a.push(row);
        b.push(empty_b);
        c.push(empty_c);
        proof {
            assert(rows_view(a@, num_public as nat) =~= rows_view(a_before, num_public as nat).push(
                input_rows(num_public as nat)[i as int],
            ));
            assert(rows_view(b@, num_public as nat) =~= rows_view(b_before, num_public as nat).push(
                empty_rows(num_public as nat)[i as int],
            ));
            assert(rows_view(c@, num_public as nat) =~= rows_view(c_before, num_public as nat).push(
                empty_rows(num_public as nat)[i as int],
            ));
            assert(rows_view(a@, num_public as nat) =~= given.a + input_rows(num_public as nat).take(
                i + 1,
            ));
            assert(rows_view(b@, num_public as nat) =~= given.b + empty_rows(num_public as nat).take(
                i + 1,
            ));
            assert(rows_view(c@, num_public as nat) =~= given.c + empty_rows(num_public as nat).take(
                i + 1,
            ));
            assert forall|k: int, t: int| 0 <= k < a@.len() && 0 <= t < a@[k]@.len() implies index_in_range(
                (#[trigger] a@[k]@[t]).1,
                num_public as nat,
                num_private as nat,
            ) by {
                if k < a_before.len() {
                    assert(a@[k] == a_before[k]);
                }
            }
            assert forall|k: int, t: int| 0 <= k < b@.len() && 0 <= t < b@[k]@.len() implies index_in_range(
                (#[trigger] b@[k]@[t]).1,
                num_public as nat,
                num_private as nat,
            ) by {
                if k < b_before.len() {
                    assert(b@[k] == b_before[k]);
                }
            }
            assert forall|k: int, t: int| 0 <= k < c@.len() && 0 <= t < c@[k]@.len() implies index_in_range(
                (#[trigger] c@[k]@[t]).1,
                num_public as nat,
                num_private as nat,
            ) by {
                if k < c_before.len() {
                    assert(c@[k] == c_before[k]);
                }
            }
        }
        i += 1;
    }
    proof {
        assert(input_rows(num_public as nat).take(num_public as int) =~= input_rows(
            num_public as nat,
        ));
        assert(empty_rows(num_public as nat).take(num_public as int) =~= empty_rows(
            num_public as nat,
        ));
    }
    let at = transpose(&a, num_public, num_private);
    let bt = transpose(&b, num_public, num_private);
    let ct = transpose(&c, num_public, num_private);
    Ok(
        KeypairAssembly {
            num_public_variables: num_public,
            num_private_variables: num_private,
            at,
            bt,
            ct,
        },
    )
}

} // verus!
