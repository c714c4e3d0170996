use vstd::prelude::*;

verus! {

use vstd::arithmetic::div_mod::lemma_fundamental_div_mod;
use vstd::arithmetic::div_mod::lemma_fundamental_div_mod_converse;
use vstd::pervasive::VecAdditionalExecFns;
use vstd::string::StringExecFns;
use crate::error::MatmulError;
use crate::text::{i64_text, push_i64_decimal};
use crate::vector::{dot, dot_product, Vector};

/// Number of workers in the fixed pool run by the threaded front end.
pub const NUM_THREADS: usize = 16;

/// A row-major matrix: element `(i, j)` lives at flat index `i * col + j`.
#[derive(Debug)]
pub struct Matrix {
    pub row: usize,
    pub col: usize,
    pub data: Vec<i64>,
}

/// One task: the description of a single output cell's computation.
/// The dispatcher builds one per cell and hands it to a worker together
/// with a single-use reply channel.
#[derive(Debug)]
pub struct MsgInput {
    /// The output cell to be computed, as a flat index.
    pub idx: usize,
    /// A private copy of row `idx / col` of the left operand.
    pub row: Vector,
    /// A private copy of column `idx % col` of the right operand.
    pub col: Vector,
}

/// One reply: the computed value, tagged with the cell it belongs to so the
/// reduce phase can place it whatever order replies arrive in.
#[derive(Debug)]
pub struct MsgOutput {
    pub idx: usize,
    pub value: i64,
}

/// The flat position of cell `(i, j)` in row-major storage with `col` columns.
pub open spec fn flat_index(i: int, j: int, col: int) -> int {
    i * col + j
}

impl Matrix {
    /// The backing buffer holds exactly `row * col` elements.
    pub open spec fn wf(&self) -> bool {
        self.data@.len() == self.row * self.col
    }

    /// Construction is the one place a shape can go wrong: the buffer length
    /// must agree with the declared dimensions.
    pub fn new(data: Vec<i64>, row: usize, col: usize) -> (r: Result<Matrix, MatmulError>)
        ensures
            r is Ok <==> data@.len() == row * col,
            r matches Ok(m) ==> m.row == row && m.col == col && m.data@ == data@ && m.wf(),
            r matches Err(e) ==> e == MatmulError::ShapeMismatch,
    {
        match row.checked_mul(col) {
            Some(n) => {
                if data.len() == n {
                    Ok(Matrix { row, col, data })
                } else {
                    Err(MatmulError::ShapeMismatch)
                }
            },
            None => {
                // the product overflows usize, so no buffer can match it
                let l = data.len();
                assert(l < row * col);
                Err(MatmulError::ShapeMismatch)
            },
        }
    }

    /// Render the matrix as text, bit for bit as [`matrix_text`] describes.
    pub fn render(&self) -> (r: String)
        requires
            self.wf(),
        ensures
            r@ == matrix_text(*self),
    {
        let n = self.data.len();
        let mut out = String::new();
        let mut i: usize = 0;
        while i < self.row
            invariant
                self.wf(),
                n == self.data@.len(),
                i <= self.row,
                out@ + rows_text(*self, i as int) == matrix_text(*self),
            decreases self.row - i,
        {
            let ghost row_start = out@;
            let mut j: usize = 0;
            while j < self.col
                invariant
                    self.wf(),
                    n == self.data@.len(),
                    i < self.row,
                    j <= self.col,
                    row_start + rows_text(*self, i as int) == matrix_text(*self),
                    out@ + cells_text(*self, i as int, j as int) == row_start + cells_text(
                        *self,
                        i as int,
                        0,
                    ),
                decreases self.col - j,
            {
                proof {
                    lemma_flat_index_bounds(i as int, j as int, self.row as int, self.col as int);
                }
                let ghost before = out@;
                push_i64_decimal(&mut out, self.data[i * self.col + j]);
                proof {
                    reveal_strlit(" ");
                }
                out.append(" ");
                proof {
                    assert(out@ + cells_text(*self, i as int, j as int + 1) =~= before
                        + cells_text(*self, i as int, j as int));
                }
                j = j + 1;
            }
            proof {
                reveal_strlit("\n");
            }
            out.append("\n");
            proof {
                assert(out@ + rows_text(*self, i as int + 1) =~= row_start + rows_text(
                    *self,
                    i as int,
                ));
            }
            i = i + 1;
        }
        out
    }
}

/// The text of the cells of row `i` from column `j` on: each cell's decimal
/// value followed by one space.
pub open spec fn cells_text(m: Matrix, i: int, j: int) -> Seq<char>
    decreases m.col - j,
{
    if j < 0 || j >= m.col {
        Seq::empty()
    } else {
        i64_text(m.data@[flat_index(i, j, m.col as int)]) + seq![' '] + cells_text(m, i, j + 1)
    }
}

/// The text of the rows of `m` from row `i` on: each row's cells, then a
/// newline.
pub open spec fn rows_text(m: Matrix, i: int) -> Seq<char>
    decreases m.row - i,
{
    if i < 0 || i >= m.row {
        Seq::empty()
    } else {
        cells_text(m, i, 0) + seq!['\n'] + rows_text(m, i + 1)
    }
}

/// The textual rendering of a matrix: cells space-separated, one row per
/// line, every row ended by a newline.
pub open spec fn matrix_text(m: Matrix) -> Seq<char> {
    rows_text(m, 0)
}

/// Row `i` of `m`: the contiguous slice `data[i*col .. (i+1)*col]`.
pub open spec fn row_seq(m: Matrix, i: int) -> Seq<i64> {
    m.data@.subrange(i * m.col, (i + 1) * m.col)
}

/// Column `j` of `m`: the strided gather `data[j], data[j+col], ...`,
/// `row` elements in all.
pub open spec fn col_seq(m: Matrix, j: int) -> Seq<i64> {
    Seq::new(m.row as nat, |k: int| m.data@[k * m.col + j])
}

/// The value owed to output cell `(i, j)`: the dot product of row `i` of the
/// left operand with column `j` of the right operand.
pub open spec fn cell_value(a: Matrix, b: Matrix, i: int, j: int) -> i64 {
    dot(row_seq(a, i), col_seq(b, j))
}

/// What a successful `multiply` returns: the shape comes from the operands
/// and every cell holds its dot product. This pins the result completely,
/// so it cannot depend on worker count or on scheduling.
pub open spec fn product_matrix(a: Matrix, b: Matrix, m: Matrix) -> bool {
    &&& m.row == a.row
    &&& m.col == b.col
    &&& m.wf()
    &&& forall|i: int, j: int|
        #![trigger flat_index(i, j, m.col as int)]
        0 <= i < m.row && 0 <= j < m.col ==> m.data@[flat_index(i, j, m.col as int)]
            == cell_value(a, b, i, j)
}

proof fn lemma_flat_index_bounds(i: int, j: int, row: int, col: int)
    requires
        0 <= i < row,
        0 <= j < col,
    ensures
        0 <= flat_index(i, j, col) < row * col,
{
    assert(0 <= i * col + j < row * col) by (nonlinear_arith)
        requires
            0 <= i < row,
            0 <= j < col,
    ;
}

/// Two distinct cells never share a flat index.
proof fn lemma_flat_index_injective(i1: int, j1: int, i2: int, j2: int, col: int)
    requires
        0 <= i1,
        0 <= i2,
        0 <= j1 < col,
        0 <= j2 < col,
        flat_index(i1, j1, col) == flat_index(i2, j2, col),
    ensures
        i1 == i2,
        j1 == j2,
{
    let x = flat_index(i1, j1, col);
    lemma_fundamental_div_mod_converse(x, col, i1, j1);
    lemma_fundamental_div_mod_converse(x, col, i2, j2);
}

/// Every flat index below `row * col` is the index of exactly one cell,
/// namely `(t / col, t % col)`.
proof fn lemma_flat_index_decompose(t: int, row: int, col: int)
    requires
        0 <= row,
        0 <= col,
        0 <= t < row * col,
    ensures
        0 < col,
        0 <= t / col < row,
        0 <= t % col < col,
        flat_index(t / col, t % col, col) == t,
{
    assert(0 < col) by (nonlinear_arith)
        requires
            0 <= row,
            0 <= col,
            0 <= t < row * col,
    ;
    lemma_fundamental_div_mod(t, col);
    assert(t == col * (t / col) + t % col);
    assert(flat_index(t / col, t % col, col) == t) by (nonlinear_arith)
        requires
            t == col * (t / col) + t % col,
    ;
    assert(0 <= t / col < row) by (nonlinear_arith)
        requires
            0 <= t < row * col,
            0 < col,
            0 <= t % col < col,
            t == col * (t / col) + t % col,
    ;
}

impl MsgInput {
    pub fn new(idx: usize, row: Vector, col: Vector) -> (r: MsgInput)
        ensures
            r.idx == idx,
            r.row@ == row@,
            r.col@ == col@,
    {
        MsgInput { idx, row, col }
    }
}

impl MsgOutput {
    pub fn new(idx: usize, value: i64) -> (r: MsgOutput)
        ensures
            r.idx == idx,
            r.value == value,
    {
        MsgOutput { idx, value }
    }
}

/// Materialize row `i` of `a` as an owned vector.
pub fn extract_row(a: &Matrix, i: usize) -> (r: Vector)
    requires
        a.wf(),
        i < a.row,
    ensures
        r@ == row_seq(*a, i as int),
        r@.len() == a.col,
{
    let n = a.data.len();
    proof {
        assert(i * a.col + a.col <= a.row * a.col) by (nonlinear_arith)
            requires
                0 <= (i as int) < a.row,
        ;
    }
    let base = i * a.col;
    let mut out: Vec<i64> = Vec::new();
    let mut j: usize = 0;
    while j < a.col
        invariant
            a.wf(),
            j <= a.col,
            n == a.data@.len(),
            base == i * a.col,
            base + a.col <= n,
            out@.len() == j,
            forall|k: int| 0 <= k < j ==> out@[k] == a.data@[base + k],
        decreases a.col - j,
    {
        out.push(a.data[base + j]);
        j = j + 1;
    }
    proof {
        assert((i as int + 1) * a.col == i * a.col + a.col) by (nonlinear_arith);
        assert(out@ =~= row_seq(*a, i as int));
    }
    Vector::new(out)
}

/// Materialize column `j` of `b` as an owned vector: the strided gather that
/// row-major storage makes necessary.
pub fn extract_col(b: &Matrix, j: usize) -> (r: Vector)
    requires
        b.wf(),
        j < b.col,
    ensures
        r@ == col_seq(*b, j as int),
        r@.len() == b.row,
{
    let n = b.data.len();
    let mut out: Vec<i64> = Vec::new();
    let mut k: usize = 0;
    while k < b.row
        invariant
            b.wf(),
            j < b.col,
            k <= b.row,
            n == b.data@.len(),
            out@.len() == k,
            forall|t: int| 0 <= t < k ==> out@[t] == b.data@[t * b.col + j],
        decreases b.row - k,
    {
        proof {
            lemma_flat_index_bounds(k as int, j as int, b.row as int, b.col as int);
        }
        out.push(b.data[k * b.col + j]);
        k = k + 1;
    }
    proof {
        assert(out@ =~= col_seq(*b, j as int));
    }
    Vector::new(out)
}

/// The static partition policy: task `idx` goes to worker `idx % workers`.
/// It is data independent, so every run routes tasks the same way.
pub fn assign_worker(idx: usize, workers: usize) -> (r: usize)
    requires
        workers > 0,
    ensures
        r == idx % workers,
        r < workers,
{
    idx % workers
}

/// Build one task per output cell, in row-major dispatch order (`i` outer,
/// `j` inner). Task `t` carries flat index `t`, so the dispatched indices are
/// exactly `0 .. a.row * b.col`, each exactly once.
pub fn build_tasks(a: &Matrix, b: &Matrix) -> (tasks: Vec<MsgInput>)
    requires
        a.wf(),
        b.wf(),
        a.col == b.row,
        a.row * b.col <= usize::MAX,
    ensures
        tasks@.len() == a.row * b.col,
        forall|t: int| 0 <= t < tasks@.len() ==> (#[trigger] tasks@[t]).idx == t,
        forall|t: int|
            0 <= t < tasks@.len() ==> (#[trigger] tasks@[t]).row@.len() == a.col
                && tasks@[t].col@.len() == a.col,
        forall|i: int, j: int|
            #![trigger flat_index(i, j, b.col as int)]
            0 <= i < a.row && 0 <= j < b.col ==> {
                &&& tasks@[flat_index(i, j, b.col as int)].row@ == row_seq(*a, i)
                &&& tasks@[flat_index(i, j, b.col as int)].col@ == col_seq(*b, j)
            },
{
    let mut tasks: Vec<MsgInput> = Vec::new();
    let mut i: usize = 0;
    while i < a.row
        invariant
            a.wf(),
            b.wf(),
            a.col == b.row,
            a.row * b.col <= usize::MAX,
            i <= a.row,
            tasks@.len() == i * b.col,
            forall|t: int| 0 <= t < tasks@.len() ==> (#[trigger] tasks@[t]).idx == t,
            forall|t: int|
                0 <= t < tasks@.len() ==> (#[trigger] tasks@[t]).row@.len() == a.col
                    && tasks@[t].col@.len() == a.col,
            forall|i2: int, j2: int|
                #![trigger flat_index(i2, j2, b.col as int)]
                0 <= i2 && 0 <= j2 < b.col && flat_index(i2, j2, b.col as int) < tasks@.len()
                    ==> {
                    &&& tasks@[flat_index(i2, j2, b.col as int)].row@ == row_seq(*a, i2)
                    &&& tasks@[flat_index(i2, j2, b.col as int)].col@ == col_seq(*b, j2)
                },
        decreases a.row - i,
    {
        proof {
            assert((i + 1) * b.col == i * b.col + b.col) by (nonlinear_arith);
            assert(i * b.col + b.col <= a.row * b.col) by (nonlinear_arith)
                requires
                    0 <= (i as int) < a.row,
            ;
        }
        let mut j: usize = 0;
        while j < b.col
            invariant
                a.wf(),
                b.wf(),
                a.col == b.row,
                a.row * b.col <= usize::MAX,
                i < a.row,
                j <= b.col,
                i * b.col + b.col <= a.row * b.col,
                tasks@.len() == i * b.col + j,
                forall|t: int| 0 <= t < tasks@.len() ==> (#[trigger] tasks@[t]).idx == t,
                forall|t: int|
                    0 <= t < tasks@.len() ==> (#[trigger] tasks@[t]).row@.len() == a.col
                        && tasks@[t].col@.len() == a.col,
                forall|i2: int, j2: int|
                    #![trigger flat_index(i2, j2, b.col as int)]
                    0 <= i2 && 0 <= j2 < b.col && flat_index(i2, j2, b.col as int)
                        < tasks@.len() ==> {
                        &&& tasks@[flat_index(i2, j2, b.col as int)].row@ == row_seq(*a, i2)
                        &&& tasks@[flat_index(i2, j2, b.col as int)].col@ == col_seq(*b, j2)
                    },
            decreases b.col - j,
        {
            let row = extract_row(a, i);
            let col = extract_col(b, j);
            let ghost old_tasks = tasks@;
            let idx = tasks.len();
            tasks.push(MsgInput::new(idx, row, col));
            proof {
                assert(flat_index(i as int, j as int, b.col as int) == idx);
                assert forall|i2: int, j2: int|
                    0 <= i2 && 0 <= j2 < b.col && #[trigger] flat_index(i2, j2, b.col as int)
                        < tasks@.len() implies {
                    &&& tasks@[flat_index(i2, j2, b.col as int)].row@ == row_seq(*a, i2)
                    &&& tasks@[flat_index(i2, j2, b.col as int)].col@ == col_seq(*b, j2)
                } by {
                    let f = flat_index(i2, j2, b.col as int);
                    if f < old_tasks.len() {
                        assert(tasks@[f] == old_tasks[f]);
                    } else {
                        lemma_flat_index_injective(i2, j2, i as int, j as int, b.col as int);
                    }
                }
            }
            j = j + 1;
        }
        i = i + 1;
    }
    proof {
        assert forall|i2: int, j2: int|
            0 <= i2 < a.row && 0 <= j2 < b.col implies 0 <= #[trigger] flat_index(
            i2,
            j2,
            b.col as int,
        ) < tasks@.len() by {
            lemma_flat_index_bounds(i2, j2, a.row as int, b.col as int);
        }
    }
    tasks
}

/// One worker's handling of a single task: compute the dot product over the
/// task's private row and column copies and tag the reply with the task's
/// cell index.
pub fn worker_compute(input: &MsgInput) -> (r: Result<MsgOutput, MatmulError>)
    ensures
        r is Ok <==> input.row@.len() == input.col@.len(),
        r matches Ok(o) ==> o.idx == input.idx && o.value == dot(input.row@, input.col@),
        r matches Err(e) ==> e == MatmulError::DimensionMismatch,
{
    match dot_product(input.row.duplicate(), input.col.duplicate()) {
        Ok(v) => Ok(MsgOutput::new(input.idx, v)),
        Err(e) => Err(e),
    }
}

/// Multiply two matrices.
///
/// The shapes are validated first: incompatible inner dimensions are rejected
/// before any work is dispatched. On success the result's shape and every one
/// of its cells are fixed by the operands alone. Neither operand is changed.
pub fn multiply(a: &Matrix, b: &Matrix) -> (r: Result<Matrix, MatmulError>)
    requires
        a.wf(),
        b.wf(),
        a.row * b.col <= usize::MAX,
    ensures
        r is Ok <==> a.col == b.row,
        r matches Ok(m) ==> product_matrix(*a, *b, m),
        r matches Err(e) ==> e == MatmulError::IncompatibleShapes,
{
    if a.col != b.row {
        return Err(MatmulError::IncompatibleShapes);
    }
    let tasks = build_tasks(a, b);

    // map phase: process every task; this sequential engine takes them in
    // submission order, which fixes the same result any schedule must produce
    let mut outputs: Vec<MsgOutput> = Vec::new();
    let mut t: usize = 0;
    while t < tasks.len()
        invariant
            t <= tasks@.len(),
            outputs@.len() == t,
            forall|k: int|
                0 <= k < tasks@.len() ==> (#[trigger] tasks@[k]).idx == k && tasks@[k].row@.len()
                    == tasks@[k].col@.len(),
            forall|k: int|
                0 <= k < t ==> (#[trigger] outputs@[k]).idx == k && outputs@[k].value == dot(
                    tasks@[k].row@,
                    tasks@[k].col@,
                ),
        decreases tasks@.len() - t,
    {
        let computed = worker_compute(&tasks[t]);
        let out = match computed {
            Ok(o) => o,
            Err(e) => {
                // dispatch sizes every row and column copy alike, so the
                // kernel cannot reject a task it is handed
                proof {
                    assert(false);
                }
                return Err(MatmulError::IncompatibleShapes);
            },
        };
        outputs.push(out);
        t = t + 1;
    }

    // reduce phase: write each reply into the slot its index owns
    let n = a.row * b.col;
    let mut data: Vec<i64> = vec![0i64; n];
    let mut k: usize = 0;
    while k < outputs.len()
        invariant
            k <= outputs@.len(),
            outputs@.len() == n,
            data@.len() == n,
            forall|u: int|
                0 <= u < outputs@.len() ==> (#[trigger] outputs@[u]).idx == u,
            forall|u: int| 0 <= u < k ==> data@[u] == (#[trigger] outputs@[u]).value,
        decreases outputs@.len() - k,
    {
        let value = outputs[k].value;
        let idx = outputs[k].idx;
        data.set(idx, value);
        k = k + 1;
    }

    let m = Matrix { row: a.row, col: b.col, data };
    proof {
        assert forall|i: int, j: int|
            0 <= i < m.row && 0 <= j < m.col implies m.data@[#[trigger] flat_index(
            i,
            j,
            m.col as int,
        )] == cell_value(*a, *b, i, j) by {
            lemma_flat_index_bounds(i, j, a.row as int, b.col as int);
            let f = flat_index(i, j, b.col as int);
            assert(tasks@[f].row@ == row_seq(*a, i));
            assert(tasks@[f].col@ == col_seq(*b, j));
            assert(data@[f] == outputs@[f].value);
        }
    }
    Ok(m)
}

/// Coverage law: when every task carries its own position as its index,
/// the dispatched indices are exactly `0 .. tasks.len()` - every output cell
/// is claimed by some task, and no two tasks claim the same cell.
pub proof fn lemma_task_indices_exactly_once(tasks: Seq<MsgInput>)
    requires
        forall|t: int| 0 <= t < tasks.len() ==> (#[trigger] tasks[t]).idx == t,
    ensures
        forall|k: int|
            0 <= k < tasks.len() ==> (#[trigger] tasks[k]).idx == k && (exists|t: int|
                0 <= t < tasks.len() && (#[trigger] tasks[t].idx) == k),
        forall|t1: int, t2: int|
            0 <= t1 < tasks.len() && 0 <= t2 < tasks.len() && tasks[t1].idx == tasks[t2].idx
                ==> t1 == t2,
{
    assert forall|k: int| 0 <= k < tasks.len() implies (#[trigger] tasks[k]).idx == k && (
    exists|t: int| 0 <= t < tasks.len() && (#[trigger] tasks[t].idx) == k) by {
        assert(0 <= k < tasks.len() && (tasks[k].idx) == k);
    }
}

/// Determinism law: the multiply contract pins every cell of the result, so
/// two results for the same operands agree bit for bit - whatever the worker
/// count and whatever order the replies arrived in.
pub proof fn lemma_multiply_deterministic(a: Matrix, b: Matrix, m1: Matrix, m2: Matrix)
    requires
        product_matrix(a, b, m1),
        product_matrix(a, b, m2),
    ensures
        m1.row == m2.row,
        m1.col == m2.col,
        m1.data@ == m2.data@,
{
    assert forall|t: int| 0 <= t < m1.data@.len() implies m1.data@[t] == m2.data@[t] by {
        lemma_flat_index_decompose(t, m1.row as int, m1.col as int);
        let i = t / (m1.col as int);
        let j = t % (m1.col as int);
        assert(m1.data@[flat_index(i, j, m1.col as int)] == cell_value(a, b, i, j));
        assert(m2.data@[flat_index(i, j, m2.col as int)] == cell_value(a, b, i, j));
    }
    assert(m1.data@ =~= m2.data@);
}

/// Boundary law: a 1x1 multiply reduces to the scalar product - the single
/// output cell is the product of the two single entries.
pub proof fn lemma_one_by_one_scalar_product(a: Matrix, b: Matrix)
    requires
        a.wf(),
        b.wf(),
        a.row == 1,
        a.col == 1,
        b.row == 1,
        b.col == 1,
    ensures
        cell_value(a, b, 0, 0) == a.data@[0].wrapping_mul(b.data@[0]),
{
    let r = row_seq(a, 0);
    let c = col_seq(b, 0);
    assert(r =~= seq![a.data@[0]]);
    assert(c =~= seq![b.data@[0]]);
    assert(crate::vector::dot_prefix(r, c, 0) == 0i64);
    assert(crate::vector::dot_prefix(r, c, 1) == 0i64.wrapping_add(r[0].wrapping_mul(c[0])));
}

} // verus!
