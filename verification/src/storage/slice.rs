//! A persistent two-dimensional grid with a default value.
//!
//! A grid starts sparse, as a list of the coordinates that were written and
//! their values. A dense layout exists beside it; nothing converts one into
//! the other.

use crate::storage::purse::{share, Purse};
use std::sync::Arc;
use vstd::prelude::*;

verus! {

/// Dense layout: one slot for every coordinate, row after row.
pub struct ArrayMatrix<T> {
    data: Purse<Option<T>>,
    x_size: usize,
    y_size: usize,
}

impl<T> ArrayMatrix<T> {
    #[verifier::type_invariant]
    spec fn well_formed(self) -> bool {
        &&& self.x_size * self.y_size <= usize::MAX
        &&& self.data@.len() == self.x_size * self.y_size
    }

    /// The width.
    pub closed spec fn width(self) -> nat {
        self.x_size as nat
    }

    /// The height.
    pub closed spec fn height(self) -> nat {
        self.y_size as nat
    }

    /// What the slot of `(x, y)` holds; `None` outside the grid.
    pub closed spec fn cell(self, x: int, y: int) -> Option<T> {
        if 0 <= x < self.x_size && 0 <= y < self.y_size {
            self.data@[x * self.y_size + y]
        } else {
            None
        }
    }

    /// A grid of `x_size` by `y_size` empty slots.
    pub fn new(x_size: usize, y_size: usize) -> (matrix: ArrayMatrix<T>)
        requires
            x_size * y_size <= usize::MAX,
        ensures
            matrix.width() == x_size,
            matrix.height() == y_size,
            forall|x: int, y: int| matrix.cell(x, y).is_none(),
    {
        let matrix = ArrayMatrix { data: Purse::new_filled(x_size * y_size, None), x_size, y_size };
        assert forall|x: int, y: int| matrix.cell(x, y).is_none() by {
            if 0 <= x < x_size && 0 <= y < y_size {
                lemma_slot_in_range(x, y, x_size as int, y_size as int);
            }
        }
        matrix
    }

    /// The value at `(x, y)`, if one was written there.
    pub fn get(&self, x: usize, y: usize) -> (value: Option<&T>)
        requires
            x < self.width(),
            y < self.height(),
        ensures
            match value {
                Some(v) => self.cell(x as int, y as int) == Some(*v),
                None => self.cell(x as int, y as int).is_none(),
            },
    {
        proof {
            use_type_invariant(self);
            lemma_slot_in_range(x as int, y as int, self.x_size as int, self.y_size as int);
        }
        match self.data.index(x * self.y_size + y) {
            Some(v) => Some(v),
            None => None,
        }
    }

    /// A new grid that holds `data` at `(x, y)` and is `self` elsewhere.
    pub fn set(&self, x: usize, y: usize, data: T) -> (matrix: ArrayMatrix<T>)
        requires
            x < self.width(),
            y < self.height(),
        ensures
            matrix.width() == self.width(),
            matrix.height() == self.height(),
            matrix.cell(x as int, y as int) == Some(data),
            forall|i: int, j: int| (i, j) != (x as int, y as int) ==> matrix.cell(i, j) == self.cell(i, j),
    {
        proof {
            use_type_invariant(self);
            lemma_slot_in_range(x as int, y as int, self.x_size as int, self.y_size as int);
        }
        let matrix = ArrayMatrix {
            data: self.data.set(x * self.y_size + y, Some(data)),
            x_size: self.x_size,
            y_size: self.y_size,
        };
        assert forall|i: int, j: int| (i, j) != (x as int, y as int) implies matrix.cell(i, j)
            == self.cell(i, j) by {
            if 0 <= i < self.x_size && 0 <= j < self.y_size {
                lemma_slot_in_range(i, j, self.x_size as int, self.y_size as int);
                lemma_slot_distinct(i, j, x as int, y as int, self.y_size as int);
            }
        }
        matrix
    }
}

/// Row-major slots stay inside the grid.
proof fn lemma_slot_in_range(x: int, y: int, x_size: int, y_size: int)
    requires
        0 <= x < x_size,
        0 <= y < y_size,
    ensures
        0 <= x * y_size + y < x_size * y_size,
{
    assert(x * y_size >= 0) by (nonlinear_arith)
        requires
            x >= 0,
            y_size >= 0,
    ;
    assert((x + 1) * y_size <= x_size * y_size) by (nonlinear_arith)
        requires
            x + 1 <= x_size,
            y_size >= 0,
    ;
    assert((x + 1) * y_size == x * y_size + y_size) by (nonlinear_arith);
}

/// Two coordinates share a row-major slot only if they are the same.
proof fn lemma_slot_distinct(x1: int, y1: int, x2: int, y2: int, y_size: int)
    requires
        0 <= y1 < y_size,
        0 <= y2 < y_size,
        (x1, y1) != (x2, y2),
    ensures
        x1 * y_size + y1 != x2 * y_size + y2,
{
    if x1 < x2 {
        assert(x2 * y_size >= (x1 + 1) * y_size) by (nonlinear_arith)
            requires
                x2 >= x1 + 1,
                y_size >= 0,
        ;
        assert((x1 + 1) * y_size == x1 * y_size + y_size) by (nonlinear_arith);
    } else if x2 < x1 {
        assert(x1 * y_size >= (x2 + 1) * y_size) by (nonlinear_arith)
            requires
                x1 >= x2 + 1,
                y_size >= 0,
        ;
        assert((x2 + 1) * y_size == x2 * y_size + y_size) by (nonlinear_arith);
    }
}

/// Sparse layout: the coordinates that were written, each once, and beside
/// them their values.
pub struct SparseMatrix<T> {
    coords: Vec<(usize, usize)>,
    data: Purse<T>,
    x_size: usize,
    y_size: usize,
}

impl<T> SparseMatrix<T> {
    #[verifier::type_invariant]
    spec fn well_formed(self) -> bool {
        &&& self.coords@.len() == self.data@.len()
        &&& forall|i: int, j: int|
            0 <= i < j < self.coords@.len() ==> self.coords@[i] != self.coords@[j]
    }

    /// The width.
    pub closed spec fn width(self) -> nat {
        self.x_size as nat
    }

    /// The height.
    pub closed spec fn height(self) -> nat {
        self.y_size as nat
    }

    /// The number of coordinates that hold a value.
    pub closed spec fn entries(self) -> nat {
        self.coords@.len()
    }

    spec fn holds(self, x: int, y: int, i: int) -> bool {
        0 <= i < self.coords@.len() && self.coords@[i].0 == x && self.coords@[i].1 == y
    }

    /// The value written at `(x, y)`, if any.
    pub closed spec fn cell(self, x: int, y: int) -> Option<T> {
        if exists|i: int| self.holds(x, y, i) {
            Some(self.data@[choose|i: int| self.holds(x, y, i)])
        } else {
            None
        }
    }

    /// The bytes that the sparse layout takes: for every entry a coordinate
    /// and a value.
    pub closed spec fn footprint(self) -> nat {
        (self.coords@.len() * vstd::layout::size_of::<(usize, usize)>() + self.coords@.len()
            * vstd::layout::size_of::<T>()) as nat
    }

    /// The bytes that the dense layout would take: a value for every
    /// coordinate of the grid.
    pub closed spec fn dense_footprint(self) -> nat {
        (self.x_size * self.y_size * vstd::layout::size_of::<T>()) as nat
    }

    /// A grid without entries.
    pub fn new(x_size: usize, y_size: usize) -> (matrix: SparseMatrix<T>)
        ensures
            matrix.width() == x_size,
            matrix.height() == y_size,
            matrix.entries() == 0,
            forall|x: int, y: int| matrix.cell(x, y).is_none(),
    {
        SparseMatrix { coords: Vec::new(), data: Purse::new(), x_size, y_size }
    }

    /// Where in the list `(x, y)` stands.
    fn get_index(&self, x: usize, y: usize) -> (index: Option<usize>)
        ensures
            match index {
                Some(i) => self.holds(x as int, y as int, i as int),
                None => forall|i: int| !self.holds(x as int, y as int, i),
            },
    {
        let mut at: usize = 0;
        while at < self.coords.len()
            invariant
                at <= self.coords@.len(),
                forall|i: int| 0 <= i < at ==> !self.holds(x as int, y as int, i),
            decreases self.coords@.len() - at,
        {
            if self.coords[at].0 == x && self.coords[at].1 == y {
                return Some(at);
            }
            at = at + 1;
        }
        None
    }

    /// The value at `(x, y)`, if one was written there.
    pub fn get(&self, x: usize, y: usize) -> (value: Option<&T>)
        ensures
            match value {
                Some(v) => self.cell(x as int, y as int) == Some(*v),
                None => self.cell(x as int, y as int).is_none(),
            },
    {
        proof {
            use_type_invariant(self);
        }
        match self.get_index(x, y) {
            Some(i) => {
                proof {
                    self.lemma_cell_at(x as int, y as int, i as int);
                }
                Some(self.data.index(i))
            },
            None => None,
        }
    }

    /// The entry of a coordinate is the one place where it stands.
    proof fn lemma_cell_at(self, x: int, y: int, i: int)
        requires
            self.well_formed(),
            self.holds(x, y, i),
        ensures
            self.cell(x, y) == Some(self.data@[i]),
    {
        let chosen = choose|k: int| self.holds(x, y, k);
        assert(self.holds(x, y, chosen));
        if chosen < i {
            assert(self.coords@[chosen] != self.coords@[i]);
        } else if i < chosen {
            assert(self.coords@[i] != self.coords@[chosen]);
        }
    }

    /// A new grid that holds `data` at `(x, y)` and is `self` elsewhere: the
    /// value of an entry is replaced, a coordinate without one gets one.
    pub fn set(&self, x: usize, y: usize, data: T) -> (matrix: SparseMatrix<T>)
        ensures
            matrix.width() == self.width(),
            matrix.height() == self.height(),
            matrix.cell(x as int, y as int) == Some(data),
            forall|i: int, j: int| (i, j) != (x as int, y as int) ==> matrix.cell(i, j) == self.cell(i, j),
            matrix.entries() == if self.cell(x as int, y as int).is_some() {
                self.entries()
            } else {
                self.entries() + 1
            },
    {
        proof {
            use_type_invariant(self);
        }
        let index = self.get_index(x, y);
        let mut new_coords: Vec<(usize, usize)> = Vec::new();
        let mut copied: usize = 0;
        while copied < self.coords.len()
            invariant
                copied <= self.coords@.len(),
                new_coords@ == self.coords@.take(copied as int),
            decreases self.coords@.len() - copied,
        {
            new_coords.push((self.coords[copied].0, self.coords[copied].1));
            copied = copied + 1;
            assert(new_coords@ =~= self.coords@.take(copied as int));
        }
        assert(new_coords@ =~= self.coords@);
        let new_data;
        if let Some(index) = index {
            new_data = self.data.set(index, data);
        } else {
            new_coords.push((x, y));
            new_data = self.data.push(data);
        }
        assert forall|i: int, j: int| 0 <= i < j < new_coords@.len() implies new_coords@[i]
            != new_coords@[j] by {
            if j < self.coords@.len() {
                assert(self.coords@[i] != self.coords@[j]);
            } else {
                assert(!self.holds(x as int, y as int, i));
            }
        }
        let matrix = SparseMatrix {
            coords: new_coords,
            data: new_data,
            x_size: self.x_size,
            y_size: self.y_size,
        };
        proof {
            let here: int = match index {
                Some(i) => i as int,
                None => self.coords@.len() as int,
            };
            assert(matrix.holds(x as int, y as int, here));
            matrix.lemma_cell_at(x as int, y as int, here);
            if index.is_some() {
                self.lemma_cell_at(x as int, y as int, here);
            }
            assert forall|i: int, j: int| (i, j) != (x as int, y as int) implies matrix.cell(i, j)
                == self.cell(i, j) by {
                if exists|k: int| self.holds(i, j, k) {
                    let k = choose|k: int| self.holds(i, j, k);
                    assert(matrix.holds(i, j, k));
                    self.lemma_cell_at(i, j, k);
                    matrix.lemma_cell_at(i, j, k);
                } else if exists|k: int| matrix.holds(i, j, k) {
                    let k = choose|k: int| matrix.holds(i, j, k);
                    assert(self.holds(i, j, k));
                }
            }
        }
        matrix
    }

    /// The bytes that this layout takes.
    pub fn size(&self) -> (bytes: usize)
        requires
            self.footprint() <= usize::MAX,
        ensures
            bytes == self.footprint(),
    {
        let entries = self.coords.len();
        let coord_bytes = core::mem::size_of::<(usize, usize)>();
        let value_bytes = core::mem::size_of::<T>();
        assert(entries * coord_bytes <= self.footprint()) by (nonlinear_arith)
            requires
                self.footprint() == entries * coord_bytes + entries * value_bytes,
        ;
        assert(entries * value_bytes <= self.footprint()) by (nonlinear_arith)
            requires
                self.footprint() == entries * coord_bytes + entries * value_bytes,
        ;
        let coords_size = entries * coord_bytes;
        let data_size = entries * value_bytes;
        coords_size + data_size
    }

    /// Whether the dense layout would take no more room than this one.
    pub fn packable(&self) -> (worthwhile: bool)
        requires
            self.footprint() <= usize::MAX,
            self.dense_footprint() <= usize::MAX,
        ensures
            worthwhile == (self.footprint() >= self.dense_footprint()),
    {
        let value_bytes = core::mem::size_of::<T>();
        if value_bytes == 0 {
            assert(self.dense_footprint() == 0) by (nonlinear_arith)
                requires
                    self.dense_footprint() == self.x_size * self.y_size * 0,
            ;
            return true;
        }
        assert(self.x_size * self.y_size <= self.dense_footprint()) by (nonlinear_arith)
            requires
                self.dense_footprint() == self.x_size * self.y_size * value_bytes,
                value_bytes >= 1,
        ;
        self.size() >= self.x_size * self.y_size * value_bytes
    }
}

/// Either layout, behind one interface.
pub enum Matrix<T> {
    SMatrix(SparseMatrix<T>),
    AMatrix(ArrayMatrix<T>),
}

impl<T> Matrix<T> {
    /// The width.
    pub open spec fn width(self) -> nat {
        match self {
            Matrix::SMatrix(m) => m.width(),
            Matrix::AMatrix(m) => m.width(),
        }
    }

    /// The height.
    pub open spec fn height(self) -> nat {
        match self {
            Matrix::SMatrix(m) => m.height(),
            Matrix::AMatrix(m) => m.height(),
        }
    }

    /// The value written at `(x, y)`, if any.
    pub open spec fn cell(self, x: int, y: int) -> Option<T> {
        match self {
            Matrix::SMatrix(m) => m.cell(x, y),
            Matrix::AMatrix(m) => m.cell(x, y),
        }
    }

    /// An empty grid, in the sparse layout.
    pub fn new(x_size: usize, y_size: usize) -> (matrix: Matrix<T>)
        ensures
            matrix is SMatrix,
            matrix.width() == x_size,
            matrix.height() == y_size,
            forall|x: int, y: int| matrix.cell(x, y).is_none(),
    {
        Matrix::SMatrix(SparseMatrix::new(x_size, y_size))
    }

    /// The value at `(x, y)`, if one was written there.
    pub fn get(&self, x: usize, y: usize) -> (value: Option<&T>)
        requires
            x < self.width(),
            y < self.height(),
        ensures
            match value {
                Some(v) => self.cell(x as int, y as int) == Some(*v),
                None => self.cell(x as int, y as int).is_none(),
            },
    {
        match self {
            Matrix::SMatrix(m) => m.get(x, y),
            Matrix::AMatrix(m) => m.get(x, y),
        }
    }

    /// A new grid in the layout of `self` that holds `data` at `(x, y)` and
    /// is `self` elsewhere.
    pub fn set(&self, x: usize, y: usize, data: T) -> (matrix: Matrix<T>)
        requires
            x < self.width(),
            y < self.height(),
        ensures
            matrix is SMatrix <==> self is SMatrix,
            matrix.width() == self.width(),
            matrix.height() == self.height(),
            matrix.cell(x as int, y as int) == Some(data),
            forall|i: int, j: int| (i, j) != (x as int, y as int) ==> matrix.cell(i, j) == self.cell(i, j),
    {
        match self {
            Matrix::SMatrix(m) => Matrix::SMatrix(m.set(x, y, data)),
            Matrix::AMatrix(m) => Matrix::AMatrix(m.set(x, y, data)),
        }
    }
}

/// A persistent grid of `width` by `height` values. A coordinate that was
/// never written, or that lies outside the grid, reads as the default.
pub struct Slice<T> {
    matrix: Matrix<T>,
    default: Arc<T>,
    x_size: usize,
    y_size: usize,
}

impl<T> Slice<T> {
    #[verifier::type_invariant]
    spec fn well_formed(self) -> bool {
        self.matrix.width() == self.x_size && self.matrix.height() == self.y_size
    }

    /// The width.
    pub closed spec fn width(self) -> nat {
        self.x_size as nat
    }

    /// The height.
    pub closed spec fn height(self) -> nat {
        self.y_size as nat
    }

    /// The value that unwritten coordinates read as.
    pub closed spec fn default_value(self) -> T {
        *self.default
    }

    /// The value written at `(x, y)`, if any.
    pub closed spec fn written(self, x: int, y: int) -> Option<T> {
        self.matrix.cell(x, y)
    }

    /// Whether the grid is kept in the sparse layout.
    pub closed spec fn sparse(self) -> bool {
        self.matrix is SMatrix
    }

    /// What a read of `(x, y)` gives.
    pub open spec fn at(self, x: int, y: int) -> T {
        if 0 <= x < self.width() && 0 <= y < self.height() {
            match self.written(x, y) {
                Some(value) => value,
                None => self.default_value(),
            }
        } else {
            self.default_value()
        }
    }

    /// A grid on which every coordinate reads as `default`, in the sparse
    /// layout.
    pub fn new(x_size: usize, y_size: usize, default: T) -> (slice: Slice<T>)
        ensures
            slice.width() == x_size,
            slice.height() == y_size,
            slice.default_value() == default,
            slice.sparse(),
            forall|x: int, y: int| slice.written(x, y).is_none(),
    {
        Slice::with_default(x_size, y_size, Arc::new(default))
    }

    /// As `new`, with a default that is shared with other grids.
    pub(crate) fn with_default(x_size: usize, y_size: usize, default: Arc<T>) -> (slice: Slice<T>)
        ensures
            slice.width() == x_size,
            slice.height() == y_size,
            slice.default_value() == *default,
            slice.sparse(),
            forall|x: int, y: int| slice.written(x, y).is_none(),
    {
        Slice { matrix: Matrix::new(x_size, y_size), default, x_size, y_size }
    }

    /// Reads `(x, y)`.
    pub fn get(&self, x: usize, y: usize) -> (value: &T)
        ensures
            *value == self.at(x as int, y as int),
    {
        proof {
            use_type_invariant(self);
        }
        if x >= self.x_size || y >= self.y_size {
            &self.default
        } else {
            match self.matrix.get(x, y) {
                Some(value) => value,
                None => &self.default,
            }
        }
    }

    /// Writes `value` at `(x, y)`. Inside the grid this gives a new grid in
    /// the layout of `self` that differs from `self` at `(x, y)` alone;
    /// outside it gives `None`.
    pub fn set(&self, x: usize, y: usize, value: T) -> (slice: Option<Slice<T>>)
        ensures
            slice.is_some() <==> x < self.width() && y < self.height(),
            slice matches Some(s) ==> {
                &&& s.width() == self.width()
                &&& s.height() == self.height()
                &&& s.default_value() == self.default_value()
                &&& s.sparse() == self.sparse()
                &&& s.written(x as int, y as int) == Some(value)
                &&& forall|i: int, j: int|
                    (i, j) != (x as int, y as int) ==> s.written(i, j) == self.written(i, j)
            },
    {
        proof {
            use_type_invariant(self);
        }
        if x >= self.x_size || y >= self.y_size {
            None
        } else {
            Some(
                Slice {
                    matrix: self.matrix.set(x, y, value),
                    default: share(&self.default),
                    x_size: self.x_size,
                    y_size: self.y_size,
                },
            )
        }
    }
}

} // verus!
