//! A persistent three-dimensional grid with a default value, kept as a
//! persistent array of layers. A write replaces one layer and shares the
//! others with the version before it.

use crate::storage::purse::{share, Purse};
use crate::storage::slice::Slice;
use std::sync::Arc;
use vstd::prelude::*;

verus! {

/// A persistent grid of `width` by `height` by `depth` values. A coordinate
/// that was never written, or that lies outside the grid, reads as the
/// default.
pub struct Cuboid<T> {
    data: Purse<Slice<T>>,
    default: Arc<T>,
    x_size: usize,
    y_size: usize,
    z_size: usize,
}

impl<T> Cuboid<T> {
    #[verifier::type_invariant]
    spec fn well_formed(self) -> bool {
        &&& self.data@.len() == self.z_size
        &&& forall|z: int|
            0 <= z < self.z_size ==> {
                &&& (#[trigger] self.data@[z]).width() == self.x_size
                &&& self.data@[z].height() == self.y_size
                &&& self.data@[z].default_value() == *self.default
            }
    }

    /// The width.
    pub closed spec fn width(self) -> nat {
        self.x_size as nat
    }

    /// The height.
    pub closed spec fn height(self) -> nat {
        self.y_size as nat
    }

    /// The depth: the number of layers.
    pub closed spec fn depth(self) -> nat {
        self.z_size as nat
    }

    /// The value that unwritten coordinates read as.
    pub closed spec fn default_value(self) -> T {
        *self.default
    }

    /// The layers, the one for `z == 0` first.
    pub closed spec fn layers(self) -> Seq<Slice<T>> {
        self.data@
    }

    /// Whether `(x, y, z)` lies inside the grid.
    pub open spec fn contains(self, x: int, y: int, z: int) -> bool {
        0 <= x < self.width() && 0 <= y < self.height() && 0 <= z < self.depth()
    }

    /// What a read of `(x, y, z)` gives.
    pub open spec fn at(self, x: int, y: int, z: int) -> T {
        if self.contains(x, y, z) {
            self.layers()[z].at(x, y)
        } else {
            self.default_value()
        }
    }

    /// A grid on which every coordinate reads as `default`. Its layers are
    /// one grid, shared.
    pub fn new(x_size: usize, y_size: usize, z_size: usize, default: T) -> (cuboid: Cuboid<T>)
        ensures
            cuboid.width() == x_size,
            cuboid.height() == y_size,
            cuboid.depth() == z_size,
            cuboid.default_value() == default,
            cuboid.layers().len() == z_size,
            forall|x: int, y: int, z: int| cuboid.at(x, y, z) == default,
    {
        let default = Arc::new(default);
        let proto_slice = Slice::with_default(x_size, y_size, share(&default));
        let purse = Purse::new_filled(z_size, proto_slice);
        Cuboid { data: purse, default, x_size, y_size, z_size }
    }

    /// Reads `(x, y, z)`.
    pub fn get(&self, x: usize, y: usize, z: usize) -> (value: &T)
        ensures
            *value == self.at(x as int, y as int, z as int),
    {
        proof {
            use_type_invariant(self);
        }
        if x >= self.x_size || y >= self.y_size || z >= self.z_size {
            &self.default
        } else {
            let slice = self.data.index(z);
            slice.get(x, y)
        }
    }

    /// Writes `value` at `(x, y, z)`. Inside the grid this gives a new grid
    /// that differs from `self` at `(x, y, z)` alone, and in which every
    /// layer but layer `z` is the layer of `self`; outside it gives `None`.
    pub fn set(&self, x: usize, y: usize, z: usize, value: T) -> (cuboid: Option<Cuboid<T>>)
        ensures
            cuboid.is_some() <==> self.contains(x as int, y as int, z as int),
            cuboid matches Some(c) ==> {
                &&& c.width() == self.width()
                &&& c.height() == self.height()
                &&& c.depth() == self.depth()
                &&& c.default_value() == self.default_value()
                &&& c.at(x as int, y as int, z as int) == value
                &&& forall|i: int, j: int, k: int|
                    (i, j, k) != (x as int, y as int, z as int) ==> c.at(i, j, k) == self.at(i, j, k)
                &&& c.layers().len() == self.layers().len()
                &&& forall|k: int|
                    0 <= k < self.depth() && k != z ==> c.layers()[k] == self.layers()[k]
            },
    {
        proof {
            use_type_invariant(self);
        }
        if x >= self.x_size || y >= self.y_size || z >= self.z_size {
            None
        } else {
            let old_slice = self.data.index(z);
            let new_slice = old_slice.set(x, y, value).unwrap();
            let new_purse = self.data.set(z, new_slice);
            Some(
                Cuboid {
                    data: new_purse,
                    default: share(&self.default),
                    x_size: self.x_size,
                    y_size: self.y_size,
                    z_size: self.z_size,
                },
            )
        }
    }
}

impl<T> Clone for Cuboid<T> {
    /// A second grid over the same layers.
    fn clone(&self) -> (cuboid: Cuboid<T>)
        ensures
            cuboid.width() == self.width(),
            cuboid.height() == self.height(),
            cuboid.depth() == self.depth(),
            cuboid.default_value() == self.default_value(),
            cuboid.layers() == self.layers(),
    {
        proof {
            use_type_invariant(self);
        }
        Cuboid {
            data: self.data.clone(),
            default: share(&self.default),
            x_size: self.x_size,
            y_size: self.y_size,
            z_size: self.z_size,
        }
    }
}

} // verus!
