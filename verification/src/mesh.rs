//! Indexed triangle lists.
//!
//! A mesh holds its vertices once and names them by index: every three
//! consecutive indices are the corners of one triangle. What a vertex carries
//! (a position, texture coordinates, a normal, a point on the screen) is up to
//! the caller. A mesh that exists is well formed: its triangles are complete
//! and every index names a vertex.
use vstd::prelude::*;

verus! {

/// Why a vertex list and an index list make no mesh.
#[derive(Debug, PartialEq, Eq)]
pub enum MeshError {
    /// The number of indices is not a multiple of three.
    IncompleteTriangle { indices: usize },
    /// The index at `position` names no vertex.
    IndexOutOfRange { position: usize, index: u16 },
}

/// An indexed triangle list over vertices of type `V`.
#[derive(Debug)]
pub struct Mesh<V> {
    vertices: Vec<V>,
    indices: Vec<u16>,
}

/// Whether every one of the first `n` indices names one of `count` vertices.
pub open spec fn indices_in_range(indices: Seq<u16>, n: int, count: int) -> bool {
    forall|i: int| 0 <= i < n ==> (#[trigger] indices[i]) < count
}

impl<V> Mesh<V> {
    /// The vertices, in the order in which the indices count them.
    pub closed spec fn vertices(self) -> Seq<V> {
        self.vertices@
    }

    /// The indices, three for each triangle.
    pub closed spec fn indices(self) -> Seq<u16> {
        self.indices@
    }

    /// What holds of every mesh: the triangles are complete and every index
    /// names a vertex.
    pub open spec fn well_formed(self) -> bool {
        &&& self.indices().len() % 3 == 0
        &&& indices_in_range(self.indices(), self.indices().len() as int, self.vertices().len() as int)
    }

    #[verifier::type_invariant]
    spec fn inv(self) -> bool {
        self.well_formed()
    }

    /// The number of triangles.
    pub open spec fn triangles(self) -> int {
        self.indices().len() as int / 3
    }

    /// The index of the vertex at corner `c` (0, 1 or 2) of triangle `t`.
    pub open spec fn corner_index(self, t: int, c: int) -> int {
        self.indices()[3 * t + c] as int
    }

    /// The vertex at corner `c` (0, 1 or 2) of triangle `t`.
    pub open spec fn corner(self, t: int, c: int) -> V {
        self.vertices()[self.corner_index(t, c)]
    }

    /// Makes a mesh of `vertices` and `indices`, or says why they make none.
    /// An incomplete triangle is reported before an index out of range, and of
    /// several such indices the first.
    pub fn new(vertices: Vec<V>, indices: Vec<u16>) -> (made: Result<Mesh<V>, MeshError>)
        ensures
            made is Ok <==> indices@.len() % 3 == 0 && indices_in_range(
                indices@,
                indices@.len() as int,
                vertices@.len() as int,
            ),
            match made {
                Ok(mesh) => {
                    &&& mesh.vertices() == vertices@
                    &&& mesh.indices() == indices@
                    &&& mesh.well_formed()
                },
                Err(MeshError::IncompleteTriangle { indices: n }) => {
                    &&& n == indices@.len()
                    &&& n % 3 != 0
                },
                Err(MeshError::IndexOutOfRange { position, index }) => {
                    &&& indices@.len() % 3 == 0
                    &&& position < indices@.len()
                    &&& index == indices@[position as int]
                    &&& index >= vertices@.len()
                    &&& indices_in_range(indices@, position as int, vertices@.len() as int)
                },
            },
    {
        let n = indices.len();
        if n % 3 != 0 {
            return Err(MeshError::IncompleteTriangle { indices: n });
        }
        let count = vertices.len();
        let mut i: usize = 0;
        while i < n
            invariant
                n == indices@.len(),
                n % 3 == 0,
                count == vertices@.len(),
                i <= n,
                indices_in_range(indices@, i as int, count as int),
            decreases n - i,
        {
            let index = indices[i];
            if index as usize >= count {
                return Err(MeshError::IndexOutOfRange { position: i, index });
            }
            i += 1;
        }
        Ok(Mesh { vertices, indices })
    }

    /// The number of vertices.
    pub fn vertex_count(&self) -> (n: usize)
        ensures
            n == self.vertices().len(),
    {
        self.vertices.len()
    }

    /// The number of triangles.
    pub fn triangle_count(&self) -> (n: usize)
        ensures
            n == self.triangles(),
            3 * n == self.indices().len(),
    {
        proof {
            use_type_invariant(self);
        }
        self.indices.len() / 3
    }

    /// The indices of the three corners of triangle `t`, each of them the
    /// index of a vertex.
    pub fn triangle(&self, t: usize) -> (corners: [u16; 3])
        requires
            t < self.triangles(),
        ensures
            forall|c: int| 0 <= c < 3 ==> #[trigger] corners[c] == self.corner_index(t as int, c),
            forall|c: int| 0 <= c < 3 ==> self.corner_index(t as int, c) < self.vertices().len(),
    {
        proof {
            use_type_invariant(self);
            assert(3 * t + 2 < self.indices.len());
        }
        let base = 3 * t;
        [self.indices[base], self.indices[base + 1], self.indices[base + 2]]
    }

    /// The vertex that `index` names.
    pub fn vertex(&self, index: u16) -> (v: &V)
        requires
            index < self.vertices().len(),
        ensures
            *v == self.vertices()[index as int],
    {
        &self.vertices[index as usize]
    }
}

} // verus!
