use vstd::prelude::*;

verus! {

/// Vertices and the indices that join them into primitives (triangles, lines or points,
/// depending on how the mesh is drawn).
pub struct Mesh<V> {
    pub vertices: Vec<V>,
    pub indices: Vec<u32>,
}

/// Every index refers to an existing vertex.
pub open spec fn indices_in_range(indices: Seq<u32>, n: int) -> bool {
    forall|i: int| 0 <= i < indices.len() ==> #[trigger] indices[i] < n
}

/// The index a new vertex gets: the vertex count, cut to 32 bits.
pub open spec fn base_index(n: nat) -> u32 {
    (n % 0x1_0000_0000) as u32
}

/// The indices `[0, 1, 1, 2, ..., n-2, n-1]` that join `n` vertices into a polyline.
pub open spec fn strip_indices(n: nat) -> Seq<u32>
    decreases n,
{
    if n < 2 {
        Seq::empty()
    } else {
        strip_indices((n - 1) as nat) + seq![(n - 2) as u32, (n - 1) as u32]
    }
}

/// The indices `[b, b+1, b+2, b, b+2, b+3, ...]` of a triangle fan over `k` vertices from `b`.
pub open spec fn fan_indices(b: int, k: nat) -> Seq<u32>
    decreases k,
{
    if k < 3 {
        Seq::empty()
    } else {
        fan_indices(b, (k - 1) as nat) + seq![b as u32, (b + k - 2) as u32, (b + k - 1) as u32]
    }
}

/// The vertex count `n` cut to 32 bits, as `n as u32` gives it.
fn base_of(n: usize) -> (b: u32)
    ensures
        b == base_index(n as nat),
{
    ((n as u64) % 0x1_0000_0000u64) as u32
}

impl<V> Mesh<V> {
    /// Every index refers to an existing vertex.
    pub open spec fn well_formed(&self) -> bool {
        indices_in_range(self.indices@, self.vertices@.len() as int)
    }

    /// A mesh made of the given vertices and indices.
    pub fn new(vertices: Vec<V>, indices: Vec<u32>) -> (m: Self)
        ensures
            m.vertices == vertices,
            m.indices == indices,
    {
        Mesh { vertices, indices }
    }

    /// A mesh with no vertices and no indices.
    pub fn empty() -> (m: Self)
        ensures
            m.vertices@ == Seq::<V>::empty(),
            m.indices@ == Seq::<u32>::empty(),
            m.well_formed(),
    {
        Mesh { vertices: Vec::new(), indices: Vec::new() }
    }

    /// Whether the mesh has nothing to draw.
    pub fn is_empty(&self) -> (r: bool)
        ensures
            r == (self.vertices@.len() == 0 && self.indices@.len() == 0),
    {
        self.vertices.len() == 0 && self.indices.len() == 0
    }

    /// Drops all vertices and indices.
    pub fn clear(&mut self)
        ensures
            final(self).vertices@ == Seq::<V>::empty(),
            final(self).indices@ == Seq::<u32>::empty(),
    {
        self.vertices.clear();
        self.indices.clear();
    }

    /// Appends the four corners of a quad and the two triangles that cover it.
    pub fn push_quad(&mut self, v0: V, v1: V, v2: V, v3: V)
        requires
            base_index(old(self).vertices@.len()) + 3 <= u32::MAX,
        ensures
            ({
                let b = base_index(old(self).vertices@.len());
                &&& final(self).vertices@ == old(self).vertices@ + seq![v0, v1, v2, v3]
                &&& final(self).indices@ == old(self).indices@ + seq![
                    b,
                    (b + 1) as u32,
                    (b + 2) as u32,
                    b,
                    (b + 2) as u32,
                    (b + 3) as u32,
                ]
            }),
            old(self).well_formed() && old(self).vertices@.len() < 0x1_0000_0000
                ==> final(self).well_formed(),
    {
        let b = base_of(self.vertices.len());
        self.vertices.push(v0);
        self.vertices.push(v1);
        self.vertices.push(v2);
        self.vertices.push(v3);
        self.indices.push(b);
        self.indices.push(b + 1);
        self.indices.push(b + 2);
        self.indices.push(b);
        self.indices.push(b + 2);
        self.indices.push(b + 3);
        assert(self.vertices@ =~= old(self).vertices@ + seq![v0, v1, v2, v3]);
        assert(self.indices@ =~= old(self).indices@ + seq![
            b,
            (b + 1) as u32,
            (b + 2) as u32,
            b,
            (b + 2) as u32,
            (b + 3) as u32,
        ]);
    }

    /// Appends the two ends of a line segment and the pair of indices that joins them.
    pub fn push_segment(&mut self, v0: V, v1: V)
        requires
            base_index(old(self).vertices@.len()) + 1 <= u32::MAX,
        ensures
            ({
                let b = base_index(old(self).vertices@.len());
                &&& final(self).vertices@ == old(self).vertices@ + seq![v0, v1]
                &&& final(self).indices@ == old(self).indices@ + seq![b, (b + 1) as u32]
            }),
            old(self).well_formed() && old(self).vertices@.len() < 0x1_0000_0000
                ==> final(self).well_formed(),
    {
        let b = base_of(self.vertices.len());
        self.vertices.push(v0);
        self.vertices.push(v1);
        self.indices.push(b);
        self.indices.push(b + 1);
        assert(self.vertices@ =~= old(self).vertices@ + seq![v0, v1]);
        assert(self.indices@ =~= old(self).indices@ + seq![b, (b + 1) as u32]);
    }

    /// Appends `points` as a triangle fan around the first of them. Fewer than three points
    /// make no triangle and are not added.
    pub fn push_fan(&mut self, points: Vec<V>)
        requires
            points@.len() >= 3 ==> base_index(old(self).vertices@.len()) + points@.len() - 1
                <= u32::MAX,
        ensures
            points@.len() < 3 ==> *final(self) == *old(self),
            points@.len() >= 3 ==> {
                let b = base_index(old(self).vertices@.len());
                &&& final(self).vertices@ == old(self).vertices@ + points@
                &&& final(self).indices@ == old(self).indices@ + fan_indices(
                    b as int,
                    points@.len(),
                )
            },
            old(self).well_formed() && old(self).vertices@.len() < 0x1_0000_0000
                ==> final(self).well_formed(),
    {
        let k = points.len();
        if k < 3 {
            return;
        }
        let b = base_of(self.vertices.len());
        let ghost b_int = b as int;
        let mut points = points;
        let ghost pts = points@;
        let ghost old_len = self.vertices@.len();
        self.vertices.append(&mut points);
        assert(self.vertices@ == old(self).vertices@ + pts);
        let mut i: u32 = 1;
        let ghost start = self.indices@;
        proof {
            reveal_with_fuel(fan_indices, 3);
        }
        while (i as usize) < k - 1
            invariant
                1 <= i <= k - 1,
                k == pts.len(),
                k >= 3,
                b as int == base_index(old_len),
                b + k - 1 <= u32::MAX,
                self.indices@ == start + fan_indices(b as int, (i + 1) as nat),
                self.vertices@.len() == old_len + k,
                self.vertices@ == old(self).vertices@ + pts,
                old_len == old(self).vertices@.len(),
                start == old(self).indices@,
                old(self).well_formed() && old_len < 0x1_0000_0000 ==> indices_in_range(
                    self.indices@,
                    self.vertices@.len() as int,
                ),
            decreases k - 1 - i,
        {
            let ghost before = self.indices@;
            self.indices.push(b);
            self.indices.push(b + i);
            self.indices.push(b + i + 1);
            assert(fan_indices(b as int, (i + 2) as nat) == fan_indices(b as int, (i + 1) as nat)
                + seq![b as u32, (b + i) as u32, (b + i + 1) as u32]);
            assert(self.indices@ =~= before + seq![b as u32, (b + i) as u32, (b + i + 1) as u32]);
            proof {
                if old(self).well_formed() && old_len < 0x1_0000_0000 {
                    assert(b as int == old_len);
                    assert forall|j: int| 0 <= j < self.indices@.len() implies #[trigger] self.indices@[j]
                        < self.vertices@.len() as int by {
                        if j < before.len() {
                            assert(self.indices@[j] == before[j]);
                        }
                    }
                }
            }
            i = i + 1;
        }
        assert(i as int == k - 1);
        assert(self.indices@ == old(self).indices@ + fan_indices(b as int, k as nat));
    }
}

/// Line strip indices `[0, 1, 1, 2, ..., n-2, n-1]` for `n` vertices; none for fewer than two.
pub fn strip(n: u32) -> (r: Vec<u32>)
    ensures
        r@ == strip_indices(n as nat),
{
    let mut r: Vec<u32> = Vec::new();
    if n < 2 {
        return r;
    }
    let mut i: u32 = 0;
    while i < n - 1
        invariant
            n >= 2,
            i <= n - 1,
            r@ == strip_indices((i + 1) as nat),
        decreases n - 1 - i,
    {
        r.push(i);
        r.push(i + 1);
        assert(r@ =~= strip_indices((i + 1) as nat) + seq![i, (i + 1) as u32]);
        i = i + 1;
    }
    r
}

/// The indices `0, 1, ..., n-1`, one per point.
pub fn point_indices(n: u32) -> (r: Vec<u32>)
    ensures
        r@.len() == n,
        forall|i: int| 0 <= i < n ==> #[trigger] r@[i] == i,
{
    let mut r: Vec<u32> = Vec::new();
    let mut i: u32 = 0;
    while i < n
        invariant
            i <= n,
            r@.len() == i,
            forall|j: int| 0 <= j < i ==> #[trigger] r@[j] == j,
        decreases n - i,
    {
        r.push(i);
        i = i + 1;
    }
    r
}

} // verus!
