//! The geometry of the shapes that stand for bodies on screen.

use crate::math::vector::{normalized, Distance, Vector2, Vector3};
use crate::number::Real;
use vstd::prelude::*;

verus! {

/// A corner of a mesh: where it is, which way its surface faces, and where
/// it lies on the texture.
pub struct Vertex<T, U> {
    pub pos: T,
    pub normal: T,
    pub tex_coord: U,
}

/// A vertex of vectors as the contracts see it.
pub struct VertexView<T> {
    pub pos: Seq<T>,
    pub normal: Seq<T>,
    pub tex_coord: Seq<T>,
}

impl<T, const N: usize, const M: usize> View for Vertex<
    crate::math::vector::Vector<T, N>,
    crate::math::vector::Vector<T, M>,
> {
    type V = VertexView<T>;

    open spec fn view(&self) -> VertexView<T> {
        VertexView { pos: self.pos@, normal: self.normal@, tex_coord: self.tex_coord@ }
    }
}

/// The shapes that a body can be drawn as.
#[derive(Debug, PartialEq, Eq)]
pub enum Shape {
    Sphere,
}

impl Default for Shape {
    fn default() -> (r: Self)
        ensures
            r == Shape::Sphere,
    {
        Shape::Sphere
    }
}

/// The whole number `n` as a scalar.
pub open spec fn whole<T: Real>(n: int) -> T {
    T::decimal_spec(n as i64, 0)
}

/// The vertex at a pole of the unit sphere: at height `y`, which is 1 or
/// -1, with the texture coordinate `v`.
pub open spec fn pole_vertex<T: Real>(y: T, v: T) -> VertexView<T> {
    let pos = seq![whole::<T>(0), y, whole::<T>(0)];
    VertexView { pos, normal: normalized(pos), tex_coord: seq![T::decimal_spec(5, -1i32), v] }
}

/// The vertex of the unit sphere on stack `stack` of `n_stacks` and sector
/// `sector` of `n_sectors`. The stacks run from the bottom to the top and
/// the sectors once around the vertical axis.
pub open spec fn ring_vertex<T: Real>(
    n_stacks: int,
    n_sectors: int,
    stack: int,
    sector: int,
) -> VertexView<T> {
    let percent_stacks = whole::<T>(stack).div_spec(whole::<T>(n_stacks));
    let phi = T::pi_spec().neg_spec().div_spec(whole::<T>(2)).add_spec(
        T::pi_spec().mul_spec(percent_stacks),
    );
    let percent_rotation = whole::<T>(sector).div_spec(whole::<T>(n_sectors));
    let theta = whole::<T>(2).mul_spec(T::pi_spec()).mul_spec(percent_rotation);
    let z_proj_magnitude = phi.cos_spec();
    let pos = seq![
        z_proj_magnitude.mul_spec(theta.cos_spec()),
        phi.sin_spec(),
        z_proj_magnitude.mul_spec(theta.sin_spec()),
    ];
    VertexView {
        pos,
        normal: normalized(pos),
        tex_coord: seq![
            whole::<T>(1).sub_spec(percent_rotation),
            whole::<T>(1).sub_spec(percent_stacks),
        ],
    }
}

/// The first `count` vertices of one stack. A stack has one vertex more
/// than there are sectors: the first and the last lie at the same place
/// and differ in their texture coordinates.
pub open spec fn ring_vertices<T: Real>(
    n_stacks: int,
    n_sectors: int,
    stack: int,
    count: int,
) -> Seq<VertexView<T>>
    decreases count,
{
    if count <= 0 {
        Seq::empty()
    } else {
        ring_vertices(n_stacks, n_sectors, stack, count - 1).push(
            ring_vertex(n_stacks, n_sectors, stack, count - 1),
        )
    }
}

/// The vertices of the stacks `1 .. stack`, stack by stack.
pub open spec fn rings_below<T: Real>(n_stacks: int, n_sectors: int, stack: int) -> Seq<
    VertexView<T>,
>
    decreases stack,
{
    if stack <= 1 {
        Seq::empty()
    } else {
        rings_below(n_stacks, n_sectors, stack - 1) + ring_vertices(
            n_stacks,
            n_sectors,
            stack - 1,
            n_sectors + 1,
        )
    }
}

/// The vertices of a sphere of `n_stacks` stacks and `n_sectors` sectors:
/// the bottom pole, the top pole, and the stacks between them from the
/// bottom up.
pub open spec fn sphere_vertices<T: Real>(n_stacks: int, n_sectors: int) -> Seq<VertexView<T>> {
    seq![
        pole_vertex(whole::<T>(-1), whole::<T>(1)),
        pole_vertex(whole::<T>(1), whole::<T>(0)),
    ] + rings_below(n_stacks, n_sectors, n_stacks)
}

/// How many vertices a sphere has.
pub open spec fn vertex_count(n_stacks: int, n_sectors: int) -> int {
    2 + (n_stacks - 1) * (n_sectors + 1)
}

/// The triangles that close the sphere at its poles, for the first `count`
/// sectors: for each sector one at the bottom, on the first stack, and one
/// at the top, on the last stack, whose vertices begin at `top`.
pub open spec fn cap_triangles(top: int, count: int) -> Seq<int>
    decreases count,
{
    if count <= 0 {
        Seq::empty()
    } else {
        let k = count - 1;
        cap_triangles(top, k) + seq![2 + k, 0, 2 + k + 1, top + k, 1, top + k + 1]
    }
}

/// The two triangles of each of the first `count` quadrangles between the
/// stack whose vertices begin at `2 + offset` and the stack above it.
pub open spec fn band_triangles(n_sectors: int, offset: int, count: int) -> Seq<int>
    decreases count,
{
    if count <= 0 {
        Seq::empty()
    } else {
        let bottom_left = 2 + offset + count - 1;
        let bottom_right = bottom_left + 1;
        let top_left = bottom_left + n_sectors + 1;
        let top_right = top_left + 1;
        band_triangles(n_sectors, offset, count - 1) + seq![
            top_left,
            bottom_left,
            top_right,
            top_right,
            bottom_left,
            bottom_right,
        ]
    }
}

/// The triangles between the stacks `1 .. stack`, band by band.
pub open spec fn bands_below(n_sectors: int, stack: int) -> Seq<int>
    decreases stack,
{
    if stack <= 1 {
        Seq::empty()
    } else {
        bands_below(n_sectors, stack - 1) + band_triangles(
            n_sectors,
            (stack - 2) * (n_sectors + 1),
            n_sectors,
        )
    }
}

/// The triangles of a sphere, three indices into its vertices each: first
/// those at the poles, then those between the stacks.
pub open spec fn sphere_indices(n_stacks: int, n_sectors: int) -> Seq<int> {
    cap_triangles(2 + (n_sectors + 1) * (n_stacks - 2), n_sectors) + bands_below(
        n_sectors,
        n_stacks - 1,
    )
}

/// A stack holds as many vertices as were asked for.
pub proof fn lemma_ring_vertices_len<T: Real>(
    n_stacks: int,
    n_sectors: int,
    stack: int,
    count: int,
)
    requires
        0 <= count,
    ensures
        ring_vertices::<T>(n_stacks, n_sectors, stack, count).len() == count,
    decreases count,
{
    if count > 0 {
        lemma_ring_vertices_len::<T>(n_stacks, n_sectors, stack, count - 1);
    }
}

/// The stacks below `stack` hold one vertex more than there are sectors
/// each.
pub proof fn lemma_rings_below_len<T: Real>(n_stacks: int, n_sectors: int, stack: int)
    requires
        1 <= stack,
        0 <= n_sectors,
    ensures
        rings_below::<T>(n_stacks, n_sectors, stack).len() == (stack - 1) * (n_sectors + 1),
    decreases stack,
{
    if stack > 1 {
        lemma_rings_below_len::<T>(n_stacks, n_sectors, stack - 1);
        lemma_ring_vertices_len::<T>(n_stacks, n_sectors, stack - 1, n_sectors + 1);
        assert((stack - 2) * (n_sectors + 1) + (n_sectors + 1) == (stack - 1) * (n_sectors + 1))
            by (nonlinear_arith);
    } else {
        assert((stack - 1) * (n_sectors + 1) == 0) by (nonlinear_arith)
            requires
                stack == 1,
        ;
    }
}

/// Every index of the triangles at the poles is below `bound`, where the
/// last stack fits below `bound`.
pub proof fn lemma_cap_triangles_in_range(top: int, count: int, bound: int, p: int)
    requires
        0 <= count,
        2 <= top,
        top + count < bound,
        0 <= p < cap_triangles(top, count).len(),
    ensures
        0 <= cap_triangles(top, count)[p] < bound,
        cap_triangles(top, count).len() == 6 * count,
    decreases count,
{
    lemma_cap_triangles_len(top, count);
    if count > 0 {
        lemma_cap_triangles_len(top, count - 1);
        if p < 6 * (count - 1) {
            lemma_cap_triangles_in_range(top, count - 1, bound, p);
        }
    }
}

/// There are two triangles at the poles for each sector.
pub proof fn lemma_cap_triangles_len(top: int, count: int)
    requires
        0 <= count,
    ensures
        cap_triangles(top, count).len() == 6 * count,
    decreases count,
{
    if count > 0 {
        lemma_cap_triangles_len(top, count - 1);
    }
}

/// There are two triangles for each quadrangle of a band.
pub proof fn lemma_band_triangles_len(n_sectors: int, offset: int, count: int)
    requires
        0 <= count,
    ensures
        band_triangles(n_sectors, offset, count).len() == 6 * count,
    decreases count,
{
    if count > 0 {
        lemma_band_triangles_len(n_sectors, offset, count - 1);
    }
}

/// Every index of a band is below `bound`, where the stack above the band
/// fits below `bound`.
pub proof fn lemma_band_triangles_in_range(
    n_sectors: int,
    offset: int,
    count: int,
    bound: int,
    p: int,
)
    requires
        0 <= count <= n_sectors,
        0 <= offset,
        2 + offset + 2 * (n_sectors + 1) <= bound,
        0 <= p < band_triangles(n_sectors, offset, count).len(),
    ensures
        0 <= band_triangles(n_sectors, offset, count)[p] < bound,
    decreases count,
{
    lemma_band_triangles_len(n_sectors, offset, count);
    if count > 0 {
        lemma_band_triangles_len(n_sectors, offset, count - 1);
        if p < 6 * (count - 1) {
            lemma_band_triangles_in_range(n_sectors, offset, count - 1, bound, p);
        }
    }
}

/// The bands below `stack` hold six indices for each sector of each band.
pub proof fn lemma_bands_below_len(n_sectors: int, stack: int)
    requires
        1 <= stack,
        0 <= n_sectors,
    ensures
        bands_below(n_sectors, stack).len() == 6 * n_sectors * (stack - 1),
    decreases stack,
{
    if stack > 1 {
        lemma_bands_below_len(n_sectors, stack - 1);
        lemma_band_triangles_len(n_sectors, (stack - 2) * (n_sectors + 1), n_sectors);
        assert(6 * n_sectors * (stack - 2) + 6 * n_sectors == 6 * n_sectors * (stack - 1))
            by (nonlinear_arith);
    } else {
        assert(6 * n_sectors * (stack - 1) == 0) by (nonlinear_arith)
            requires
                stack == 1,
        ;
    }
}

/// Every index of the bands below `stack` is below the number of vertices
/// of the stacks up to `stack`.
pub proof fn lemma_bands_below_in_range(n_sectors: int, stack: int, p: int)
    requires
        1 <= stack,
        0 <= n_sectors,
        0 <= p < bands_below(n_sectors, stack).len(),
    ensures
        0 <= bands_below(n_sectors, stack)[p] < 2 + stack * (n_sectors + 1),
    decreases stack,
{
    if stack > 1 {
        let before = bands_below(n_sectors, stack - 1);
        let offset = (stack - 2) * (n_sectors + 1);
        assert(0 <= offset) by (nonlinear_arith)
            requires
                offset == (stack - 2) * (n_sectors + 1),
                stack >= 2,
                n_sectors >= 0,
        ;
        assert(offset + 2 * (n_sectors + 1) == stack * (n_sectors + 1)) by (nonlinear_arith)
            requires
                offset == (stack - 2) * (n_sectors + 1),
        ;
        assert((stack - 1) * (n_sectors + 1) <= stack * (n_sectors + 1)) by (nonlinear_arith)
            requires
                n_sectors >= 0,
        ;
        if p < before.len() {
            lemma_bands_below_in_range(n_sectors, stack - 1, p);
        } else {
            lemma_band_triangles_in_range(
                n_sectors,
                offset,
                n_sectors,
                2 + stack * (n_sectors + 1),
                p - before.len(),
            );
        }
    }
}

/// A sphere of at least two stacks has six indices for each sector of each
/// stack but the last, and every index names one of its vertices.
pub proof fn lemma_sphere_indices(n_stacks: int, n_sectors: int)
    requires
        2 <= n_stacks,
        0 <= n_sectors,
    ensures
        sphere_indices(n_stacks, n_sectors).len() == 6 * n_sectors * (n_stacks - 1),
        forall|p: int|
            0 <= p < sphere_indices(n_stacks, n_sectors).len() ==> 0 <= #[trigger] sphere_indices(
                n_stacks,
                n_sectors,
            )[p] < vertex_count(n_stacks, n_sectors),
{
    let top = 2 + (n_sectors + 1) * (n_stacks - 2);
    let caps = cap_triangles(top, n_sectors);
    let bands = bands_below(n_sectors, n_stacks - 1);
    lemma_cap_triangles_len(top, n_sectors);
    lemma_bands_below_len(n_sectors, n_stacks - 1);
    assert(6 * n_sectors + 6 * n_sectors * (n_stacks - 2) == 6 * n_sectors * (n_stacks - 1))
        by (nonlinear_arith);
    assert(0 <= (n_sectors + 1) * (n_stacks - 2)) by (nonlinear_arith)
        requires
            2 <= n_stacks,
            0 <= n_sectors,
    ;
    assert((n_sectors + 1) * (n_stacks - 2) + (n_sectors + 1) == (n_stacks - 1) * (n_sectors + 1))
        by (nonlinear_arith);
    assert forall|p: int| 0 <= p < sphere_indices(n_stacks, n_sectors).len() implies 0
        <= #[trigger] sphere_indices(n_stacks, n_sectors)[p] < vertex_count(
        n_stacks,
        n_sectors,
    ) by {
        if p < caps.len() {
            lemma_cap_triangles_in_range(top, n_sectors, vertex_count(n_stacks, n_sectors), p);
        } else {
            lemma_bands_below_in_range(n_sectors, n_stacks - 1, p - caps.len());
        }
    }
}

/// The whole number `n` as a scalar.
fn scalar_of<T: Real>(n: u32) -> (r: T)
    ensures
        r == whole::<T>(n as int),
{
    T::from_decimal(n as i64, 0)
}

/// The vertices and the triangle indices of a sphere of `n_stacks` stacks
/// and `n_sectors` sectors, in local space: with coordinates between -1 and
/// 1 on all axes.
///
/// A sphere needs two stacks at least; the numbers must be small enough for
/// the index of every vertex to fit its type.
pub fn generate_uv_sphere<T: Real>(n_stacks: u32, n_sectors: u32) -> (r: (
    Vec<Vertex<Vector3<T>, Vector2<T>>>,
    Vec<u32>,
))
    requires
        n_stacks >= 2 || (n_stacks == 1 && n_sectors == 0),
        vertex_count(n_stacks as int, n_sectors as int) <= u32::MAX,
    ensures
        r.0@.map_values(|v: Vertex<Vector3<T>, Vector2<T>>| v@) == sphere_vertices::<T>(
            n_stacks as int,
            n_sectors as int,
        ),
        r.0@.len() == vertex_count(n_stacks as int, n_sectors as int),
        r.1@.map_values(|i: u32| i as int) == sphere_indices(n_stacks as int, n_sectors as int),
        n_stacks >= 2 ==> forall|p: int| 0 <= p < r.1@.len() ==> (#[trigger] r.1@[p]) < r.0@.len(),
{
    let ghost stacks = n_stacks as int;
    let ghost sectors = n_sectors as int;
    let mut vertices: Vec<Vertex<Vector3<T>, Vector2<T>>> = Vec::new();
    let mut indices: Vec<u32> = Vec::new();

    // First create bottom and top points
    vertices.push(
        Vertex {
            pos: Vector3::new(scalar_of::<T>(0), T::from_decimal(-1, 0), scalar_of::<T>(0)),
            normal: Vector3::new(
                scalar_of::<T>(0),
                T::from_decimal(-1, 0),
                scalar_of::<T>(0),
            ).normalize(),
            tex_coord: Vector2::new(T::from_decimal(5, -1), scalar_of::<T>(1)),
        },
    );
    vertices.push(
        Vertex {
            pos: Vector3::new(scalar_of::<T>(0), scalar_of::<T>(1), scalar_of::<T>(0)),
            normal: Vector3::new(
                scalar_of::<T>(0),
                scalar_of::<T>(1),
                scalar_of::<T>(0),
            ).normalize(),
            tex_coord: Vector2::new(T::from_decimal(5, -1), scalar_of::<T>(0)),
        },
    );
    let ghost poles = seq![
        pole_vertex(whole::<T>(-1), whole::<T>(1)),
        pole_vertex(whole::<T>(1), whole::<T>(0)),
    ];

    let mut stack_step: u32 = 1;
    while stack_step < n_stacks
        invariant
            1 <= stack_step <= n_stacks,
            stacks == n_stacks as int,
            sectors == n_sectors as int,
            vertices@.map_values(|v: Vertex<Vector3<T>, Vector2<T>>| v@) == poles
                + rings_below::<T>(stacks, sectors, stack_step as int),
        decreases n_stacks - stack_step,
    {
        let percent_stacks = scalar_of::<T>(stack_step).div(scalar_of::<T>(n_stacks));
        let phi = T::pi().neg().div(scalar_of::<T>(2)).add(T::pi().mul(percent_stacks));
        let ghost below = rings_below::<T>(stacks, sectors, stack_step as int);

        // Create n_sectors+1. The first and last will have the same position coordinates
        // but allow for different texture coordinates.
        let mut sector_step: u32 = 0;
        loop
            invariant_except_break
                sector_step <= n_sectors,
                vertices@.map_values(|v: Vertex<Vector3<T>, Vector2<T>>| v@) == poles + below
                    + ring_vertices::<T>(stacks, sectors, stack_step as int, sector_step as int),
            invariant
                1 <= stack_step < n_stacks,
                stacks == n_stacks as int,
                sectors == n_sectors as int,
                below == rings_below::<T>(stacks, sectors, stack_step as int),
                percent_stacks == whole::<T>(stack_step as int).div_spec(whole::<T>(stacks)),
                phi == T::pi_spec().neg_spec().div_spec(whole::<T>(2)).add_spec(
                    T::pi_spec().mul_spec(percent_stacks),
                ),
            ensures
                vertices@.map_values(|v: Vertex<Vector3<T>, Vector2<T>>| v@) == poles + below
                    + ring_vertices::<T>(stacks, sectors, stack_step as int, sectors + 1),
            decreases n_sectors - sector_step,
        {
            let percent_rotation = scalar_of::<T>(sector_step).div(scalar_of::<T>(n_sectors));
            let theta = scalar_of::<T>(2).mul(T::pi()).mul(percent_rotation);
            let z_proj_magnitude = phi.cos();
            let x = z_proj_magnitude.mul(theta.cos());
            let y = phi.sin();
            let z = z_proj_magnitude.mul(theta.sin());

            let vertex = Vertex {
                pos: Vector3::new(x, y, z),
                normal: Vector3::new(x, y, z).normalize(),
                tex_coord: Vector2::new(
                    scalar_of::<T>(1).sub(percent_rotation),
                    scalar_of::<T>(1).sub(percent_stacks),
                ),
            };
            proof {
                let ring = ring_vertices::<T>(
                    stacks,
                    sectors,
                    stack_step as int,
                    sector_step as int,
                );
                assert((poles + below + ring).push(vertex@) =~= poles + below + ring.push(vertex@));
            }
            vertices.push(vertex);
            if sector_step == n_sectors {
                break ;
            }
            sector_step += 1;
        }
        stack_step += 1;
    }
    proof {
        if n_stacks == 1 {
            assert(vertex_count(stacks, sectors) == 2) by (nonlinear_arith)
                requires
                    stacks == 1,
            ;
        }
        lemma_rings_below_len::<T>(stacks, sectors, stacks);
    }

    // Bottom and top stacks will only need single triangles for their faces
    let ghost top = 2 + (sectors + 1) * (stacks - 2);
    proof {
        if n_stacks >= 2 {
            assert(0 <= (sectors + 1) * (stacks - 2)) by (nonlinear_arith)
                requires
                    2 <= stacks,
                    0 <= sectors,
            ;
            assert((sectors + 1) * (stacks - 2) + (sectors + 1) == (stacks - 1) * (sectors + 1))
                by (nonlinear_arith);
        }
    }
    let mut sector_step: u32 = 0;
    while sector_step < n_sectors
        invariant
            0 <= sector_step <= n_sectors,
            stacks == n_stacks as int,
            sectors == n_sectors as int,
            n_stacks >= 2 || n_sectors == 0,
            top == 2 + (sectors + 1) * (stacks - 2),
            n_stacks >= 2 ==> 2 <= top && top + sectors + 1 == vertex_count(stacks, sectors),
            vertex_count(stacks, sectors) <= u32::MAX,
            indices@.map_values(|i: u32| i as int) == cap_triangles(top, sector_step as int),
        decreases n_sectors - sector_step,
    {
        let bottom_vertex_offset = 2 + sector_step;
        assert((n_sectors + 1) * (n_stacks - 2) == (sectors + 1) * (stacks - 2)) by (
            nonlinear_arith)
            requires
                sectors == n_sectors as int,
                stacks == n_stacks as int,
                n_stacks >= 2,
                (sectors + 1) * (stacks - 2) <= u32::MAX,
                sectors + 1 <= u32::MAX,
        ;
        let top_vertex_offset = 2 + (n_sectors + 1) * (n_stacks - 2) + sector_step;
        indices.push(bottom_vertex_offset);
        indices.push(0);
        indices.push(bottom_vertex_offset + 1);
        indices.push(top_vertex_offset);
        indices.push(1);
        indices.push(top_vertex_offset + 1);
        sector_step += 1;
    }

    // Each sector of each stack will require two triangles to cover their quadrangle
    let vertices_per_stack = n_sectors + 1;
    let ghost caps = cap_triangles(top, sectors);
    let mut stack_step: u32 = 1;
    while stack_step < n_stacks - 1
        invariant
            1 <= stack_step,
            n_stacks >= 2 ==> stack_step <= n_stacks - 1,
            n_stacks == 1 ==> stack_step == 1,
            1 <= n_stacks,
            stacks == n_stacks as int,
            sectors == n_sectors as int,
            vertices_per_stack == n_sectors + 1,
            vertex_count(stacks, sectors) <= u32::MAX,
            indices@.map_values(|i: u32| i as int) == caps + bands_below(
                sectors,
                stack_step as int,
            ),
        decreases n_stacks - stack_step,
    {
        let num_stacks_below = stack_step - 1;
        assert(0 <= num_stacks_below * vertices_per_stack && num_stacks_below * vertices_per_stack
            + 2 * (n_sectors + 1) + 2 <= vertex_count(stacks, sectors)) by (nonlinear_arith)
            requires
                num_stacks_below == stack_step - 1,
                1 <= stack_step < n_stacks - 1,
                vertices_per_stack == n_sectors + 1,
                stacks == n_stacks as int,
                sectors == n_sectors as int,
        ;
        let vertex_offset = num_stacks_below * vertices_per_stack;
        let ghost before = bands_below(sectors, stack_step as int);
        let mut sector_step: u32 = 0;
        while sector_step < n_sectors
            invariant
                0 <= sector_step <= n_sectors,
                stacks == n_stacks as int,
                sectors == n_sectors as int,
                vertices_per_stack == n_sectors + 1,
                vertex_offset == (stack_step - 1) * (n_sectors + 1),
                vertex_offset + 2 * (n_sectors + 1) + 2 <= vertex_count(stacks, sectors),
                vertex_count(stacks, sectors) <= u32::MAX,
                before == bands_below(sectors, stack_step as int),
                indices@.map_values(|i: u32| i as int) == caps + before + band_triangles(
                    sectors,
                    vertex_offset as int,
                    sector_step as int,
                ),
            decreases n_sectors - sector_step,
        {
            let bottom_left_point = 2 + vertex_offset + sector_step;
            let bottom_right_point = bottom_left_point + 1;
            let top_left_point = bottom_left_point + vertices_per_stack;
            let top_right_point = top_left_point + 1;
            let ghost earlier = indices@.map_values(|i: u32| i as int);
            let ghost added = seq![
                top_left_point as int,
                bottom_left_point as int,
                top_right_point as int,
                top_right_point as int,
                bottom_left_point as int,
                bottom_right_point as int,
            ];
            indices.push(top_left_point);
            indices.push(bottom_left_point);
            indices.push(top_right_point);
            indices.push(top_right_point);
            indices.push(bottom_left_point);
            indices.push(bottom_right_point);
            assert(indices@.map_values(|i: u32| i as int) =~= earlier + added);
            sector_step += 1;
        }
        stack_step += 1;
    }
    proof {
        if n_stacks >= 2 {
            lemma_sphere_indices(stacks, sectors);
            assert forall|p: int| 0 <= p < indices@.len() implies (#[trigger] indices@[p])
                < vertices@.len() by {
                assert(indices@.map_values(|i: u32| i as int)[p] == sphere_indices(
                    stacks,
                    sectors,
                )[p]);
            }
        }
    }

    (vertices, indices)
}

} // verus!
