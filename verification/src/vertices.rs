//! The quad that every layer is drawn on, and the orientation of the layer
//! texture on it.
//!
//! A texture coordinate of the quad is always a corner of the unit square,
//! so each component is held as the integer 0 or 1.
use vstd::prelude::*;

verus! {

/// A vertex position in clip space; each component is -1, 0 or 1.
#[derive(Clone, Copy, Debug, PartialEq, Eq, Structural)]
pub struct Position {
    pub x: i8,
    pub y: i8,
    pub z: i8,
}

/// A texture coordinate at a corner of the unit square; each component is
/// 0 or 1.
#[derive(Clone, Copy, Debug, PartialEq, Eq, Structural)]
pub struct TexCoord {
    pub x: u8,
    pub y: u8,
}

/// One corner of the quad: where it is drawn, where it samples the
/// composite below, and where it samples the layer being drawn.
#[derive(Clone, Copy, Debug, PartialEq, Eq, Structural)]
pub struct Vertex {
    pub position: Position,
    pub bg_coords: TexCoord,
    pub fg_coords: TexCoord,
}

/// The order in which the four vertices are drawn as a triangle strip.
pub const INDICES: [u16; 4] = [0, 1, 2, 3];

pub open spec fn pos(x: i8, y: i8) -> Position {
    Position { x, y, z: 0 }
}

pub open spec fn tc(x: u8, y: u8) -> TexCoord {
    TexCoord { x, y }
}

/// The quad covering the whole target, with the layer upright: top-left,
/// bottom-left, top-right, bottom-right.
pub open spec fn spec_square_vertices() -> Seq<Vertex> {
    seq![
        Vertex { position: pos(-1i8, 1i8), bg_coords: tc(0, 0), fg_coords: tc(0, 1) },
        Vertex { position: pos(-1i8, -1i8), bg_coords: tc(0, 1), fg_coords: tc(0, 0) },
        Vertex { position: pos(1, 1), bg_coords: tc(1, 0), fg_coords: tc(1, 1) },
        Vertex { position: pos(1i8, -1i8), bg_coords: tc(1, 1), fg_coords: tc(1, 0) },
    ]
}

/// The initial quad.
pub fn square_vertices() -> (vs: [Vertex; 4])
    ensures
        vs@ == spec_square_vertices(),
{
    [
        Vertex {
            position: Position { x: -1, y: 1, z: 0 },
            bg_coords: TexCoord { x: 0, y: 0 },
            fg_coords: TexCoord { x: 0, y: 1 },
        },
        Vertex {
            position: Position { x: -1, y: -1, z: 0 },
            bg_coords: TexCoord { x: 0, y: 1 },
            fg_coords: TexCoord { x: 0, y: 0 },
        },
        Vertex {
            position: Position { x: 1, y: 1, z: 0 },
            bg_coords: TexCoord { x: 1, y: 0 },
            fg_coords: TexCoord { x: 1, y: 1 },
        },
        Vertex {
            position: Position { x: 1, y: -1, z: 0 },
            bg_coords: TexCoord { x: 1, y: 1 },
            fg_coords: TexCoord { x: 1, y: 0 },
        },
    ]
}

/// Whether both components of `c` are 0 or 1.
pub open spec fn unit_coord(c: TexCoord) -> bool {
    c.x <= 1 && c.y <= 1
}

/// Whether `vs` is a quad of four vertices whose layer coordinates are
/// corners of the unit square.
pub open spec fn unit_quad(vs: Seq<Vertex>) -> bool {
    &&& vs.len() == 4
    &&& forall|i: int| 0 <= i < 4 ==> #[trigger] unit_coord(vs[i].fg_coords)
}

/// The number of components in which two corners differ.
pub open spec fn corner_distance(a: TexCoord, b: TexCoord) -> int {
    (if a.x == b.x { 0int } else { 1int }) + (if a.y == b.y { 0int } else { 1int })
}

/// Whether the layer is mapped onto the quad by a symmetry of the square:
/// corners that are neighbours on the quad (0-1, 1-3, 3-2, 2-0) get
/// neighbouring texture corners, and opposite corners get opposite ones.
/// The layer is then shown whole, undistorted, turned and mirrored only.
pub open spec fn is_rigid(vs: Seq<Vertex>) -> bool {
    &&& unit_quad(vs)
    &&& corner_distance(vs[0].fg_coords, vs[1].fg_coords) == 1
    &&& corner_distance(vs[1].fg_coords, vs[3].fg_coords) == 1
    &&& corner_distance(vs[3].fg_coords, vs[2].fg_coords) == 1
    &&& corner_distance(vs[2].fg_coords, vs[0].fg_coords) == 1
    &&& corner_distance(vs[0].fg_coords, vs[3].fg_coords) == 2
    &&& corner_distance(vs[1].fg_coords, vs[2].fg_coords) == 2
}

/// A corner mirrored horizontally when `h` and vertically when `v`.
pub open spec fn flip_coord(c: TexCoord, h: bool, v: bool) -> TexCoord {
    TexCoord {
        x: if h { (1 - c.x) as u8 } else { c.x },
        y: if v { (1 - c.y) as u8 } else { c.y },
    }
}

/// `v` with its layer coordinate replaced by `fg`.
pub open spec fn with_fg(v: Vertex, fg: TexCoord) -> Vertex {
    Vertex { position: v.position, bg_coords: v.bg_coords, fg_coords: fg }
}

/// The quad with the layer mirrored horizontally when `h` and vertically
/// when `v`.
pub open spec fn flipped(vs: Seq<Vertex>, h: bool, v: bool) -> Seq<Vertex> {
    Seq::new(vs.len(), |i: int| with_fg(vs[i], flip_coord(vs[i].fg_coords, h, v)))
}

/// The quad with the layer coordinates moved one step round the quad:
/// counter-clockwise when `ccw`, clockwise otherwise.
pub open spec fn rotated(vs: Seq<Vertex>, ccw: bool) -> Seq<Vertex> {
    if ccw {
        seq![
            with_fg(vs[0], vs[1].fg_coords),
            with_fg(vs[1], vs[3].fg_coords),
            with_fg(vs[2], vs[0].fg_coords),
            with_fg(vs[3], vs[2].fg_coords),
        ]
    } else {
        seq![
            with_fg(vs[0], vs[2].fg_coords),
            with_fg(vs[1], vs[0].fg_coords),
            with_fg(vs[2], vs[3].fg_coords),
            with_fg(vs[3], vs[1].fg_coords),
        ]
    }
}

fn flip_one(v: Vertex, flip_hv: (bool, bool)) -> (r: Vertex)
    requires
        unit_coord(v.fg_coords),
    ensures
        r == with_fg(v, flip_coord(v.fg_coords, flip_hv.0, flip_hv.1)),
{
    let x = if flip_hv.0 { 1 - v.fg_coords.x } else { v.fg_coords.x };
    let y = if flip_hv.1 { 1 - v.fg_coords.y } else { v.fg_coords.y };
    Vertex { position: v.position, bg_coords: v.bg_coords, fg_coords: TexCoord { x, y } }
}

fn set_fg(v: Vertex, fg: TexCoord) -> (r: Vertex)
    ensures
        r == with_fg(v, fg),
{
    Vertex { position: v.position, bg_coords: v.bg_coords, fg_coords: fg }
}

/// Mirrors the layer coordinates of every vertex.
pub fn flip_quad(vs: &mut [Vertex; 4], flip_hv: (bool, bool))
    requires
        unit_quad(old(vs)@),
    ensures
        final(vs)@ == flipped(old(vs)@, flip_hv.0, flip_hv.1),
{
    let w = *vs;
    assert(unit_coord(w@[0].fg_coords) && unit_coord(w@[1].fg_coords));
    assert(unit_coord(w@[2].fg_coords) && unit_coord(w@[3].fg_coords));
    *vs = [
        flip_one(w[0], flip_hv),
        flip_one(w[1], flip_hv),
        flip_one(w[2], flip_hv),
        flip_one(w[3], flip_hv),
    ];
    assert(vs@ =~= flipped(w@, flip_hv.0, flip_hv.1));
}

/// Moves the layer coordinates one step round the quad.
pub fn rotate_quad(vs: &mut [Vertex; 4], ccw: bool)
    ensures
        final(vs)@ == rotated(old(vs)@, ccw),
{
    let w = *vs;
    if ccw {
        *vs = [
            set_fg(w[0], w[1].fg_coords),
            set_fg(w[1], w[3].fg_coords),
            set_fg(w[2], w[0].fg_coords),
            set_fg(w[3], w[2].fg_coords),
        ];
    } else {
        *vs = [
            set_fg(w[0], w[2].fg_coords),
            set_fg(w[1], w[0].fg_coords),
            set_fg(w[2], w[3].fg_coords),
            set_fg(w[3], w[1].fg_coords),
        ];
    }
    assert(vs@ =~= rotated(w@, ccw));
}

/// The initial quad shows the layer upright and whole.
pub proof fn lemma_square_is_rigid()
    ensures
        is_rigid(spec_square_vertices()),
        same_frame(spec_square_vertices()),
{
    let vs = spec_square_vertices();
    assert(unit_coord(vs[0].fg_coords) && unit_coord(vs[1].fg_coords));
    assert(unit_coord(vs[2].fg_coords) && unit_coord(vs[3].fg_coords));
}

/// Mirroring twice the same way gives back the quad one started from.
pub proof fn lemma_flip_involutive(vs: Seq<Vertex>, h: bool, v: bool)
    requires
        unit_quad(vs),
    ensures
        flipped(flipped(vs, h, v), h, v) == vs,
{
    assert forall|i: int| 0 <= i < 4 implies #[trigger] flipped(flipped(vs, h, v), h, v)[i] == vs[i] by {
        assert(unit_coord(vs[i].fg_coords));
    }
    assert(flipped(flipped(vs, h, v), h, v) =~= vs);
}

/// Mirroring both ways at once is mirroring horizontally, then vertically.
pub proof fn lemma_flip_composes(vs: Seq<Vertex>, h: bool, v: bool)
    ensures
        flipped(vs, h, v) == flipped(flipped(vs, h, false), false, v),
{
    assert(flipped(vs, h, v) =~= flipped(flipped(vs, h, false), false, v));
}

/// A step one way undone by a step the other way gives back the quad.
pub proof fn lemma_rotate_inverse(vs: Seq<Vertex>, ccw: bool)
    requires
        vs.len() == 4,
    ensures
        rotated(rotated(vs, ccw), !ccw) == vs,
{
    assert(rotated(rotated(vs, ccw), !ccw) =~= vs);
}

/// Four steps the same way give back the quad.
pub proof fn lemma_rotate_four_times(vs: Seq<Vertex>, ccw: bool)
    requires
        vs.len() == 4,
    ensures
        rotated(rotated(rotated(rotated(vs, ccw), ccw), ccw), ccw) == vs,
{
    assert(rotated(rotated(rotated(rotated(vs, ccw), ccw), ccw), ccw) =~= vs);
}

/// Mirroring and turning commute.
pub proof fn lemma_flip_rotate_commute(vs: Seq<Vertex>, h: bool, v: bool, ccw: bool)
    requires
        vs.len() == 4,
    ensures
        flipped(rotated(vs, ccw), h, v) == rotated(flipped(vs, h, v), ccw),
{
    assert(flipped(rotated(vs, ccw), h, v) =~= rotated(flipped(vs, h, v), ccw));
}

/// On a quad that shows the layer undistorted, a half turn is the same as
/// mirroring both ways.
pub proof fn lemma_half_turn_is_double_flip(vs: Seq<Vertex>)
    requires
        is_rigid(vs),
    ensures
        rotated(rotated(vs, true), true) == flipped(vs, true, true),
        rotated(rotated(vs, false), false) == flipped(vs, true, true),
{
    assert(unit_coord(vs[0].fg_coords) && unit_coord(vs[1].fg_coords));
    assert(unit_coord(vs[2].fg_coords) && unit_coord(vs[3].fg_coords));
    assert(rotated(rotated(vs, true), true) =~= flipped(vs, true, true));
    assert(rotated(rotated(vs, false), false) =~= flipped(vs, true, true));
}

/// Mirroring keeps the layer undistorted.
pub proof fn lemma_flip_keeps_rigid(vs: Seq<Vertex>, h: bool, v: bool)
    requires
        is_rigid(vs),
    ensures
        is_rigid(flipped(vs, h, v)),
        same_frame(vs) ==> same_frame(flipped(vs, h, v)),
{
    assert(unit_coord(vs[0].fg_coords) && unit_coord(vs[1].fg_coords));
    assert(unit_coord(vs[2].fg_coords) && unit_coord(vs[3].fg_coords));
    let f = flipped(vs, h, v);
    assert(unit_coord(f[0].fg_coords) && unit_coord(f[1].fg_coords));
    assert(unit_coord(f[2].fg_coords) && unit_coord(f[3].fg_coords));
}

/// Turning keeps the layer undistorted.
pub proof fn lemma_rotate_keeps_rigid(vs: Seq<Vertex>, ccw: bool)
    requires
        is_rigid(vs),
    ensures
        is_rigid(rotated(vs, ccw)),
        same_frame(vs) ==> same_frame(rotated(vs, ccw)),
{
    assert(unit_coord(vs[0].fg_coords) && unit_coord(vs[1].fg_coords));
    assert(unit_coord(vs[2].fg_coords) && unit_coord(vs[3].fg_coords));
    let r = rotated(vs, ccw);
    assert(unit_coord(r[0].fg_coords) && unit_coord(r[1].fg_coords));
    assert(unit_coord(r[2].fg_coords) && unit_coord(r[3].fg_coords));
    if same_frame(vs) {
        assert(vs[0].position == spec_square_vertices()[0].position);
        assert(vs[1].position == spec_square_vertices()[1].position);
        assert(vs[2].position == spec_square_vertices()[2].position);
        assert(vs[3].position == spec_square_vertices()[3].position);
    }
}

/// One attribute of a vertex as the vertex shader reads it: `components`
/// 32-bit float components starting `offset` bytes into the vertex.
#[derive(Clone, Copy, Debug, PartialEq, Eq, Structural)]
pub struct VertexAttribute {
    pub offset: u64,
    pub shader_location: u32,
    pub components: u32,
}

/// How the vertex buffer is laid out: one vertex every `array_stride`
/// bytes, read as three attributes.
#[derive(Clone, Copy, Debug)]
pub struct VertexLayout {
    pub array_stride: u64,
    pub attributes: [VertexAttribute; 3],
}

/// Bytes of one float component.
pub open spec fn component_bytes() -> int {
    4
}

/// The layout of a vertex: the position (3 components) at location 0,
/// then the background coordinate (2) at location 1, then the layer
/// coordinate (2) at location 2, packed one after the other.
pub fn vertex_layout() -> (layout: VertexLayout)
    ensures
        layout.array_stride == 28,
        layout.attributes[0] == (VertexAttribute { offset: 0, shader_location: 0, components: 3 }),
        layout.attributes[1] == (VertexAttribute { offset: 12, shader_location: 1, components: 2 }),
        layout.attributes[2] == (VertexAttribute { offset: 20, shader_location: 2, components: 2 }),
        // the attributes tile the vertex: each starts where the one before ends
        layout.attributes[0].offset == 0,
        forall|k: int| 0 <= k < 2 ==> #[trigger] layout.attributes[k + 1].offset
            == layout.attributes[k].offset + component_bytes() * layout.attributes[k].components,
        layout.array_stride == layout.attributes[2].offset + component_bytes() * layout.attributes[2].components,
{
    let position = VertexAttribute { offset: 0, shader_location: 0, components: 3 };
    let bg_coords = VertexAttribute { offset: 12, shader_location: 1, components: 2 };
    let fg_coords = VertexAttribute { offset: 20, shader_location: 2, components: 2 };
    let layout = VertexLayout { array_stride: 28, attributes: [position, bg_coords, fg_coords] };
    assert(layout.attributes@[0] == position);
    assert(layout.attributes@[1] == bg_coords);
    assert(layout.attributes@[2] == fg_coords);
    layout
}


/// Whether `vs` has the positions and background coordinates of the
/// initial quad: only the layer coordinates ever change.
pub open spec fn same_frame(vs: Seq<Vertex>) -> bool {
    &&& vs.len() == 4
    &&& forall|i: int| 0 <= i < 4 ==> {
        &&& (#[trigger] vs[i]).position == spec_square_vertices()[i].position
        &&& vs[i].bg_coords == spec_square_vertices()[i].bg_coords
    }
}

/// `vs` turned `k` quarter turns counter-clockwise.
pub open spec fn turned(vs: Seq<Vertex>, k: nat) -> Seq<Vertex>
    decreases k,
{
    if k == 0 {
        vs
    } else {
        rotated(turned(vs, (k - 1) as nat), true)
    }
}

/// The initial quad mirrored horizontally when `mirrored`, then turned `k`
/// quarter turns counter-clockwise: the eight symmetries of the square.
pub open spec fn symmetry_of_square(k: nat, mirrored: bool) -> Seq<Vertex> {
    turned(flipped(spec_square_vertices(), mirrored, false), k)
}

/// Whether `vs` shows the layer under one of the eight symmetries of the
/// square.
pub open spec fn is_symmetric_image(vs: Seq<Vertex>) -> bool {
    exists|k: nat, mirrored: bool| k < 4 && vs == #[trigger] symmetry_of_square(k, mirrored)
}

proof fn lemma_turned_keeps(vs: Seq<Vertex>, k: nat)
    requires
        is_rigid(vs),
        same_frame(vs),
    ensures
        is_rigid(turned(vs, k)),
        same_frame(turned(vs, k)),
    decreases k,
{
    if k > 0 {
        lemma_turned_keeps(vs, (k - 1) as nat);
        lemma_rotate_keeps_rigid(turned(vs, (k - 1) as nat), true);
    }
}

/// The quads that the layer can be shown on without distortion are
/// exactly the eight symmetries of the initial quad.
pub proof fn lemma_rigid_iff_symmetric(vs: Seq<Vertex>)
    ensures
        (is_rigid(vs) && same_frame(vs)) <==> is_symmetric_image(vs),
{
    let sq = spec_square_vertices();
    if is_symmetric_image(vs) {
        let (k, m) = choose|k: nat, mirrored: bool| k < 4 && vs == #[trigger] symmetry_of_square(k, mirrored);
        lemma_square_is_rigid();
        lemma_flip_keeps_rigid(sq, m, false);
        lemma_turned_keeps(flipped(sq, m, false), k);
    }
    if is_rigid(vs) && same_frame(vs) {
        let a = vs[0].fg_coords;
        let b = vs[1].fg_coords;
        assert(unit_coord(vs[0].fg_coords) && unit_coord(vs[1].fg_coords));
        assert(unit_coord(vs[2].fg_coords) && unit_coord(vs[3].fg_coords));
        assert(vs[0] == with_fg(sq[0], vs[0].fg_coords));
        assert(vs[1] == with_fg(sq[1], vs[1].fg_coords));
        assert(vs[2] == with_fg(sq[2], vs[2].fg_coords));
        assert(vs[3] == with_fg(sq[3], vs[3].fg_coords));
        reveal_with_fuel(turned, 4);
        let k: nat;
        let m: bool;
        if a == tc(0, 1) && b == tc(0, 0) {
            k = 0; m = false;
        } else if a == tc(0, 0) && b == tc(1, 0) {
            k = 1; m = false;
        } else if a == tc(1, 0) && b == tc(1, 1) {
            k = 2; m = false;
        } else if a == tc(1, 1) && b == tc(0, 1) {
            k = 3; m = false;
        } else if a == tc(1, 1) && b == tc(1, 0) {
            k = 0; m = true;
        } else if a == tc(1, 0) && b == tc(0, 0) {
            k = 1; m = true;
        } else if a == tc(0, 0) && b == tc(0, 1) {
            k = 2; m = true;
        } else {
            assert(a == tc(0, 1) && b == tc(1, 1));
            k = 3; m = true;
        }
        assert(vs =~= symmetry_of_square(k, m));
    }
}

/// The position a quarter turn counter-clockwise from `p` about the centre
/// of the quad.
pub open spec fn ccw_of(p: Position) -> Position {
    Position { x: (-p.y) as i8, y: p.x, z: p.z }
}

/// The position a quarter turn clockwise from `p` about the centre of the
/// quad.
pub open spec fn cw_of(p: Position) -> Position {
    Position { x: p.y, y: (-p.x) as i8, z: p.z }
}

/// Mirroring changes only the layer coordinates, and each one on its own:
/// a horizontal flip takes `x` to `1 - x`, a vertical one `y` to `1 - y`.
pub proof fn lemma_flipped_coords(vs: Seq<Vertex>, h: bool, v: bool)
    requires
        unit_quad(vs),
    ensures
        flipped(vs, h, v).len() == 4,
        forall|i: int| 0 <= i < 4 ==> {
            &&& (#[trigger] flipped(vs, h, v)[i]).position == vs[i].position
            &&& flipped(vs, h, v)[i].bg_coords == vs[i].bg_coords
            &&& flipped(vs, h, v)[i].fg_coords.x == (if h { 1 - vs[i].fg_coords.x } else { vs[i].fg_coords.x as int })
            &&& flipped(vs, h, v)[i].fg_coords.y == (if v { 1 - vs[i].fg_coords.y } else { vs[i].fg_coords.y as int })
        },
{
    assert forall|i: int| 0 <= i < 4 implies {
        &&& (#[trigger] flipped(vs, h, v)[i]).position == vs[i].position
        &&& flipped(vs, h, v)[i].bg_coords == vs[i].bg_coords
        &&& flipped(vs, h, v)[i].fg_coords.x == (if h { 1 - vs[i].fg_coords.x } else { vs[i].fg_coords.x as int })
        &&& flipped(vs, h, v)[i].fg_coords.y == (if v { 1 - vs[i].fg_coords.y } else { vs[i].fg_coords.y as int })
    } by {
        assert(unit_coord(vs[i].fg_coords));
    }
}

/// A quarter turn keeps every vertex where it is and hands each one the
/// layer coordinate of the vertex a quarter turn away from it: the vertex
/// counter-clockwise from it when `ccw`, clockwise from it otherwise.
pub proof fn lemma_rotated_geometry(vs: Seq<Vertex>, ccw: bool)
    requires
        same_frame(vs),
    ensures
        rotated(vs, ccw).len() == 4,
        forall|i: int| 0 <= i < 4 ==> {
            &&& (#[trigger] rotated(vs, ccw)[i]).position == vs[i].position
            &&& rotated(vs, ccw)[i].bg_coords == vs[i].bg_coords
        },
        forall|i: int, j: int|
            0 <= i < 4 && 0 <= j < 4 && vs[j].position == (if ccw {
                ccw_of(rotated(vs, ccw)[i].position)
            } else {
                cw_of(rotated(vs, ccw)[i].position)
            }) ==> #[trigger] rotated(vs, ccw)[i].fg_coords == #[trigger] vs[j].fg_coords,
{
    let sq = spec_square_vertices();
    assert(vs[0].position == sq[0].position && vs[1].position == sq[1].position);
    assert(vs[2].position == sq[2].position && vs[3].position == sq[3].position);
    assert(vs[0].bg_coords == sq[0].bg_coords && vs[1].bg_coords == sq[1].bg_coords);
    assert(vs[2].bg_coords == sq[2].bg_coords && vs[3].bg_coords == sq[3].bg_coords);
}

} // verus!
