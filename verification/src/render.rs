//! The state of the compositor that decides what the GPU is asked to do:
//! the size of the target, the quad that layers are drawn on, and the plan
//! of render passes for a list of layers.
use vstd::prelude::*;
use crate::dimensions::{BufferDimensions, padded_row_bytes};
use crate::vertices::{
    Vertex, square_vertices, spec_square_vertices, flip_quad, rotate_quad, flipped, rotated,
    is_rigid, same_frame, is_symmetric_image, lemma_rigid_iff_symmetric, lemma_square_is_rigid,
    lemma_flip_keeps_rigid, lemma_rotate_keeps_rigid, lemma_flipped_coords, lemma_rotated_geometry,
    ccw_of, cw_of,
};
use crate::layers::CompositeLayer;

verus! {

/// The extent of a 2D texture.
#[derive(Clone, Copy, Debug, PartialEq, Eq, Structural)]
pub struct TextureExtent {
    pub width: u32,
    pub height: u32,
    pub depth_or_array_layers: u32,
}

/// The extent of the texture that holds an image of `dims`.
pub open spec fn extent_of(dims: BufferDimensions) -> TextureExtent {
    TextureExtent { width: dims.width, height: dims.height, depth_or_array_layers: 1 }
}

/// The render target's size and the quad that layers are drawn on.
pub struct RenderState {
    pub buffer_dimensions: BufferDimensions,
    pub texture_extent: TextureExtent,
    pub vertices: [Vertex; 4],
    pub max_layers: u32,
}

impl RenderState {
    /// The four vertices of the quad.
    pub open spec fn spec_vertices(self) -> Seq<Vertex> {
        self.vertices@
    }

    /// The state's invariant: the dimensions are those of an image, the
    /// extent is theirs, and the quad is the initial one with the layer
    /// shown undistorted on it.
    pub open spec fn wf(self) -> bool {
        &&& self.buffer_dimensions.wf()
        &&& self.texture_extent == extent_of(self.buffer_dimensions)
        &&& is_rigid(self.spec_vertices())
        &&& same_frame(self.spec_vertices())
    }

    /// A `width` x `height` target with the layer upright on the quad.
    pub fn new(width: u32, height: u32, max_layers: u32) -> (state: RenderState)
        requires
            padded_row_bytes(width as int) <= u32::MAX,
        ensures
            state.wf(),
            state.buffer_dimensions == BufferDimensions::spec_new(width, height),
            state.texture_extent == extent_of(BufferDimensions::spec_new(width, height)),
            state.spec_vertices() == spec_square_vertices(),
            state.max_layers == max_layers,
    {
        let buffer_dimensions = BufferDimensions::new(width, height);
        let texture_extent = TextureExtent {
            width: buffer_dimensions.width,
            height: buffer_dimensions.height,
            depth_or_array_layers: 1,
        };
        proof {
            lemma_square_is_rigid();
        }
        RenderState { buffer_dimensions, texture_extent, vertices: square_vertices(), max_layers }
    }

    /// Mirrors the layer on the quad: horizontally when `flip_hv.0`,
    /// vertically when `flip_hv.1`.
    pub fn flip_vertices(&mut self, flip_hv: (bool, bool))
        requires
            old(self).wf(),
        ensures
            final(self).wf(),
            final(self).spec_vertices() == flipped(old(self).spec_vertices(), flip_hv.0, flip_hv.1),
            final(self).buffer_dimensions == old(self).buffer_dimensions,
            final(self).texture_extent == old(self).texture_extent,
            final(self).max_layers == old(self).max_layers,
    {
        proof {
            lemma_flip_keeps_rigid(self.vertices@, flip_hv.0, flip_hv.1);
        }
        flip_quad(&mut self.vertices, flip_hv);
    }

    /// Turns the layer on the quad by a quarter: counter-clockwise when
    /// `ccw`, clockwise otherwise.
    pub fn rotate_vertices(&mut self, ccw: bool)
        requires
            old(self).wf(),
        ensures
            final(self).wf(),
            final(self).spec_vertices() == rotated(old(self).spec_vertices(), ccw),
            final(self).buffer_dimensions == old(self).buffer_dimensions,
            final(self).texture_extent == old(self).texture_extent,
            final(self).max_layers == old(self).max_layers,
    {
        proof {
            lemma_rotate_keeps_rigid(self.vertices@, ccw);
        }
        rotate_quad(&mut self.vertices, ccw);
    }

    /// Swaps the width and the height of the target.
    pub fn tranpose_dimensions(&mut self)
        requires
            old(self).wf(),
            padded_row_bytes(old(self).buffer_dimensions.height as int) <= u32::MAX,
        ensures
            final(self).wf(),
            final(self).buffer_dimensions == BufferDimensions::spec_new(
                old(self).buffer_dimensions.height,
                old(self).buffer_dimensions.width,
            ),
            final(self).texture_extent == extent_of(final(self).buffer_dimensions),
            final(self).spec_vertices() == old(self).spec_vertices(),
            final(self).max_layers == old(self).max_layers,
    {
        let buffer_dimensions = BufferDimensions::new(
            self.buffer_dimensions.height,
            self.buffer_dimensions.width,
        );
        let texture_extent = TextureExtent {
            width: buffer_dimensions.width,
            height: buffer_dimensions.height,
            depth_or_array_layers: 1,
        };
        self.buffer_dimensions = buffer_dimensions;
        self.texture_extent = texture_extent;
    }
}

/// Where a render pass takes the clipping mask of the layer it draws from.
#[derive(Clone, Copy, Debug, PartialEq, Eq, Structural)]
pub enum MaskSource {
    /// The texture of the layer at this position of the list.
    Layer(usize),
    /// A texture filled with white: nothing is clipped away.
    Filled,
}

/// The mask source of a layer whose clipping mask is `clipped`.
pub open spec fn mask_of(clipped: Option<usize>) -> MaskSource {
    match clipped {
        Some(index) => MaskSource::Layer(index),
        None => MaskSource::Filled,
    }
}

/// Whether every clipping mask that `layers` records is a position in it.
pub open spec fn masks_in_range<'a, T, A>(layers: Seq<CompositeLayer<'a, T, A>>) -> bool {
    forall|i: int|
        0 <= i < layers.len() ==> (#[trigger] layers[i].clipped matches Some(j) ==> j < layers.len())
}

/// Whether every clipping mask that `layers` records is a position in it,
/// as `clipping_masks` needs.
pub fn masks_valid<'a, T, A>(layers: &[CompositeLayer<'a, T, A>]) -> (ok: bool)
    ensures
        ok == masks_in_range(layers@),
{
    let mut i: usize = 0;
    while i < layers.len()
        invariant
            i <= layers@.len(),
            forall|k: int| 0 <= k < i ==> (#[trigger] layers@[k].clipped matches Some(j) ==> j < layers@.len()),
        decreases layers@.len() - i,
    {
        if let Some(index) = layers[i].clipped {
            if index >= layers.len() {
                return false;
            }
        }
        i = i + 1;
    }
    true
}

/// The clipping mask of each pass of a render of `layers`, one pass per
/// layer in order: a clipped layer is masked by the texture of the layer
/// that its mask names, any other by the filled mask.
pub fn clipping_masks<'a, T, A>(layers: &[CompositeLayer<'a, T, A>]) -> (masks: Vec<MaskSource>)
    requires
        masks_in_range(layers@),
    ensures
        masks.len() == layers@.len(),
        forall|i: int| 0 <= i < layers@.len() ==> #[trigger] masks@[i] == mask_of(layers@[i].clipped),
        forall|i: int|
            0 <= i < masks.len() ==> (#[trigger] masks@[i] matches MaskSource::Layer(j) ==> j < layers@.len()),
        // each pass is masked by exactly the layer its layer names, or by the
        // filled mask when its layer is not clipped
        forall|i: int| 0 <= i < masks.len() ==> {
            &&& (#[trigger] masks@[i] matches MaskSource::Layer(j) ==> layers@[i].clipped == Some(j))
            &&& (masks@[i] is Filled ==> layers@[i].clipped is None)
            &&& (layers@[i].clipped matches Some(j) ==> masks@[i] == MaskSource::Layer(j))
            &&& (layers@[i].clipped is None ==> masks@[i] == MaskSource::Filled)
        },
{
    let mut masks: Vec<MaskSource> = Vec::new();
    let mut i: usize = 0;
    while i < layers.len()
        invariant
            i <= layers@.len(),
            masks.len() == i,
            masks_in_range(layers@),
            forall|k: int| 0 <= k < i ==> #[trigger] masks@[k] == mask_of(layers@[k].clipped),
        decreases layers@.len() - i,
    {
        let mask = match layers[i].clipped {
            Some(index) => MaskSource::Layer(index),
            None => MaskSource::Filled,
        };
        masks.push(mask);
        i = i + 1;
    }
    assert forall|k: int| 0 <= k < masks.len() implies (#[trigger] masks@[k] matches MaskSource::Layer(j) ==> j < layers@.len()) by {
        assert(masks@[k] == mask_of(layers@[k].clipped));
    }
    assert forall|k: int| 0 <= k < masks.len() implies {
        &&& (#[trigger] masks@[k] matches MaskSource::Layer(j) ==> layers@[k].clipped == Some(j))
        &&& (masks@[k] is Filled ==> layers@[k].clipped is None)
        &&& (layers@[k].clipped matches Some(j) ==> masks@[k] == MaskSource::Layer(j))
        &&& (layers@[k].clipped is None ==> masks@[k] == MaskSource::Filled)
    } by {
        assert(masks@[k] == mask_of(layers@[k].clipped));
    }
    masks
}

/// Swapping the width and the height twice gives back the dimensions one
/// started from.
pub proof fn lemma_transpose_twice(dims: BufferDimensions)
    requires
        dims.wf(),
        padded_row_bytes(dims.height as int) <= u32::MAX,
    ensures
        BufferDimensions::spec_new(
            BufferDimensions::spec_new(dims.height, dims.width).height,
            BufferDimensions::spec_new(dims.height, dims.width).width,
        ) == dims,
{
}

/// Whatever sequence of flips, turns and transpositions a state has gone
/// through, the layer is shown on the quad under one of the eight
/// symmetries of the square.
pub proof fn lemma_state_shows_symmetry(state: RenderState)
    requires
        state.wf(),
    ensures
        is_symmetric_image(state.spec_vertices()),
{
    lemma_rigid_iff_symmetric(state.spec_vertices());
}

/// A control of the viewer that changes how the document is shown.
#[derive(Clone, Copy, Debug, PartialEq, Eq, Structural)]
pub enum ViewControl {
    FlipHorizontal,
    FlipVertical,
    RotateCcw,
    RotateCw,
}

/// What a control turns the target's dimensions and the quad into: a flip
/// mirrors the layer; a quarter turn turns it and swaps the target's width
/// and height.
pub open spec fn after_control(
    dims: BufferDimensions,
    vs: Seq<Vertex>,
    control: ViewControl,
) -> (BufferDimensions, Seq<Vertex>) {
    match control {
        ViewControl::FlipHorizontal => (dims, flipped(vs, true, false)),
        ViewControl::FlipVertical => (dims, flipped(vs, false, true)),
        ViewControl::RotateCcw => (BufferDimensions::spec_new(dims.height, dims.width), rotated(vs, true)),
        ViewControl::RotateCw => (BufferDimensions::spec_new(dims.height, dims.width), rotated(vs, false)),
    }
}

/// Whether a control can be applied to a target of `dims`: a quarter turn
/// needs the padded row of the new width to fit in a `u32`.
pub open spec fn control_fits(dims: BufferDimensions, control: ViewControl) -> bool {
    (control is RotateCcw || control is RotateCw) ==> padded_row_bytes(dims.height as int) <= u32::MAX
}

impl RenderState {
    /// Applies a control of the viewer.
    pub fn apply_view_control(&mut self, control: ViewControl)
        requires
            old(self).wf(),
            control_fits(old(self).buffer_dimensions, control),
        ensures
            final(self).wf(),
            (final(self).buffer_dimensions, final(self).spec_vertices())
                == after_control(old(self).buffer_dimensions, old(self).spec_vertices(), control),
            final(self).texture_extent == extent_of(final(self).buffer_dimensions),
            final(self).max_layers == old(self).max_layers,
    {
        match control {
            ViewControl::FlipHorizontal => self.flip_vertices((true, false)),
            ViewControl::FlipVertical => self.flip_vertices((false, true)),
            ViewControl::RotateCcw => {
                self.rotate_vertices(true);
                self.tranpose_dimensions();
            },
            ViewControl::RotateCw => {
                self.rotate_vertices(false);
                self.tranpose_dimensions();
            },
        }
    }
}

/// A quarter turn one way undone by a quarter turn the other way gives
/// back the target's dimensions and the quad.
pub proof fn lemma_turn_back(dims: BufferDimensions, vs: Seq<Vertex>)
    requires
        dims.wf(),
        vs.len() == 4,
        padded_row_bytes(dims.height as int) <= u32::MAX,
    ensures
        ({
            let (d1, v1) = after_control(dims, vs, ViewControl::RotateCcw);
            after_control(d1, v1, ViewControl::RotateCw) == (dims, vs)
        }),
        ({
            let (d1, v1) = after_control(dims, vs, ViewControl::RotateCw);
            after_control(d1, v1, ViewControl::RotateCcw) == (dims, vs)
        }),
{
    lemma_transpose_twice(dims);
    crate::vertices::lemma_rotate_inverse(vs, true);
    crate::vertices::lemma_rotate_inverse(vs, false);
}

/// Two quarter turns the same way keep the target's dimensions and show
/// the layer mirrored both ways.
pub proof fn lemma_two_quarter_turns(dims: BufferDimensions, vs: Seq<Vertex>, control: ViewControl)
    requires
        dims.wf(),
        is_rigid(vs),
        control is RotateCcw || control is RotateCw,
        padded_row_bytes(dims.height as int) <= u32::MAX,
    ensures
        ({
            let (d1, v1) = after_control(dims, vs, control);
            after_control(d1, v1, control) == (dims, flipped(vs, true, true))
        }),
{
    lemma_transpose_twice(dims);
    crate::vertices::lemma_half_turn_is_double_flip(vs);
}

/// What each control of the viewer does to a valid view, for every target
/// size and every earlier sequence of controls: a flip keeps the target's
/// size and mirrors every layer coordinate (`x` to `1 - x` horizontally,
/// `y` to `1 - y` vertically); a quarter turn swaps the target's width and
/// height and hands each vertex the layer coordinate of the vertex a
/// quarter turn away: counter-clockwise from it for `RotateCcw`, clockwise
/// for `RotateCw`. Vertex positions never move.
pub proof fn lemma_view_control_effect(dims: BufferDimensions, vs: Seq<Vertex>, control: ViewControl)
    requires
        dims.wf(),
        is_rigid(vs),
        same_frame(vs),
    ensures
        ({
            let (d, w) = after_control(dims, vs, control);
            &&& w.len() == 4
            &&& forall|i: int| 0 <= i < 4 ==> {
                &&& (#[trigger] w[i]).position == vs[i].position
                &&& w[i].bg_coords == vs[i].bg_coords
            }
            &&& (control is FlipHorizontal || control is FlipVertical) ==> {
                &&& d == dims
                &&& forall|i: int| 0 <= i < 4 ==> {
                    &&& (#[trigger] w[i]).fg_coords.x == (if control is FlipHorizontal {
                        1 - vs[i].fg_coords.x
                    } else {
                        vs[i].fg_coords.x as int
                    })
                    &&& w[i].fg_coords.y == (if control is FlipVertical {
                        1 - vs[i].fg_coords.y
                    } else {
                        vs[i].fg_coords.y as int
                    })
                }
            }
            &&& (control is RotateCcw || control is RotateCw) ==> {
                &&& d.wf()
                &&& d.width == dims.height
                &&& d.height == dims.width
                &&& forall|i: int, j: int|
                    0 <= i < 4 && 0 <= j < 4 && vs[j].position == (if control is RotateCcw {
                        ccw_of(w[i].position)
                    } else {
                        cw_of(w[i].position)
                    }) ==> #[trigger] w[i].fg_coords == #[trigger] vs[j].fg_coords
            }
        }),
{
    match control {
        ViewControl::FlipHorizontal => lemma_flipped_coords(vs, true, false),
        ViewControl::FlipVertical => lemma_flipped_coords(vs, false, true),
        ViewControl::RotateCcw => lemma_rotated_geometry(vs, true),
        ViewControl::RotateCw => lemma_rotated_geometry(vs, false),
    }
}

/// A clipped layer is masked by exactly the layer it names; an unclipped
/// one by the filled mask.
pub proof fn lemma_mask_of_names_clipping_layer(clipped: Option<usize>, j: usize)
    ensures
        (mask_of(clipped) == MaskSource::Layer(j)) <==> clipped == Some(j),
        (mask_of(clipped) == MaskSource::Filled) <==> clipped is None,
{
}

} // verus!
