use procreate_render::layers::can_linearize;
use procreate_render::render::masks_valid;
use procreate_render::vertices::vertex_layout;
use procreate_render::dimensions::{row_fits, rgba_row_bytes};
use procreate_render::{
    clipping_masks, linearize, BufferDimensions, CompositeLayer, MaskSource, RenderState,
    SilicaGroup, SilicaHierarchy, SilicaLayer, TexCoord, Vertex, ViewControl, INDICES,
};

fn fg(vs: &[Vertex; 4]) -> Vec<(u8, u8)> {
    vs.iter().map(|v| (v.fg_coords.x, v.fg_coords.y)).collect()
}

#[test]
fn buffer_dimensions_pads_rows_to_alignment() {
    let d = BufferDimensions::new(100, 50);
    assert_eq!(d.width, 100);
    assert_eq!(d.height, 50);
    assert_eq!(d.unpadded_bytes_per_row, 400);
    assert_eq!(d.padded_bytes_per_row, 512);
}

#[test]
fn buffer_dimensions_aligned_row_needs_no_padding() {
    let d = BufferDimensions::new(64, 3);
    assert_eq!(d.unpadded_bytes_per_row, 256);
    assert_eq!(d.padded_bytes_per_row, 256);
    let d = BufferDimensions::new(128, 3);
    assert_eq!(d.padded_bytes_per_row, 512);
}

#[test]
fn buffer_dimensions_edge_widths() {
    let d = BufferDimensions::new(0, 0);
    assert_eq!(d.unpadded_bytes_per_row, 0);
    assert_eq!(d.padded_bytes_per_row, 0);
    let d = BufferDimensions::new(1, 1);
    assert_eq!(d.unpadded_bytes_per_row, 4);
    assert_eq!(d.padded_bytes_per_row, 256);
    let d = BufferDimensions::new(65, 1);
    assert_eq!(d.unpadded_bytes_per_row, 260);
    assert_eq!(d.padded_bytes_per_row, 512);
    let d = BufferDimensions::new(1073741760, 1);
    assert_eq!(d.padded_bytes_per_row, 4294967040);
}

#[test]
fn row_fits_bounds() {
    assert!(row_fits(0));
    assert!(row_fits(1073741760));
    assert!(!row_fits(1073741761));
    assert!(!row_fits(u32::MAX));
    assert_eq!(rgba_row_bytes(10), 40);
}

#[test]
fn new_state_is_upright_square() {
    let s = RenderState::new(300, 200, 16);
    assert_eq!(s.buffer_dimensions, BufferDimensions::new(300, 200));
    assert_eq!(s.texture_extent.width, 300);
    assert_eq!(s.texture_extent.height, 200);
    assert_eq!(s.texture_extent.depth_or_array_layers, 1);
    assert_eq!(s.max_layers, 16);
    assert_eq!(fg(&s.vertices), vec![(0, 1), (0, 0), (1, 1), (1, 0)]);
    let bg: Vec<(u8, u8)> = s.vertices.iter().map(|v| (v.bg_coords.x, v.bg_coords.y)).collect();
    assert_eq!(bg, vec![(0, 0), (0, 1), (1, 0), (1, 1)]);
    let pos: Vec<(i8, i8, i8)> =
        s.vertices.iter().map(|v| (v.position.x, v.position.y, v.position.z)).collect();
    assert_eq!(pos, vec![(-1, 1, 0), (-1, -1, 0), (1, 1, 0), (1, -1, 0)]);
    assert_eq!(INDICES, [0, 1, 2, 3]);
}

#[test]
fn flip_horizontal_mirrors_x() {
    let mut s = RenderState::new(10, 10, 4);
    s.flip_vertices((true, false));
    assert_eq!(fg(&s.vertices), vec![(1, 1), (1, 0), (0, 1), (0, 0)]);
}

#[test]
fn flip_vertical_mirrors_y() {
    let mut s = RenderState::new(10, 10, 4);
    s.flip_vertices((false, true));
    assert_eq!(fg(&s.vertices), vec![(0, 0), (0, 1), (1, 0), (1, 1)]);
}

#[test]
fn flip_twice_is_identity() {
    let mut s = RenderState::new(10, 10, 4);
    s.rotate_vertices(true);
    let before = s.vertices;
    s.flip_vertices((true, true));
    assert_ne!(s.vertices, before);
    s.flip_vertices((true, true));
    assert_eq!(s.vertices, before);
}

#[test]
fn flip_none_changes_nothing() {
    let mut s = RenderState::new(10, 10, 4);
    let before = s.vertices;
    s.flip_vertices((false, false));
    assert_eq!(s.vertices, before);
}

#[test]
fn rotate_ccw_moves_coords() {
    let mut s = RenderState::new(10, 10, 4);
    s.rotate_vertices(true);
    assert_eq!(fg(&s.vertices), vec![(0, 0), (1, 0), (0, 1), (1, 1)]);
}

#[test]
fn rotate_cw_moves_coords() {
    let mut s = RenderState::new(10, 10, 4);
    s.rotate_vertices(false);
    assert_eq!(fg(&s.vertices), vec![(1, 1), (0, 1), (1, 0), (0, 0)]);
}

#[test]
fn rotate_ccw_then_cw_is_identity() {
    let mut s = RenderState::new(10, 10, 4);
    s.flip_vertices((true, false));
    let before = s.vertices;
    s.rotate_vertices(true);
    s.rotate_vertices(false);
    assert_eq!(s.vertices, before);
}

#[test]
fn rotate_four_times_is_identity() {
    let mut s = RenderState::new(10, 10, 4);
    let before = s.vertices;
    for _ in 0..4 {
        s.rotate_vertices(false);
    }
    assert_eq!(s.vertices, before);
}

#[test]
fn half_turn_equals_double_flip() {
    let mut a = RenderState::new(10, 10, 4);
    let mut b = RenderState::new(10, 10, 4);
    a.rotate_vertices(true);
    a.rotate_vertices(true);
    b.flip_vertices((true, true));
    assert_eq!(a.vertices, b.vertices);
}

#[test]
fn flip_and_rotate_commute() {
    let mut a = RenderState::new(10, 10, 4);
    let mut b = RenderState::new(10, 10, 4);
    a.flip_vertices((true, false));
    a.rotate_vertices(true);
    b.rotate_vertices(true);
    b.flip_vertices((true, false));
    assert_eq!(a.vertices, b.vertices);
}

#[test]
fn rotation_keeps_positions_and_background() {
    let mut s = RenderState::new(10, 10, 4);
    let before = s.vertices;
    s.rotate_vertices(true);
    for i in 0..4 {
        assert_eq!(s.vertices[i].position, before[i].position);
        assert_eq!(s.vertices[i].bg_coords, before[i].bg_coords);
    }
    assert_eq!(s.vertices[0].fg_coords, TexCoord { x: 0, y: 0 });
}

#[test]
fn transpose_swaps_dimensions() {
    let mut s = RenderState::new(100, 30, 4);
    s.tranpose_dimensions();
    assert_eq!(s.buffer_dimensions.width, 30);
    assert_eq!(s.buffer_dimensions.height, 100);
    assert_eq!(s.buffer_dimensions.unpadded_bytes_per_row, 120);
    assert_eq!(s.buffer_dimensions.padded_bytes_per_row, 256);
    assert_eq!(s.texture_extent.width, 30);
    assert_eq!(s.texture_extent.height, 100);
    s.tranpose_dimensions();
    assert_eq!(s.buffer_dimensions, BufferDimensions::new(100, 30));
}

fn layer(image: usize, hidden: bool, clipped: bool, attr: u32) -> SilicaHierarchy<u32> {
    SilicaHierarchy::Layer(SilicaLayer { hidden, clipped, image, attributes: attr })
}

fn group(hidden: bool, children: Vec<SilicaHierarchy<u32>>) -> SilicaHierarchy<u32> {
    SilicaHierarchy::Group(SilicaGroup { hidden, children })
}

fn summary(out: &[CompositeLayer<'_, &'static str, u32>]) -> Vec<(&'static str, Option<usize>, u32)> {
    out.iter().map(|c| (*c.texture, c.clipped, c.attributes)).collect()
}

#[test]
fn linearize_draws_bottom_first() {
    let textures = ["a", "b", "c"];
    let root = SilicaGroup { hidden: false, children: vec![layer(0, false, false, 10), layer(1, false, false, 11), layer(2, false, false, 12)] };
    let mut out = Vec::new();
    linearize(&textures, &root, &mut out);
    assert_eq!(summary(&out), vec![("c", None, 12), ("b", None, 11), ("a", None, 10)]);
}

#[test]
fn linearize_skips_hidden_layers_and_groups() {
    let textures = ["a", "b", "c", "d"];
    let root = SilicaGroup {
        hidden: false,
        children: vec![
            layer(0, true, false, 1),
            group(true, vec![layer(1, false, false, 2)]),
            layer(2, false, false, 3),
            group(false, vec![layer(3, false, false, 4), layer(1, true, false, 5)]),
        ],
    };
    let mut out = Vec::new();
    linearize(&textures, &root, &mut out);
    assert_eq!(summary(&out), vec![("d", None, 4), ("c", None, 3)]);
}

#[test]
fn linearize_records_clipping_position() {
    let textures = ["base", "clip1", "clip2", "top"];
    // Document order, topmost first: top, clip2, clip1, base.
    let root = SilicaGroup {
        hidden: false,
        children: vec![
            layer(3, false, false, 4),
            layer(2, false, true, 3),
            layer(1, false, true, 2),
            layer(0, false, false, 1),
        ],
    };
    let mut out = Vec::new();
    linearize(&textures, &root, &mut out);
    assert_eq!(
        summary(&out),
        vec![("base", None, 1), ("clip1", Some(0), 2), ("clip2", Some(0), 3), ("top", None, 4)]
    );
}

#[test]
fn linearize_clip_position_counts_hidden_children() {
    let textures = ["base", "clip"];
    // Visited bottom first: hidden layer at 0, base at 1, clip at 2.
    let root = SilicaGroup {
        hidden: false,
        children: vec![layer(1, false, true, 2), layer(0, false, false, 1), layer(0, true, false, 0)],
    };
    let mut out = Vec::new();
    linearize(&textures, &root, &mut out);
    assert_eq!(summary(&out), vec![("base", None, 1), ("clip", Some(1), 2)]);
}

#[test]
fn linearize_groups_start_without_mask_and_keep_outer_mask() {
    let textures = ["base", "inner", "clip"];
    let root = SilicaGroup {
        hidden: false,
        children: vec![
            layer(2, false, true, 3),
            group(false, vec![layer(1, false, false, 2)]),
            layer(0, false, false, 1),
        ],
    };
    let mut out = Vec::new();
    linearize(&textures, &root, &mut out);
    assert_eq!(summary(&out), vec![("base", None, 1), ("inner", None, 2), ("clip", Some(0), 3)]);
}

#[test]
fn linearize_appends_to_existing_list() {
    let textures = ["a", "b"];
    let root = SilicaGroup { hidden: false, children: vec![layer(1, false, false, 7)] };
    let mut out = vec![CompositeLayer { texture: &textures[0], clipped: None, attributes: 0u32 }];
    linearize(&textures, &root, &mut out);
    assert_eq!(summary(&out), vec![("a", None, 0), ("b", None, 7)]);
}

#[test]
fn linearize_empty_and_hidden_root_children() {
    let textures: [&'static str; 0] = [];
    let root = SilicaGroup { hidden: false, children: vec![] };
    let mut out = Vec::new();
    linearize(&textures, &root, &mut out);
    assert!(out.is_empty());
    let root = SilicaGroup { hidden: false, children: vec![layer(5, true, true, 1)] };
    linearize(&textures, &root, &mut out);
    assert!(out.is_empty());
}

#[test]
fn clipping_masks_per_layer() {
    let textures = ["a", "b", "c"];
    let layers = vec![
        CompositeLayer { texture: &textures[0], clipped: None, attributes: 0u32 },
        CompositeLayer { texture: &textures[1], clipped: Some(0), attributes: 0u32 },
        CompositeLayer { texture: &textures[2], clipped: Some(1), attributes: 0u32 },
    ];
    let masks = clipping_masks(&layers);
    assert_eq!(masks, vec![MaskSource::Filled, MaskSource::Layer(0), MaskSource::Layer(1)]);
    let none: Vec<CompositeLayer<'_, &str, u32>> = Vec::new();
    assert!(clipping_masks(&none).is_empty());
}

#[test]
fn can_linearize_checks_textures_and_masks() {
    let ok = SilicaGroup { hidden: false, children: vec![layer(1, false, true, 0), layer(0, false, false, 0)] };
    assert!(can_linearize(&ok, 2));
    assert!(!can_linearize(&ok, 1));
    let orphan = SilicaGroup { hidden: false, children: vec![layer(0, false, false, 0), layer(1, false, true, 0)] };
    assert!(!can_linearize(&orphan, 2));
    let hidden_orphan = SilicaGroup { hidden: false, children: vec![layer(0, false, false, 0), layer(9, true, true, 0)] };
    assert!(can_linearize(&hidden_orphan, 1));
    let nested = SilicaGroup {
        hidden: false,
        children: vec![group(false, vec![layer(0, false, true, 0)]), layer(0, false, false, 0)],
    };
    assert!(!can_linearize(&nested, 1));
    let hidden_group = SilicaGroup {
        hidden: false,
        children: vec![group(true, vec![layer(7, false, true, 0)])],
    };
    assert!(can_linearize(&hidden_group, 0));
}

#[test]
fn masks_valid_checks_positions() {
    let textures = ["a", "b"];
    let good = vec![
        CompositeLayer { texture: &textures[0], clipped: None, attributes: 0u32 },
        CompositeLayer { texture: &textures[1], clipped: Some(1), attributes: 0u32 },
    ];
    assert!(masks_valid(&good));
    let bad = vec![CompositeLayer { texture: &textures[0], clipped: Some(1), attributes: 0u32 }];
    assert!(!masks_valid(&bad));
}

#[test]
fn vertex_layout_is_packed() {
    let l = vertex_layout();
    assert_eq!(l.array_stride, 28);
    let attrs: Vec<(u64, u32, u32)> =
        l.attributes.iter().map(|a| (a.offset, a.shader_location, a.components)).collect();
    assert_eq!(attrs, vec![(0, 0, 3), (12, 1, 2), (20, 2, 2)]);
}

#[test]
fn any_sequence_of_moves_gives_one_of_eight_orientations() {
    let mut seen = Vec::new();
    let mut s = RenderState::new(8, 8, 1);
    let moves: [u8; 12] = [0, 1, 2, 0, 3, 1, 1, 2, 3, 0, 2, 1];
    for m in moves.iter() {
        match m {
            0 => s.rotate_vertices(true),
            1 => s.flip_vertices((true, false)),
            2 => s.flip_vertices((false, true)),
            _ => s.rotate_vertices(false),
        }
        let f = fg(&s.vertices);
        let mut corners = f.clone();
        corners.sort();
        assert_eq!(corners, vec![(0, 0), (0, 1), (1, 0), (1, 1)]);
        if !seen.contains(&f) {
            seen.push(f);
        }
    }
    assert!(seen.len() <= 8);
}

#[test]
fn view_controls_flip_and_turn() {
    let mut s = RenderState::new(300, 100, 4);
    s.apply_view_control(ViewControl::FlipHorizontal);
    assert_eq!(fg(&s.vertices), vec![(1, 1), (1, 0), (0, 1), (0, 0)]);
    s.apply_view_control(ViewControl::FlipHorizontal);
    s.apply_view_control(ViewControl::FlipVertical);
    assert_eq!(fg(&s.vertices), vec![(0, 0), (0, 1), (1, 0), (1, 1)]);
    s.apply_view_control(ViewControl::FlipVertical);
    s.apply_view_control(ViewControl::RotateCcw);
    assert_eq!(s.buffer_dimensions, BufferDimensions::new(100, 300));
    assert_eq!(s.texture_extent.width, 100);
    assert_eq!(s.texture_extent.height, 300);
    assert_eq!(fg(&s.vertices), vec![(0, 0), (1, 0), (0, 1), (1, 1)]);
}

#[test]
fn view_control_turn_back_restores() {
    let mut s = RenderState::new(300, 100, 4);
    s.apply_view_control(ViewControl::FlipVertical);
    let dims = s.buffer_dimensions;
    let vs = s.vertices;
    s.apply_view_control(ViewControl::RotateCw);
    assert_ne!(s.buffer_dimensions, dims);
    s.apply_view_control(ViewControl::RotateCcw);
    assert_eq!(s.buffer_dimensions, dims);
    assert_eq!(s.vertices, vs);
}

#[test]
fn view_control_two_turns_is_double_flip() {
    let mut a = RenderState::new(30, 10, 4);
    let mut b = RenderState::new(30, 10, 4);
    a.apply_view_control(ViewControl::RotateCw);
    a.apply_view_control(ViewControl::RotateCw);
    b.flip_vertices((true, true));
    assert_eq!(a.vertices, b.vertices);
    assert_eq!(a.buffer_dimensions, b.buffer_dimensions);
}
