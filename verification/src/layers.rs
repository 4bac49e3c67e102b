//! Flattening a document's layer tree into the list of layers that the
//! compositor draws, bottom first.
use vstd::prelude::*;

verus! {

/// A raster layer of the document. `attributes` is what the compositor
/// hands on to the shader unread here (opacity, blending mode).
pub struct SilicaLayer<A> {
    pub hidden: bool,
    pub clipped: bool,
    pub image: usize,
    pub attributes: A,
}

/// A group of layers; `children` is in document order, topmost first.
pub struct SilicaGroup<A> {
    pub hidden: bool,
    pub children: Vec<SilicaHierarchy<A>>,
}

/// A node of the layer tree.
pub enum SilicaHierarchy<A> {
    Layer(SilicaLayer<A>),
    Group(SilicaGroup<A>),
}

/// A layer as the compositor draws it: its texture, and for a clipped layer
/// the index of the layer that clips it.
pub struct CompositeLayer<'a, T, A> {
    pub texture: &'a T,
    pub clipped: Option<usize>,
    pub attributes: A,
}

/// The child that is visited `k`-th: children are visited bottom first,
/// that is from the end of `children`.
pub open spec fn visited<A>(g: SilicaGroup<A>, k: int) -> SilicaHierarchy<A> {
    g.children@[g.children@.len() - 1 - k]
}

/// What a visible layer becomes when `mask` is the position of the layer
/// that clips the layers above it.
pub open spec fn composite_of<'a, T, A>(
    textures: Seq<T>,
    l: SilicaLayer<A>,
    mask: Option<usize>,
) -> CompositeLayer<'a, T, A> {
    CompositeLayer {
        texture: &textures[l.image as int],
        clipped: if l.clipped { mask } else { None },
        attributes: l.attributes,
    }
}

/// The clipping mask that is current after the `k`-th visited child: the
/// position of the last visible unclipped layer visited so far.
pub open spec fn mask_after<A>(g: SilicaGroup<A>, k: int, mask: Option<usize>) -> Option<usize> {
    match visited(g, k) {
        SilicaHierarchy::Layer(l) => if !l.hidden && !l.clipped {
            Some(k as usize)
        } else {
            mask
        },
        SilicaHierarchy::Group(_) => mask,
    }
}

/// The layers that the children of `g` from the `k`-th visited one on
/// contribute, when `mask` is the clipping mask current before it. A hidden
/// layer or group contributes nothing; a visible group contributes its own
/// flattening, which starts without a clipping mask.
pub open spec fn flatten_from<'a, T, A>(
    textures: Seq<T>,
    g: SilicaGroup<A>,
    k: int,
    mask: Option<usize>,
) -> Seq<CompositeLayer<'a, T, A>>
    decreases g, g.children@.len() - k,
{
    if k < 0 || k >= g.children@.len() {
        seq![]
    } else {
        let rest = flatten_from(textures, g, k + 1, mask_after(g, k, mask));
        match visited(g, k) {
            SilicaHierarchy::Layer(l) => if !l.hidden {
                seq![composite_of(textures, l, mask)] + rest
            } else {
                rest
            },
            SilicaHierarchy::Group(child) => if !child.hidden {
                flatten_from(textures, child, 0, None) + rest
            } else {
                rest
            },
        }
    }
}

/// The layers of `g`, bottom first.
pub open spec fn flatten<'a, T, A>(textures: Seq<T>, g: SilicaGroup<A>) -> Seq<CompositeLayer<'a, T, A>> {
    flatten_from(textures, g, 0, None)
}

/// Whether the children of `g` from the `k`-th visited one on can be
/// flattened, when `mask` is the clipping mask current before it: every
/// visible layer names one of the `texture_count` textures, and no visible
/// clipped layer is visited before a visible unclipped one that could clip
/// it. Hidden layers and groups are not looked at.
pub open spec fn can_flatten_from<A>(
    g: SilicaGroup<A>,
    k: int,
    mask: Option<usize>,
    texture_count: int,
) -> bool
    decreases g, g.children@.len() - k,
{
    if k < 0 || k >= g.children@.len() {
        true
    } else {
        let rest = can_flatten_from(g, k + 1, mask_after(g, k, mask), texture_count);
        match visited(g, k) {
            SilicaHierarchy::Layer(l) => if !l.hidden {
                l.image < texture_count && (l.clipped ==> mask is Some) && rest
            } else {
                rest
            },
            SilicaHierarchy::Group(child) => if !child.hidden {
                can_flatten_from(child, 0, None, texture_count) && rest
            } else {
                rest
            },
        }
    }
}

/// Whether the layers of `g` can be flattened against `texture_count`
/// textures.
pub open spec fn can_flatten<A>(g: SilicaGroup<A>, texture_count: int) -> bool {
    can_flatten_from(g, 0, None, texture_count)
}

/// The position of the current clipping mask.
spec fn mask_position<A>(mask_layer: Option<(usize, &SilicaLayer<A>)>) -> Option<usize> {
    match mask_layer {
        Some(m) => Some(m.0),
        None => None,
    }
}

/// Appends to `composite_layers` the visible layers of `layers`, bottom
/// first, descending into visible groups. A clipped layer records the
/// position, among the children of its group as visited, of the visible
/// unclipped layer below it that clips it.
pub fn linearize<'a, T, A: Copy>(
    gpu_textures: &'a [T],
    layers: &SilicaGroup<A>,
    composite_layers: &mut Vec<CompositeLayer<'a, T, A>>,
)
    requires
        can_flatten(*layers, gpu_textures@.len() as int),
    ensures
        final(composite_layers)@ == old(composite_layers)@ + flatten(gpu_textures@, *layers),
    decreases layers,
{
    let ghost g = *layers;
    let ghost start = composite_layers@;
    let mut mask_layer: Option<(usize, &SilicaLayer<A>)> = None;
    let n = layers.children.len();
    let mut index: usize = 0;
    while index < n
        invariant
            g == *layers,
            n == g.children@.len(),
            index <= n,
            can_flatten_from(g, index as int, mask_position(mask_layer), gpu_textures@.len() as int),
            mask_layer matches Some(m) ==> !m.1.hidden,
            start + flatten(gpu_textures@, g)
                == composite_layers@ + flatten_from(gpu_textures@, g, index as int, mask_position(mask_layer)),
        decreases n - index,
    {
        let ghost mask = mask_position(mask_layer);
        let ghost before = composite_layers@;
        match &layers.children[n - 1 - index] {
            SilicaHierarchy::Group(group) => {
                if !group.hidden {
                    linearize(gpu_textures, group, composite_layers);
                    assert(composite_layers@ + flatten_from(gpu_textures@, g, index + 1, mask)
                        =~= before + flatten_from(gpu_textures@, g, index as int, mask));
                }
            },
            SilicaHierarchy::Layer(layer) => {
                if !layer.hidden {
                    let mut skip = false;
                    if let Some((_, m)) = mask_layer {
                        if layer.clipped && m.hidden {
                            skip = true;
                        }
                    }
                    if !skip {
                        let gpu_texture = &gpu_textures[layer.image];
                        let clipped = if layer.clipped {
                            Some(mask_layer.unwrap().0)
                        } else {
                            None
                        };
                        composite_layers.push(CompositeLayer {
                            texture: gpu_texture,
                            clipped,
                            attributes: layer.attributes,
                        });
                        if !layer.clipped {
                            mask_layer = Some((index, layer));
                        }
                        assert(composite_layers@ + flatten_from(gpu_textures@, g, index + 1, mask_after(g, index as int, mask))
                            =~= before + flatten_from(gpu_textures@, g, index as int, mask));
                    }
                }
            },
        }
        index = index + 1;
    }
    assert(flatten_from(gpu_textures@, g, index as int, mask_position(mask_layer)) =~= seq![]);
    assert(composite_layers@ =~= start + flatten(gpu_textures@, g));
}

/// The visible layers among the children of `g` from the `k`-th visited one
/// on, bottom first, descending into visible groups.
pub open spec fn visible_layers_from<A>(g: SilicaGroup<A>, k: int) -> Seq<SilicaLayer<A>>
    decreases g, g.children@.len() - k,
{
    if k < 0 || k >= g.children@.len() {
        seq![]
    } else {
        let rest = visible_layers_from(g, k + 1);
        match g.children@[g.children@.len() - 1 - k] {
            SilicaHierarchy::Layer(l) => if !l.hidden {
                seq![l] + rest
            } else {
                rest
            },
            SilicaHierarchy::Group(child) => if !child.hidden {
                visible_layers_from(child, 0) + rest
            } else {
                rest
            },
        }
    }
}

/// The visible layers of `g`, bottom first.
pub open spec fn visible_layers<A>(g: SilicaGroup<A>) -> Seq<SilicaLayer<A>> {
    visible_layers_from(g, 0)
}

/// Whether the layers drawn are exactly the visible layers `vis`, in the
/// same order, each with its own texture and attributes, and each with a
/// clipping mask exactly when it is clipped.
pub open spec fn draws_exactly<'a, T, A>(
    textures: Seq<T>,
    drawn: Seq<CompositeLayer<'a, T, A>>,
    vis: Seq<SilicaLayer<A>>,
) -> bool {
    &&& drawn.len() == vis.len()
    &&& forall|i: int| 0 <= i < drawn.len() ==> {
        &&& *(#[trigger] drawn[i]).texture == textures[vis[i].image as int]
        &&& drawn[i].attributes == vis[i].attributes
        &&& (drawn[i].clipped is Some) == vis[i].clipped
    }
}

proof fn lemma_draws_exactly_append<'a, T, A>(
    textures: Seq<T>,
    d1: Seq<CompositeLayer<'a, T, A>>,
    v1: Seq<SilicaLayer<A>>,
    d2: Seq<CompositeLayer<'a, T, A>>,
    v2: Seq<SilicaLayer<A>>,
)
    requires
        draws_exactly(textures, d1, v1),
        draws_exactly(textures, d2, v2),
    ensures
        draws_exactly(textures, d1 + d2, v1 + v2),
{
    assert forall|i: int| 0 <= i < (d1 + d2).len() implies {
        &&& *(#[trigger] (d1 + d2)[i]).texture == textures[(v1 + v2)[i].image as int]
        &&& (d1 + d2)[i].attributes == (v1 + v2)[i].attributes
        &&& ((d1 + d2)[i].clipped is Some) == (v1 + v2)[i].clipped
    } by {
        if i >= d1.len() {
            assert(d2[i - d1.len()] == (d1 + d2)[i]);
        } else {
            assert(d1[i] == (d1 + d2)[i]);
        }
    }
}

/// Flattening from the `k`-th visited child draws exactly the visible
/// layers from there on.
pub proof fn lemma_flatten_from_draws_visible<T, A>(
    textures: Seq<T>,
    g: SilicaGroup<A>,
    k: int,
    mask: Option<usize>,
)
    requires
        can_flatten_from(g, k, mask, textures.len() as int),
    ensures
        draws_exactly(textures, flatten_from(textures, g, k, mask), visible_layers_from(g, k)),
    decreases g, g.children@.len() - k,
{
    if k < 0 || k >= g.children@.len() {
    } else {
        let m2 = mask_after(g, k, mask);
        lemma_flatten_from_draws_visible(textures, g, k + 1, m2);
        match visited(g, k) {
            SilicaHierarchy::Layer(l) => if !l.hidden {
                let one = seq![composite_of(textures, l, mask)];
                assert(draws_exactly(textures, one, seq![l]));
                lemma_draws_exactly_append(
                    textures,
                    one,
                    seq![l],
                    flatten_from(textures, g, k + 1, m2),
                    visible_layers_from(g, k + 1),
                );
            },
            SilicaHierarchy::Group(child) => if !child.hidden {
                lemma_flatten_from_draws_visible(textures, child, 0, None);
                lemma_draws_exactly_append(
                    textures,
                    flatten_from(textures, child, 0, None),
                    visible_layers_from(child, 0),
                    flatten_from(textures, g, k + 1, m2),
                    visible_layers_from(g, k + 1),
                );
            },
        }
    }
}

/// The compositor draws exactly the visible layers of the document, bottom
/// first, descending into visible groups and skipping hidden layers and
/// everything inside hidden groups; each is drawn with its own texture and
/// attributes, and with a clipping mask exactly when it is clipped.
pub proof fn lemma_flatten_draws_visible_layers<T, A>(textures: Seq<T>, g: SilicaGroup<A>)
    requires
        can_flatten(g, textures.len() as int),
    ensures
        draws_exactly(textures, flatten(textures, g), visible_layers(g)),
{
    lemma_flatten_from_draws_visible(textures, g, 0, None);
}

/// Whether `mask`, as current before the `k`-th visited child of `g`, is
/// the position of a visible unclipped layer visited earlier.
pub open spec fn mask_points_below<A>(g: SilicaGroup<A>, k: int, mask: Option<usize>) -> bool {
    mask matches Some(j) ==> {
        &&& j < k
        &&& visited(g, j as int) matches SilicaHierarchy::Layer(l)
        &&& !l.hidden
        &&& !l.clipped
    }
}

/// A clipping mask always points at a visible unclipped layer that lies
/// below the layers it clips, within the same group.
pub proof fn lemma_mask_points_below<A>(g: SilicaGroup<A>, k: int, mask: Option<usize>)
    requires
        0 <= k < g.children@.len(),
        k < usize::MAX,
        mask_points_below(g, k, mask),
    ensures
        mask_points_below(g, k + 1, mask_after(g, k, mask)),
{
}

/// The clipping mask current before the `k`-th visited child of `g`.
pub open spec fn mask_before<A>(g: SilicaGroup<A>, k: int) -> Option<usize>
    decreases k,
{
    if k <= 0 {
        None
    } else {
        mask_after(g, k - 1, mask_before(g, k - 1))
    }
}

/// Whether `linearize` can flatten `layers` against `texture_count`
/// textures: every visible layer names one of them, and every visible
/// clipped layer has a visible unclipped layer below it in its group.
pub fn can_linearize<A>(layers: &SilicaGroup<A>, texture_count: usize) -> (ok: bool)
    ensures
        ok == can_flatten(*layers, texture_count as int),
        ok == flattenable(*layers, texture_count as int),
    decreases layers,
{
    let ghost g = *layers;
    let ghost count = texture_count as int;
    let n = layers.children.len();
    let mut has_mask = false;
    let mut ok = true;
    let mut k: usize = 0;
    while k < n
        invariant
            g == *layers,
            count == texture_count as int,
            n == g.children@.len(),
            k <= n,
            has_mask == (mask_before(g, k as int) is Some),
            can_flatten(g, count) == (ok && can_flatten_from(g, k as int, mask_before(g, k as int), count)),
        decreases n - k,
    {
        assert(mask_before(g, k + 1) == mask_after(g, k as int, mask_before(g, k as int)));
        match &layers.children[n - 1 - k] {
            SilicaHierarchy::Group(group) => {
                if !group.hidden {
                    let inner = can_linearize(group, texture_count);
                    ok = ok && inner;
                }
            },
            SilicaHierarchy::Layer(layer) => {
                if !layer.hidden {
                    if layer.image >= texture_count || (layer.clipped && !has_mask) {
                        ok = false;
                    }
                    if !layer.clipped {
                        has_mask = true;
                    }
                }
            },
        }
        k = k + 1;
    }
    proof {
        lemma_can_flatten_iff_flattenable(g, count);
    }
    ok
}

/// Whether `node` is a visible unclipped layer: one that can clip the
/// layers above it.
pub open spec fn can_clip<A>(node: SilicaHierarchy<A>) -> bool {
    node matches SilicaHierarchy::Layer(l) && !l.hidden && !l.clipped
}

/// Whether the `j`-th visited child of `g` is the nearest visible unclipped
/// layer below the `k`-th visited one: children are visited from the end
/// of `children` (the bottom of the document), so it is the child at
/// `len - 1 - j`, it lies below the one at `len - 1 - k`, it is a visible
/// unclipped layer, and no child between the two is one.
pub open spec fn nearest_clipper<A>(g: SilicaGroup<A>, k: int, j: int) -> bool {
    let len = g.children@.len();
    &&& 0 <= j < k
    &&& can_clip(g.children@[len - 1 - j])
    &&& forall|d: int| len - 1 - k < d < len - 1 - j ==> !can_clip(#[trigger] g.children@[d])
}

/// Whether some child of `g` below the `k`-th visited one (nearer the end
/// of `children`) is a visible unclipped layer.
pub open spec fn has_clipper_before<A>(g: SilicaGroup<A>, k: int) -> bool {
    let len = g.children@.len();
    exists|d: int| len - 1 - k < d < len && can_clip(#[trigger] g.children@[d])
}

/// The mask current before the `k`-th visited child is the nearest visible
/// unclipped layer visited before it, and there is none exactly when no
/// such layer was visited.
proof fn lemma_mask_before_nearest<A>(g: SilicaGroup<A>, k: int)
    requires
        0 <= k <= g.children@.len(),
        g.children@.len() <= usize::MAX,
    ensures
        mask_before(g, k) matches Some(j) ==> nearest_clipper(g, k, j as int),
        mask_before(g, k) is None <==> !has_clipper_before(g, k),
    decreases k,
{
    if k > 0 {
        lemma_mask_before_nearest(g, k - 1);
        let len = g.children@.len();
        if mask_before(g, k) is None {
            assert forall|d: int| len - 1 - k < d < len implies !can_clip(#[trigger] g.children@[d]) by {
                if d == len - k {
                } else {
                    assert(!has_clipper_before(g, k - 1));
                }
            }
        } else {
            if !can_clip(visited(g, k - 1)) {
                let j = mask_before(g, k - 1)->0;
                assert(can_clip(g.children@[len - 1 - j]));
                assert(len - 1 - k < len - 1 - j < len);
            } else {
                assert(can_clip(g.children@[len - k]));
            }
        }
    }
}

/// The layers drawn before the `k`-th visited child's contribution are as
/// many as the visible layers visited before it, and what follows is the
/// flattening from that child on, under the mask current before it.
proof fn lemma_flatten_suffix<T, A>(textures: Seq<T>, g: SilicaGroup<A>, k: int)
    requires
        0 <= k <= g.children@.len(),
        can_flatten(g, textures.len() as int),
    ensures
        can_flatten_from(g, k, mask_before(g, k), textures.len() as int),
        visible_layers_from(g, k).len() <= visible_layers(g).len(),
        flatten(textures, g).len() == visible_layers(g).len(),
        flatten(textures, g).subrange(
            visible_layers(g).len() - visible_layers_from(g, k).len(),
            flatten(textures, g).len() as int,
        ) == flatten_from(textures, g, k, mask_before(g, k)),
    decreases k,
{
    lemma_flatten_draws_visible_layers(textures, g);
    if k == 0 {
        assert(flatten(textures, g).subrange(0, flatten(textures, g).len() as int) =~= flatten(textures, g));
    } else {
        lemma_flatten_suffix(textures, g, k - 1);
        let m = mask_before(g, k - 1);
        assert(mask_before(g, k) == mask_after(g, k - 1, m));
        let all = flatten(textures, g);
        let i0 = visible_layers(g).len() - visible_layers_from(g, k - 1).len();
        let cur = flatten_from(textures, g, k - 1, m);
        let rest = flatten_from(textures, g, k, mask_before(g, k));
        lemma_flatten_from_draws_visible(textures, g, k - 1, m);
        lemma_flatten_from_draws_visible(textures, g, k, mask_before(g, k));
        let head_len = visible_layers_from(g, k - 1).len() - visible_layers_from(g, k).len();
        match visited(g, k - 1) {
            SilicaHierarchy::Layer(l) => {
                if !l.hidden {
                    assert(cur == seq![composite_of(textures, l, m)] + rest);
                } else {
                    assert(cur == rest);
                }
            },
            SilicaHierarchy::Group(child) => {
                if !child.hidden {
                    lemma_flatten_from_draws_visible(textures, child, 0, None);
                    assert(cur == flatten_from(textures, child, 0, None) + rest);
                } else {
                    assert(cur == rest);
                }
            },
        }
        assert(cur.subrange(head_len, cur.len() as int) =~= rest);
        assert(all.subrange(i0 + head_len, all.len() as int) =~= cur.subrange(head_len, cur.len() as int));
    }
}

/// Every visible layer among the children of a group (the child at
/// `len - 1 - k`, visited `k`-th since children are visited from the bottom
/// of the document up) is drawn right after the visible layers below it,
/// with its own texture and attributes; a clipped one is clipped by the
/// nearest visible unclipped layer below it in its group, recorded as that
/// layer's visiting position, and an unclipped one by none.
pub proof fn lemma_clipped_by_nearest<T, A>(textures: Seq<T>, g: SilicaGroup<A>, k: int)
    requires
        can_flatten(g, textures.len() as int),
        0 <= k < g.children@.len(),
        g.children@[g.children@.len() - 1 - k] matches SilicaHierarchy::Layer(l) && !l.hidden,
    ensures
        ({
            let l = g.children@[g.children@.len() - 1 - k]->Layer_0;
            let i = visible_layers(g).len() - visible_layers_from(g, k).len();
            let e = flatten(textures, g)[i];
            &&& 0 <= i < flatten(textures, g).len()
            &&& *e.texture == textures[l.image as int]
            &&& e.attributes == l.attributes
            &&& l.clipped ==> (e.clipped matches Some(j) && nearest_clipper(g, k, j as int))
            &&& !l.clipped ==> e.clipped is None
        }),
{
    lemma_flatten_suffix(textures, g, k);
    assert(g.children.len() == g.children@.len());
    lemma_mask_before_nearest(g, k);
    let l = visited(g, k)->Layer_0;
    let all = flatten(textures, g);
    let i = visible_layers(g).len() - visible_layers_from(g, k).len();
    let m = mask_before(g, k);
    let cur = flatten_from(textures, g, k, m);
    assert(cur[0] == composite_of(textures, l, m));
    assert(all.subrange(i, all.len() as int)[0] == all[i]);
}

/// Whether the `k`-th visited child of `g`, if it is a visible layer,
/// names one of `texture_count` textures and, when clipped, has a visible
/// unclipped layer visited before it in `g`.
pub open spec fn layer_ok<A>(g: SilicaGroup<A>, k: int, texture_count: int) -> bool {
    match g.children@[g.children@.len() - 1 - k] {
        SilicaHierarchy::Layer(l) => !l.hidden ==> {
            &&& l.image < texture_count
            &&& l.clipped ==> has_clipper_before(g, k)
        },
        SilicaHierarchy::Group(_) => true,
    }
}

/// Whether every visible layer among the children of `g` from the `k`-th
/// visited one on, and in every visible group among them, meets `layer_ok`
/// in its own group.
pub open spec fn flattenable_from<A>(g: SilicaGroup<A>, k: int, texture_count: int) -> bool
    decreases g, g.children@.len() - k,
{
    if k < 0 || k >= g.children@.len() {
        true
    } else {
        &&& layer_ok(g, k, texture_count)
        &&& match g.children@[g.children@.len() - 1 - k] {
            SilicaHierarchy::Group(c) => !c.hidden ==> flattenable_from(c, 0, texture_count),
            SilicaHierarchy::Layer(_) => true,
        }
        &&& flattenable_from(g, k + 1, texture_count)
    }
}

/// Whether every visible layer of `g` names one of `texture_count`
/// textures and every visible clipped layer has a visible unclipped layer
/// visited before it in its own group, in `g` and in every visible group
/// within it.
pub open spec fn flattenable<A>(g: SilicaGroup<A>, texture_count: int) -> bool {
    flattenable_from(g, 0, texture_count)
}

proof fn lemma_can_flatten_from_iff<A>(g: SilicaGroup<A>, k: int, n: int)
    requires
        0 <= k <= g.children@.len(),
    ensures
        can_flatten_from(g, k, mask_before(g, k), n) <==> flattenable_from(g, k, n),
    decreases g, g.children@.len() - k,
{
    assert(g.children.len() == g.children@.len());
    if k < g.children@.len() {
        lemma_can_flatten_from_iff(g, k + 1, n);
        lemma_mask_before_nearest(g, k);
        assert(mask_before(g, k + 1) == mask_after(g, k, mask_before(g, k)));
        match visited(g, k) {
            SilicaHierarchy::Group(c) => {
                if !c.hidden {
                    lemma_can_flatten_from_iff(c, 0, n);
                }
            },
            SilicaHierarchy::Layer(l) => {},
        }
    }
}

/// The condition under which the layer tree can be flattened is exactly
/// `flattenable`: every visible layer names a texture, and every visible
/// clipped layer has a visible unclipped layer visited before it in its
/// own group. Nothing else is refused: a clipped layer may sit on another
/// clipped layer, and the layers visited before the first one that can
/// clip do not matter when they are not clipped.
pub proof fn lemma_can_flatten_iff_flattenable<A>(g: SilicaGroup<A>, texture_count: int)
    ensures
        can_flatten(g, texture_count) <==> flattenable(g, texture_count),
{
    lemma_can_flatten_from_iff(g, 0, texture_count);
}

} // verus!
