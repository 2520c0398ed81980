//! The compositor: turns the layer store into the frame's ordered sequence
//! of draw calls.

use vstd::prelude::*;
use crate::geometry::Rect;
use crate::store::{ImageLayer, LayerStore, StoreModel, TextModel};

verus! {

/// One draw call: paint the drawable's full source extent `src` into the
/// destination rectangle `dst`.
#[derive(Clone, Copy, PartialEq, Eq, Structural, Debug)]
pub struct DrawCmd {
    pub drawable_id: u64,
    pub src: Rect,
    pub dst: Rect,
}

/// The draw call for one layer: its drawable's full pixel extent, mapped to
/// the layer's rectangle.
pub open spec fn spec_image_cmd(l: ImageLayer) -> DrawCmd {
    DrawCmd {
        drawable_id: l.drawable.id,
        src: Rect { x: 0, y: 0, w: l.rect.w, h: l.rect.h },
        dst: l.rect,
    }
}

/// Draw calls of the image layers, one each, in insertion order.
pub open spec fn spec_image_cmds(images: Seq<ImageLayer>) -> Seq<DrawCmd>
    decreases images.len(),
{
    if images.len() == 0 {
        Seq::empty()
    } else {
        spec_image_cmds(images.drop_last()).push(spec_image_cmd(images.last()))
    }
}

/// Draw calls of the text layers in insertion order; a layer whose drawable
/// is `None` is skipped, with no placeholder.
pub open spec fn spec_text_cmds(texts: Seq<TextModel>) -> Seq<DrawCmd>
    decreases texts.len(),
{
    if texts.len() == 0 {
        Seq::empty()
    } else {
        spec_text_cmds(texts.drop_last()) + (match texts.last().layer {
            Some(l) => seq![spec_image_cmd(l)],
            None => Seq::empty(),
        })
    }
}

/// The frame's draw calls: every image layer, then every text layer with a
/// drawable, each collection in insertion order.
pub open spec fn spec_draw_plan(m: StoreModel) -> Seq<DrawCmd> {
    spec_image_cmds(m.images) + spec_text_cmds(m.texts)
}

/// The image part of the plan, read pointwise: command `i` draws layer `i`.
pub proof fn lemma_image_cmds_pointwise(images: Seq<ImageLayer>)
    ensures
        spec_image_cmds(images).len() == images.len(),
        forall|i: int|
            0 <= i < images.len() ==> spec_image_cmds(images)[i] == spec_image_cmd(images[i]),
    decreases images.len(),
{
    if images.len() > 0 {
        lemma_image_cmds_pointwise(images.drop_last());
        assert forall|i: int| 0 <= i < images.len() implies spec_image_cmds(images)[i]
            == spec_image_cmd(images[i]) by {
            if i < images.len() - 1 {
                assert(images.drop_last()[i] == images[i]);
            }
        }
    }
}

/// How many of the text layers carry a drawable -- the number of draw calls
/// the text part of the plan holds.
pub open spec fn count_drawn(texts: Seq<TextModel>) -> nat
    decreases texts.len(),
{
    if texts.len() == 0 {
        0
    } else {
        count_drawn(texts.drop_last()) + (if texts.last().layer is Some {
            1nat
        } else {
            0nat
        })
    }
}

/// The text part of the plan holds one draw call per drawable-bearing layer.
pub proof fn lemma_text_cmds_len(texts: Seq<TextModel>)
    ensures
        spec_text_cmds(texts).len() == count_drawn(texts),
    decreases texts.len(),
{
    if texts.len() > 0 {
        lemma_text_cmds_len(texts.drop_last());
    }
}

/// Extending the prefix by one layer raises the drawn count by one exactly
/// when that layer carries a drawable.
pub proof fn lemma_count_drawn_step(texts: Seq<TextModel>, j: int)
    requires
        0 <= j < texts.len(),
    ensures
        count_drawn(texts.take(j + 1)) == count_drawn(texts.take(j)) + (
        if texts[j].layer is Some {
            1nat
        } else {
            0nat
        }),
{
    assert(texts.take(j + 1).drop_last() =~= texts.take(j));
    assert(texts.take(j + 1).last() == texts[j]);
}

/// Drawn counts grow along the layer sequence, strictly across a
/// drawable-bearing layer: an earlier drawable's call comes strictly before
/// a later one's.
pub proof fn lemma_count_drawn_monotone(texts: Seq<TextModel>, j1: int, j2: int)
    requires
        0 <= j1 < j2 <= texts.len(),
        texts[j1].layer is Some,
    ensures
        count_drawn(texts.take(j1)) < count_drawn(texts.take(j2)),
    decreases j2 - j1,
{
    if j2 == j1 + 1 {
        lemma_count_drawn_step(texts, j1);
    } else {
        lemma_count_drawn_monotone(texts, j1, j2 - 1);
        lemma_count_drawn_step(texts, j2 - 1);
    }
}

/// Where the drawable of text layer `j` stands in the text part of the plan:
/// right after the drawables of all earlier-created text layers, at index
/// `count_drawn(texts.take(j))`.
pub proof fn lemma_text_cmd_position(texts: Seq<TextModel>, j: int)
    requires
        0 <= j < texts.len(),
        texts[j].layer is Some,
    ensures
        count_drawn(texts.take(j)) < spec_text_cmds(texts).len(),
        texts[j].layer matches Some(l) ==> spec_text_cmds(texts)[count_drawn(texts.take(j)) as int]
            == spec_image_cmd(l),
    decreases texts.len(),
{
    lemma_text_cmds_len(texts);
    lemma_count_drawn_monotone(texts, j, texts.len() as int);
    assert(texts.take(texts.len() as int) =~= texts);
    if j == texts.len() - 1 {
        assert(texts.take(j) =~= texts.drop_last());
        lemma_text_cmds_len(texts.drop_last());
    } else {
        assert(texts.drop_last()[j] == texts[j]);
        assert(texts.drop_last().take(j) =~= texts.take(j));
        lemma_text_cmd_position(texts.drop_last(), j);
    }
}

/// Law: compositing order is insertion order within each collection, and
/// image layers always paint before text layers: the plan is the image
/// commands, pointwise in insertion order, followed by the text commands.
pub proof fn lemma_paint_order(m: StoreModel)
    ensures
        spec_draw_plan(m).len() == m.images.len() + spec_text_cmds(m.texts).len(),
        forall|i: int|
            0 <= i < m.images.len() ==> spec_draw_plan(m)[i] == spec_image_cmd(m.images[i]),
        forall|j: int|
            0 <= j < spec_text_cmds(m.texts).len() ==> spec_draw_plan(m)[m.images.len() + j]
                == spec_text_cmds(m.texts)[j],
{
    lemma_image_cmds_pointwise(m.images);
}

/// Law: in the full plan, the drawable of text layer `j` is drawn after
/// every image layer and after the drawables of all earlier-created text
/// layers — its draw call stands at `images.len()` plus the number of
/// drawable-bearing text layers before `j` (so layers without a drawable are
/// skipped entirely, and the plan ends after the last drawn text layer).
pub proof fn lemma_text_layer_paints_last(m: StoreModel, j: int)
    requires
        0 <= j < m.texts.len(),
        m.texts[j].layer is Some,
    ensures
        spec_draw_plan(m).len() == m.images.len() + count_drawn(m.texts),
        m.images.len() + count_drawn(m.texts.take(j)) < spec_draw_plan(m).len(),
        m.texts[j].layer matches Some(l) ==> spec_draw_plan(m)[(m.images.len() + count_drawn(
            m.texts.take(j),
        )) as int] == spec_image_cmd(l),
{
    lemma_image_cmds_pointwise(m.images);
    lemma_text_cmds_len(m.texts);
    lemma_text_cmd_position(m.texts, j);
}

/// Builds the frame's draw calls from the store, in paint order. Pure
/// read-only iteration: the store is untouched, and the same store always
/// yields the same plan.
pub fn composite(store: &LayerStore) -> (plan: Vec<DrawCmd>)
    ensures
        plan@ == spec_draw_plan(store@),
{
    let mut plan: Vec<DrawCmd> = Vec::new();
    let mut i: usize = 0;
    while i < store.images.len()
        invariant
            i <= store@.images.len(),
            plan@ == spec_image_cmds(store@.images.take(i as int)),
        decreases store@.images.len() - i,
    {
        proof {
            assert(store@.images.take(i + 1).drop_last() =~= store@.images.take(i as int));
            assert(store@.images.take(i + 1).last() == store@.images[i as int]);
        }
        let l = store.images[i];
        plan.push(DrawCmd {
            drawable_id: l.drawable.id,
            src: Rect { x: 0, y: 0, w: l.rect.w, h: l.rect.h },
            dst: l.rect,
        });
        i += 1;
    }
    proof {
        assert(store@.images.take(store@.images.len() as int) =~= store@.images);
        assert(spec_text_cmds(store@.texts.take(0)) =~= Seq::<DrawCmd>::empty());
        assert(plan@ =~= spec_image_cmds(store@.images) + spec_text_cmds(store@.texts.take(0)));
    }
    let mut j: usize = 0;
    while j < store.texts.len()
        invariant
            j <= store@.texts.len(),
            plan@ == spec_image_cmds(store@.images) + spec_text_cmds(store@.texts.take(j as int)),
        decreases store@.texts.len() - j,
    {
        proof {
            assert(store@.texts.take(j + 1).drop_last() =~= store@.texts.take(j as int));
            assert(store@.texts.take(j + 1).last() == store@.texts[j as int]);
        }
        match store.texts[j].layer {
            Some(l) => {
                plan.push(DrawCmd {
                    drawable_id: l.drawable.id,
                    src: Rect { x: 0, y: 0, w: l.rect.w, h: l.rect.h },
                    dst: l.rect,
                });
                proof {
                    assert(plan@ =~= spec_image_cmds(store@.images) + spec_text_cmds(
                        store@.texts.take(j + 1),
                    ));
                }
            },
            None => {
                proof {
                    assert(plan@ =~= spec_image_cmds(store@.images) + spec_text_cmds(
                        store@.texts.take(j + 1),
                    ));
                }
            },
        }
        j += 1;
    }
    proof {
        assert(store@.texts.take(store@.texts.len() as int) =~= store@.texts);
    }
    plan
}

} // verus!
