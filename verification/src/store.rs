//! The layer store: ordered image layers and text layers, hit-testing, and
//! the operations the interaction state machine performs on them.

use vstd::prelude::*;
use vstd::string::StringExecFns;
use crate::geometry::{Rect, MAX_DIM, ORIGIN_MIN, ORIGIN_MAX};

verus! {

/// Handle to a GPU-resident pixel buffer, produced outside this crate by
/// uploading a decoded or rasterized buffer. The store never looks inside it;
/// it only records its identity and pixel extent.
#[derive(Clone, Copy, PartialEq, Eq, Structural, Debug)]
pub struct Drawable {
    pub id: u64,
    pub width: u32,
    pub height: u32,
}

impl Drawable {
    /// Well-formed: the extent fits the renderer's signed 32-bit coordinates.
    pub open spec fn wf(self) -> bool {
        self.width <= MAX_DIM && self.height <= MAX_DIM
    }

    /// Wraps a handle, refusing an extent the renderer could not address.
    pub fn new(id: u64, width: u32, height: u32) -> (r: Option<Drawable>)
        ensures
            r == if width <= MAX_DIM && height <= MAX_DIM {
                Some(Drawable { id, width, height })
            } else {
                None::<Drawable>
            },
            r matches Some(d) ==> d.wf(),
    {
        if width <= MAX_DIM && height <= MAX_DIM {
            Some(Drawable { id, width, height })
        } else {
            None
        }
    }
}

/// A pasted image: its drawable and its destination rectangle. Only the
/// rectangle's origin ever changes (by dragging); the extent stays the
/// drawable's pixel extent.
#[derive(Clone, Copy, PartialEq, Eq, Structural, Debug)]
pub struct ImageLayer {
    pub drawable: Drawable,
    pub rect: Rect,
}

impl ImageLayer {
    pub open spec fn wf(self) -> bool {
        &&& self.drawable.wf()
        &&& self.rect.wf()
        &&& self.rect.w == self.drawable.width
        &&& self.rect.h == self.drawable.height
    }
}

/// A typed-text layer: the accumulated text, the fixed anchor where text
/// entry began, and the drawable of the latest rasterization, `None` until
/// the text has been rasterized to a non-empty buffer.
#[derive(Clone, Debug)]
pub struct TextLayer {
    pub layer: Option<ImageLayer>,
    pub text: String,
    pub x: i32,
    pub y: i32,
}

/// Mathematical model of a text layer: the text as a character sequence.
#[verifier::ext_equal]
pub struct TextModel {
    pub layer: Option<ImageLayer>,
    pub text: Seq<char>,
    pub x: int,
    pub y: int,
}

impl TextModel {
    pub open spec fn wf(self) -> bool {
        self.layer matches Some(l) ==> {
            &&& l.wf()
            &&& l.rect.x == self.x
            &&& l.rect.y == self.y
        }
    }
}

impl View for TextLayer {
    type V = TextModel;

    open spec fn view(&self) -> TextModel {
        TextModel { layer: self.layer, text: self.text@, x: self.x as int, y: self.y as int }
    }
}

/// Mathematical model of the whole store: two layer sequences in paint order.
#[verifier::ext_equal]
pub struct StoreModel {
    pub images: Seq<ImageLayer>,
    pub texts: Seq<TextModel>,
}

impl StoreModel {
    pub open spec fn wf(self) -> bool {
        &&& forall|i: int| 0 <= i < self.images.len() ==> (#[trigger] self.images[i]).wf()
        &&& forall|i: int| 0 <= i < self.texts.len() ==> (#[trigger] self.texts[i]).wf()
    }
}

/// Ordered collections of layers. Insertion order is paint order within each
/// collection, and image layers always paint before text layers.
#[derive(Debug)]
pub struct LayerStore {
    pub images: Vec<ImageLayer>,
    pub texts: Vec<TextLayer>,
}

impl View for LayerStore {
    type V = StoreModel;

    open spec fn view(&self) -> StoreModel {
        StoreModel {
            images: self.images@,
            texts: Seq::new(self.texts@.len(), |i: int| self.texts@[i]@),
        }
    }
}

/// The topmost (most recently added) image layer containing the point, if
/// any. Later layers paint over earlier ones, so they win the tie.
pub open spec fn spec_hit_test(images: Seq<ImageLayer>, px: int, py: int) -> Option<int>
    decreases images.len(),
{
    if images.len() == 0 {
        None
    } else if images.last().rect.spec_contains(px, py) {
        Some(images.len() - 1)
    } else {
        spec_hit_test(images.drop_last(), px, py)
    }
}

/// `spec_hit_test` returns `None` exactly when no layer contains the point,
/// and otherwise the greatest index whose layer contains it.
pub proof fn lemma_hit_test_characterization(images: Seq<ImageLayer>, px: int, py: int)
    ensures
        spec_hit_test(images, px, py) is None <==> (forall|j: int|
            0 <= j < images.len() ==> !images[j].rect.spec_contains(px, py)),
        spec_hit_test(images, px, py) matches Some(i) ==> {
            &&& 0 <= i < images.len()
            &&& images[i].rect.spec_contains(px, py)
            &&& forall|j: int| i < j < images.len() ==> !images[j].rect.spec_contains(px, py)
        },
    decreases images.len(),
{
    if images.len() > 0 {
        lemma_hit_test_characterization(images.drop_last(), px, py);
        assert forall|j: int| 0 <= j < images.len() - 1 implies images.drop_last()[j]
            == images[j] by {}
    }
}

/// Two rectangles are disjoint when no point lies in both.
pub open spec fn rects_disjoint(a: Rect, b: Rect) -> bool {
    forall|px: int, py: int| !(a.spec_contains(px, py) && #[trigger] b.spec_contains(px, py))
}

/// Law: over pairwise non-overlapping layers, hit-testing is unambiguous —
/// the one layer containing the point is the one returned, whatever its
/// position in paint order.
pub proof fn lemma_hit_test_unique_when_disjoint(
    images: Seq<ImageLayer>,
    i: int,
    px: int,
    py: int,
)
    requires
        forall|j: int, k: int|
            0 <= j < k < images.len() ==> rects_disjoint(
                (#[trigger] images[j]).rect,
                (#[trigger] images[k]).rect,
            ),
        0 <= i < images.len(),
        images[i].rect.spec_contains(px, py),
    ensures
        spec_hit_test(images, px, py) == Some(i),
{
    lemma_hit_test_characterization(images, px, py);
    match spec_hit_test(images, px, py) {
        Some(k) => {
            if k < i {
                assert(rects_disjoint(images[k].rect, images[i].rect));
                assert(false);
            }
            if i < k {
                assert(rects_disjoint(images[i].rect, images[k].rect));
                assert(false);
            }
        },
        None => {
            assert(!images[i].rect.spec_contains(px, py));
        },
    }
}

/// Law: a zero-width or zero-height layer is never returned by hit-testing,
/// regardless of the pointer position.
pub proof fn lemma_zero_area_never_hit(images: Seq<ImageLayer>, px: int, py: int)
    ensures
        spec_hit_test(images, px, py) matches Some(i) ==> images[i].rect.w > 0
            && images[i].rect.h > 0,
{
    lemma_hit_test_characterization(images, px, py);
}

/// The drawable a re-rendering leaves on a text layer anchored at `(x, y)`:
/// the uploaded rasterization when there is one of positive extent, and
/// `None` when rasterization produced nothing or an empty buffer.
pub open spec fn spec_text_drawable(x: int, y: int, d: Option<Drawable>) -> Option<ImageLayer> {
    match d {
        Some(dd) => if dd.width > 0 && dd.height > 0 {
            Some(
                ImageLayer {
                    drawable: dd,
                    rect: Rect { x: x as i64, y: y as i64, w: dd.width, h: dd.height },
                },
            )
        } else {
            None
        },
        None => None,
    }
}

/// The store after a fragment is appended to the text of layer `i`.
pub open spec fn spec_append_text(m: StoreModel, i: int, frag: Seq<char>) -> StoreModel {
    if 0 <= i < m.texts.len() {
        StoreModel {
            images: m.images,
            texts: m.texts.update(i,
                TextModel {
                    layer: m.texts[i].layer,
                    text: m.texts[i].text + frag,
                    x: m.texts[i].x,
                    y: m.texts[i].y,
                },
            ),
        }
    } else {
        m
    }
}

/// The store after the drawable of text layer `i` is replaced with the
/// result of re-rendering its text.
pub open spec fn spec_set_text_drawable(m: StoreModel, i: int, d: Option<Drawable>) -> StoreModel {
    if 0 <= i < m.texts.len() {
        StoreModel {
            images: m.images,
            texts: m.texts.update(i,
                TextModel {
                    layer: spec_text_drawable(m.texts[i].x, m.texts[i].y, d),
                    text: m.texts[i].text,
                    x: m.texts[i].x,
                    y: m.texts[i].y,
                },
            ),
        }
    } else {
        m
    }
}

/// Law: appending fragment `a` and then fragment `b` to a text layer, then
/// re-rendering, leaves exactly the store that appending `a + b` at once and
/// re-rendering leaves. Rasterization reads only the accumulated text, which
/// is equal on both paths, so both re-renderings are handed the same
/// drawable `d`.
pub proof fn lemma_append_text_accumulates(
    m: StoreModel,
    i: int,
    a: Seq<char>,
    b: Seq<char>,
    d: Option<Drawable>,
)
    ensures
        spec_set_text_drawable(spec_append_text(spec_append_text(m, i, a), i, b), i, d)
            == spec_set_text_drawable(spec_append_text(m, i, a + b), i, d),
{
    if 0 <= i < m.texts.len() {
        assert(m.texts[i].text + a + b =~= m.texts[i].text + (a + b));
        assert(spec_set_text_drawable(spec_append_text(spec_append_text(m, i, a), i, b), i, d)
            =~~= spec_set_text_drawable(spec_append_text(m, i, a + b), i, d));
    }
}

impl LayerStore {
    pub open spec fn wf(self) -> bool {
        self@.wf()
    }

    /// An empty store.
    pub fn new() -> (s: LayerStore)
        ensures
            s@.images.len() == 0,
            s@.texts.len() == 0,
            s.wf(),
    {
        LayerStore { images: Vec::new(), texts: Vec::new() }
    }

    /// Appends an image layer whose rectangle sits at `(x, y)` with the
    /// drawable's extent, and returns its index. The drawable already exists:
    /// a layer is never inserted before its pixels were uploaded.
    pub fn add_image_layer(&mut self, drawable: Drawable, x: i32, y: i32) -> (idx: usize)
        requires
            old(self).wf(),
            drawable.wf(),
        ensures
            final(self)@.images == old(self)@.images.push(
                (ImageLayer {
                    drawable,
                    rect: Rect {
                        x: x as i64,
                        y: y as i64,
                        w: drawable.width,
                        h: drawable.height,
                    },
                }),
            ),
            final(self)@.texts == old(self)@.texts,
            idx == old(self)@.images.len(),
            final(self).wf(),
    {
        let rect = Rect::new(x, y, drawable.width, drawable.height);
        let idx = self.images.len();
        self.images.push(ImageLayer { drawable, rect });
        proof {
            assert(self@.texts =~= old(self)@.texts);
            assert forall|i: int| 0 <= i < self@.images.len() implies (
            #[trigger] self@.images[i]).wf() by {
                if i < old(self)@.images.len() {
                    assert(old(self)@.images[i].wf());
                }
            }
        }
        idx
    }

    /// Appends an empty text layer anchored at `(x, y)`, with no drawable
    /// yet, and returns its index.
    pub fn begin_text_layer(&mut self, x: i32, y: i32) -> (idx: usize)
        requires
            old(self).wf(),
        ensures
            final(self)@.texts == old(self)@.texts.push(
                (TextModel {
                    layer: None,
                    text: Seq::<char>::empty(),
                    x: x as int,
                    y: y as int,
                }),
            ),
            final(self)@.images == old(self)@.images,
            idx == old(self)@.texts.len(),
            final(self).wf(),
    {
        let idx = self.texts.len();
        self.texts.push(TextLayer { layer: None, text: String::new(), x, y });
        proof {
            assert(final(self)@.texts =~= old(self)@.texts.push(
                (TextModel {
                    layer: None,
                    text: Seq::<char>::empty(),
                    x: x as int,
                    y: y as int,
                }),
            ));
        }
        idx
    }

    /// Appends `fragment` to the text of layer `index`. The drawable is not
    /// touched here: the caller re-rasterizes the whole accumulated text —
    /// glyph layout depends on the full string — and hands the upload to
    /// `set_text_drawable`.
    pub fn append_text(&mut self, index: usize, fragment: &str)
        requires
            old(self).wf(),
            index < old(self)@.texts.len(),
        ensures
            final(self)@ == spec_append_text(old(self)@, index as int, fragment@),
            final(self).wf(),
    {
        let cur = &self.texts[index];
        let mut text = cur.text.clone();
        let layer = cur.layer;
        let x = cur.x;
        let y = cur.y;
        text.append(fragment);
        self.texts[index] = TextLayer { layer, text, x, y };
        proof {
            assert(final(self)@ =~~= spec_append_text(old(self)@, index as int, fragment@));
        }
    }

    /// Replaces the drawable of text layer `index` with the upload of its
    /// latest rasterization, anchored at the layer's fixed anchor. A missing
    /// or zero-size rasterization leaves the drawable `None` rather than a
    /// degenerate one.
    pub fn set_text_drawable(&mut self, index: usize, drawable: Option<Drawable>)
        requires
            old(self).wf(),
            index < old(self)@.texts.len(),
            drawable matches Some(d) ==> d.wf(),
        ensures
            final(self)@ == spec_set_text_drawable(old(self)@, index as int, drawable),
            final(self).wf(),
    {
        let cur = &self.texts[index];
        let x = cur.x;
        let y = cur.y;
        let mut text = cur.text.clone();
        let layer: Option<ImageLayer> = match drawable {
            Some(d) => if d.width > 0 && d.height > 0 {
                Some(ImageLayer { drawable: d, rect: Rect::new(x, y, d.width, d.height) })
            } else {
                None
            },
            None => None,
        };
        self.texts[index] = TextLayer { layer, text, x, y };
        proof {
            assert(final(self)@ =~~= spec_set_text_drawable(old(self)@, index as int, drawable));
        }
    }

    /// The accumulated text of text layer `index`, for the caller to
    /// rasterize.
    pub fn text_of(&self, index: usize) -> (s: &String)
        requires
            index < self@.texts.len(),
        ensures
            s@ == self@.texts[index as int].text,
    {
        &self.texts[index].text
    }

    /// Returns the topmost image layer containing `(px, py)`: the one that
    /// paints last among those containing the point. A zero-width or
    /// zero-height layer contains no point and is never returned.
    pub fn hit_test_image(&self, px: i32, py: i32) -> (r: Option<usize>)
        requires
            self.wf(),
        ensures
            spec_hit_test(self@.images, px as int, py as int) == (match r {
                Some(i) => Some(i as int),
                None => None::<int>,
            }),
            r matches Some(i) ==> {
                &&& i < self@.images.len()
                &&& self@.images[i as int].rect.spec_contains(px as int, py as int)
                &&& forall|j: int|
                    i < j < self@.images.len()
                        ==> !self@.images[j].rect.spec_contains(px as int, py as int)
            },
            r is None ==> forall|j: int|
                0 <= j < self@.images.len()
                    ==> !self@.images[j].rect.spec_contains(px as int, py as int),
    {
        let mut best: Option<usize> = None;
        let mut i: usize = 0;
        while i < self.images.len()
            invariant
                self.wf(),
                i <= self@.images.len(),
                spec_hit_test(self@.images.take(i as int), px as int, py as int) == (match best {
                    Some(b) => Some(b as int),
                    None => None::<int>,
                }),
            decreases self@.images.len() - i,
        {
            proof {
                assert(self@.images.take(i + 1).drop_last() =~= self@.images.take(i as int));
                assert(self@.images.take(i + 1).last() == self@.images[i as int]);
            }
            if self.images[i].rect.contains(px, py) {
                best = Some(i);
            }
            i += 1;
        }
        proof {
            assert(self@.images.take(self@.images.len() as int) =~= self@.images);
            lemma_hit_test_characterization(self@.images, px as int, py as int);
        }
        best
    }

    /// Overwrites the origin of an image layer's rectangle. Its extent and
    /// drawable are untouched; nothing clamps the origin against the window,
    /// so layers may be moved off-screen.
    pub fn move_image_layer(&mut self, index: usize, new_x: i32, new_y: i32)
        requires
            old(self).wf(),
            index < old(self)@.images.len(),
        ensures
            final(self)@.images == old(self)@.images.update(index as int,
                (ImageLayer {
                    drawable: old(self)@.images[index as int].drawable,
                    rect: Rect {
                        x: new_x as i64,
                        y: new_y as i64,
                        w: old(self)@.images[index as int].rect.w,
                        h: old(self)@.images[index as int].rect.h,
                    },
                }),
            ),
            final(self)@.texts == old(self)@.texts,
            final(self).wf(),
    {
        self.set_image_origin(index, new_x as i64, new_y as i64);
    }

    /// Origin overwrite shared by `move_image_layer` and the drag handler,
    /// which can push an origin below `i32::MIN` (pointer minus grab offset).
    pub(crate) fn set_image_origin(&mut self, index: usize, new_x: i64, new_y: i64)
        requires
            old(self).wf(),
            index < old(self)@.images.len(),
            ORIGIN_MIN <= new_x <= ORIGIN_MAX,
            ORIGIN_MIN <= new_y <= ORIGIN_MAX,
        ensures
            final(self)@.images == old(self)@.images.update(index as int,
                (ImageLayer {
                    drawable: old(self)@.images[index as int].drawable,
                    rect: Rect {
                        x: new_x,
                        y: new_y,
                        w: old(self)@.images[index as int].rect.w,
                        h: old(self)@.images[index as int].rect.h,
                    },
                }),
            ),
            final(self)@.texts == old(self)@.texts,
            final(self).wf(),
    {
        let cur = self.images[index];
        self.images[index] = ImageLayer {
            drawable: cur.drawable,
            rect: Rect { x: new_x, y: new_y, w: cur.rect.w, h: cur.rect.h },
        };
        proof {
            assert(self@.texts =~= old(self)@.texts);
            assert(old(self)@.images[index as int].wf());
            assert forall|i: int| 0 <= i < self@.images.len() implies (
            #[trigger] self@.images[i]).wf() by {
                if i != index as int {
                    assert(old(self)@.images[i].wf());
                }
            }
        }
    }

    /// Number of image layers.
    pub fn image_count(&self) -> (n: usize)
        ensures
            n == self@.images.len(),
    {
        self.images.len()
    }

    /// Number of text layers.
    pub fn text_count(&self) -> (n: usize)
        ensures
            n == self@.texts.len(),
    {
        self.texts.len()
    }

    /// The image layer at `index`.
    pub fn image_layer(&self, index: usize) -> (l: ImageLayer)
        requires
            index < self@.images.len(),
        ensures
            l == self@.images[index as int],
    {
        self.images[index]
    }

    /// The drawable of text layer `index`, `None` while nothing has been
    /// rasterized for it.
    pub fn text_drawable(&self, index: usize) -> (l: Option<ImageLayer>)
        requires
            index < self@.texts.len(),
        ensures
            l == self@.texts[index as int].layer,
    {
        self.texts[index].layer
    }

    /// The fixed anchor of text layer `index`.
    pub fn text_anchor(&self, index: usize) -> (a: (i32, i32))
        requires
            index < self@.texts.len(),
        ensures
            a.0 as int == self@.texts[index as int].x,
            a.1 as int == self@.texts[index as int].y,
    {
        (self.texts[index].x, self.texts[index].y)
    }
}

} // verus!
