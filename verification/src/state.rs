//! The interaction state machine: pointer tracking, selection and drag,
//! mode switching between free interaction and text entry, and paste.

use vstd::prelude::*;
use vstd::string::StrSliceExecFns;
use crate::geometry::Rect;
use crate::store::{
    Drawable, ImageLayer, LayerStore, TextModel, spec_append_text, spec_hit_test,
};

verus! {

/// The transient record of a drag: which image layer was grabbed and where
/// inside it, as `pointer - origin` at the moment of the grab. It exists only
/// between a pointer-down hit and the matching pointer-up.
#[derive(Clone, Copy, PartialEq, Eq, Structural, Debug)]
pub struct Selection {
    pub layer_index: usize,
    pub x_offset: i32,
    pub y_offset: i32,
}

impl Selection {
    /// Offsets come from a containment test, so they are never negative.
    pub open spec fn wf(self) -> bool {
        self.x_offset >= 0 && self.y_offset >= 0
    }
}

/// The input mode: free interaction, or appending to the active text layer.
#[derive(Clone, Copy, PartialEq, Eq, Structural, Debug)]
pub enum Mode {
    Normal,
    TextEntry,
}

/// The editor's interaction state: current pointer position, tracked window
/// size, the active selection if a drag is under way, the input mode, and
/// the text layer that text entry appends to.
#[derive(Clone, Copy, Debug)]
pub struct EditorState {
    pub mouse_x: i32,
    pub mouse_y: i32,
    pub width: i32,
    pub height: i32,
    pub selection: Option<Selection>,
    pub mode: Mode,
    pub active_text: Option<usize>,
}

/// The image layers after a pointer motion: when the primary button is held
/// and a selection names an existing layer, that layer's origin becomes
/// `pointer - offset`; otherwise nothing moves.
pub open spec fn spec_drag_images(
    images: Seq<ImageLayer>,
    sel: Option<Selection>,
    x: int,
    y: int,
    held: bool,
) -> Seq<ImageLayer> {
    match sel {
        Some(s) => if held && s.layer_index < images.len() {
            images.update(s.layer_index as int,
                ImageLayer {
                    drawable: images[s.layer_index as int].drawable,
                    rect: Rect {
                        x: (x - s.x_offset) as i64,
                        y: (y - s.y_offset) as i64,
                        w: images[s.layer_index as int].rect.w,
                        h: images[s.layer_index as int].rect.h,
                    },
                },
            )
        } else {
            images
        },
        None => images,
    }
}

/// The selection after a primary pointer-down at `(px, py)`: the topmost
/// image layer containing the point is grabbed with the offset of the point
/// inside it; when no layer contains the point, or the button is not the
/// primary one, the selection keeps its previous value.
pub open spec fn spec_selection_after_down(
    prev: Option<Selection>,
    images: Seq<ImageLayer>,
    px: int,
    py: int,
    left: bool,
) -> Option<Selection> {
    if left {
        match spec_hit_test(images, px, py) {
            Some(i) => Some(
                Selection {
                    layer_index: i as usize,
                    x_offset: (px - images[i].rect.x) as i32,
                    y_offset: (py - images[i].rect.y) as i32,
                },
            ),
            None => prev,
        }
    } else {
        prev
    }
}

/// The state after a pointer-up: a primary release drops the selection,
/// whether or not one was set; everything else is untouched.
pub open spec fn spec_pointer_up(s: EditorState, left: bool) -> EditorState {
    if left {
        EditorState { selection: None, ..s }
    } else {
        s
    }
}

/// The text-commit fragment that switches Normal mode into text entry.
pub open spec fn is_text_trigger(t: Seq<char>) -> bool {
    t.len() == 1 && t[0] == 't'
}

/// Law: a drag keeps the grab point fixed relative to the layer. Whatever
/// motions came in between, the layer's origin after the last motion to
/// `(x2, y2)` is `(x2 - offset, y2 - offset)`: applying a motion after any
/// earlier motion leaves exactly the layers the last motion alone leaves.
pub proof fn lemma_drag_preserves_grab_offset(
    images: Seq<ImageLayer>,
    sel: Selection,
    x1: int,
    y1: int,
    x2: int,
    y2: int,
)
    requires
        sel.wf(),
        sel.layer_index < images.len(),
        -0x8000_0000 <= x1 <= 0x7fff_ffff,
        -0x8000_0000 <= y1 <= 0x7fff_ffff,
        -0x8000_0000 <= x2 <= 0x7fff_ffff,
        -0x8000_0000 <= y2 <= 0x7fff_ffff,
    ensures
        spec_drag_images(spec_drag_images(images, Some(sel), x1, y1, true), Some(sel), x2, y2, true)
            == spec_drag_images(images, Some(sel), x2, y2, true),
        spec_drag_images(images, Some(sel), x2, y2, true)[sel.layer_index as int].rect.x == x2
            - sel.x_offset,
        spec_drag_images(images, Some(sel), x2, y2, true)[sel.layer_index as int].rect.y == y2
            - sel.y_offset,
{
    assert(spec_drag_images(spec_drag_images(images, Some(sel), x1, y1, true), Some(sel), x2, y2,
        true) =~= spec_drag_images(images, Some(sel), x2, y2, true));
}

/// Law: pointer-up always clears the selection, and doing it again changes
/// nothing (it is idempotent).
pub proof fn lemma_pointer_up_idempotent(s: EditorState)
    ensures
        spec_pointer_up(s, true).selection is None,
        spec_pointer_up(spec_pointer_up(s, true), true) == spec_pointer_up(s, true),
{
}

impl EditorState {
    pub open spec fn wf(self) -> bool {
        self.selection matches Some(s) ==> s.wf()
    }

    /// The startup state: pointer at the origin, zero window size, no
    /// selection, Normal mode, no active text layer.
    pub fn new() -> (s: EditorState)
        ensures
            s.mouse_x == 0,
            s.mouse_y == 0,
            s.width == 0,
            s.height == 0,
            s.selection is None,
            s.mode == Mode::Normal,
            s.active_text is None,
            s.wf(),
    {
        EditorState {
            mouse_x: 0,
            mouse_y: 0,
            width: 0,
            height: 0,
            selection: None,
            mode: Mode::Normal,
            active_text: None,
        }
    }

    /// Pointer motion: tracks the pointer, and, while the primary button is
    /// held and a selection names an existing image layer, drags that layer
    /// so the grab point stays under the pointer.
    pub fn on_pointer_motion(&mut self, store: &mut LayerStore, x: i32, y: i32, left_held: bool)
        requires
            old(self).wf(),
            old(store).wf(),
        ensures
            final(store)@.images == spec_drag_images(
                old(store)@.images,
                old(self).selection,
                x as int,
                y as int,
                left_held,
            ),
            final(store)@.texts == old(store)@.texts,
            *final(self) == (EditorState { mouse_x: x, mouse_y: y, ..*old(self) }),
            final(self).wf(),
            final(store).wf(),
    {
        self.mouse_x = x;
        self.mouse_y = y;
        if left_held {
            if let Some(sel) = self.selection {
                if sel.layer_index < store.image_count() {
                    let nx: i64 = x as i64 - sel.x_offset as i64;
                    let ny: i64 = y as i64 - sel.y_offset as i64;
                    store.set_image_origin(sel.layer_index, nx, ny);
                }
            }
        }
    }

    /// Primary pointer-down: tracks the pointer and grabs the topmost image
    /// layer under it, recording the pointer's offset inside the layer. A
    /// miss, or another button, leaves the selection as it was.
    pub fn on_pointer_down(&mut self, store: &LayerStore, x: i32, y: i32, left: bool)
        requires
            old(self).wf(),
            store.wf(),
        ensures
            final(self).selection == spec_selection_after_down(
                old(self).selection,
                store@.images,
                x as int,
                y as int,
                left,
            ),
            *final(self) == (EditorState {
                mouse_x: x,
                mouse_y: y,
                selection: final(self).selection,
                ..*old(self)
            }),
            final(self).wf(),
    {
        self.mouse_x = x;
        self.mouse_y = y;
        if left {
            match store.hit_test_image(x, y) {
                Some(i) => {
                    proof {
                        assert(store@.images[i as int].wf());
                    }
                    let layer = store.image_layer(i);
                    let x_offset: i32 = (x as i64 - layer.rect.x) as i32;
                    let y_offset: i32 = (y as i64 - layer.rect.y) as i32;
                    self.selection = Some(Selection { layer_index: i, x_offset, y_offset });
                },
                None => {},
            }
        }
    }

    /// Pointer-up: a primary release clears the selection unconditionally,
    /// even when none was set.
    pub fn on_pointer_up(&mut self, left: bool)
        requires
            old(self).wf(),
        ensures
            *final(self) == spec_pointer_up(*old(self), left),
            left ==> final(self).selection is None,
            final(self).wf(),
    {
        if left {
            self.selection = None;
        }
    }

    /// Window resize: records the new size; layers are not re-laid-out.
    pub fn on_resize(&mut self, w: i32, h: i32)
        requires
            old(self).wf(),
        ensures
            *final(self) == (EditorState { width: w, height: h, ..*old(self) }),
            final(self).wf(),
    {
        self.width = w;
        self.height = h;
    }

    /// Text commit. In Normal mode the single character `t` opens a new empty
    /// text layer anchored at the pointer, makes it active and enters text
    /// entry; any other fragment does nothing. In text entry every fragment
    /// is appended to the active layer's text, and the returned index asks
    /// the caller to re-rasterize that layer's accumulated text and hand the
    /// upload to `set_text_drawable`; nothing ever leaves text entry.
    pub fn on_text_commit(&mut self, store: &mut LayerStore, text: &str) -> (rerender: Option<
        usize,
    >)
        requires
            old(self).wf(),
            old(store).wf(),
        ensures
            old(self).mode == Mode::Normal && is_text_trigger(text@) ==> {
                &&& final(store)@.texts == old(store)@.texts.push(
                    (TextModel {
                        layer: None,
                        text: Seq::<char>::empty(),
                        x: old(self).mouse_x as int,
                        y: old(self).mouse_y as int,
                    }),
                )
                &&& final(store)@.images == old(store)@.images
                &&& *final(self) == (EditorState {
                    mode: Mode::TextEntry,
                    active_text: final(self).active_text,
                    ..*old(self)
                })
                &&& final(self).active_text matches Some(i) && i == old(store)@.texts.len()
                &&& rerender is None
            },
            old(self).mode == Mode::Normal && !is_text_trigger(text@) ==> {
                &&& final(store)@ == old(store)@
                &&& *final(self) == *old(self)
                &&& rerender is None
            },
            old(self).mode == Mode::TextEntry ==> {
                &&& *final(self) == *old(self)
                &&& match old(self).active_text {
                    Some(i) => if (i as int) < old(store)@.texts.len() {
                        &&& final(store)@ == spec_append_text(old(store)@, i as int, text@)
                        &&& rerender == Some(i)
                    } else {
                        &&& final(store)@ == old(store)@
                        &&& rerender is None
                    },
                    None => final(store)@ == old(store)@ && rerender is None,
                }
            },
            final(self).wf(),
            final(store).wf(),
    {
        match self.mode {
            Mode::Normal => {
                if text.unicode_len() == 1 && text.get_char(0) == 't' {
                    let idx = store.begin_text_layer(self.mouse_x, self.mouse_y);
                    self.active_text = Some(idx);
                    self.mode = Mode::TextEntry;
                }
                None
            },
            Mode::TextEntry => {
                match self.active_text {
                    Some(i) => {
                        if i < store.text_count() {
                            store.append_text(i, text);
                            Some(i)
                        } else {
                            None
                        }
                    },
                    None => None,
                }
            },
        }
    }

    /// Applies a paste: when the clipboard held an image that was decoded and
    /// uploaded, a layer for it is appended at the current pointer position;
    /// when it held none (`upload` is `None`), the store is left exactly as
    /// it was — a silent no-op, never an error.
    pub fn apply_paste(&self, store: &mut LayerStore, upload: Option<Drawable>)
        requires
            old(store).wf(),
            upload matches Some(d) ==> d.wf(),
        ensures
            upload is None ==> final(store)@ == old(store)@,
            upload matches Some(d) ==> {
                &&& final(store)@.images == old(store)@.images.push(
                    (ImageLayer {
                        drawable: d,
                        rect: Rect {
                            x: self.mouse_x as i64,
                            y: self.mouse_y as i64,
                            w: d.width,
                            h: d.height,
                        },
                    }),
                )
                &&& final(store)@.texts == old(store)@.texts
            },
            final(store).wf(),
    {
        if let Some(d) = upload {
            store.add_image_layer(d, self.mouse_x, self.mouse_y);
        }
    }
}

} // verus!
