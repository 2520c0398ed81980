//! Tests of text entry: mode switching, accumulation, and re-rendering.

use image_editor::state::{EditorState, Mode};
use image_editor::store::{Drawable, LayerStore};

#[test]
fn trigger_opens_text_layer_at_pointer() {
    let mut st = EditorState::new();
    let mut store = LayerStore::new();
    st.on_pointer_motion(&mut store, 3, 4, false);
    let rerender = st.on_text_commit(&mut store, "t");
    assert_eq!(rerender, None);
    assert_eq!(st.mode, Mode::TextEntry);
    assert_eq!(st.active_text, Some(0));
    assert_eq!(store.text_count(), 1);
    assert_eq!(store.text_anchor(0), (3, 4));
    assert_eq!(store.text_of(0).as_str(), "");
    assert_eq!(store.text_drawable(0), None);
}

#[test]
fn other_fragment_in_normal_mode_does_nothing() {
    let mut st = EditorState::new();
    let mut store = LayerStore::new();
    let rerender = st.on_text_commit(&mut store, "x");
    assert_eq!(rerender, None);
    assert_eq!(st.mode, Mode::Normal);
    assert_eq!(store.text_count(), 0);
    let rerender = st.on_text_commit(&mut store, "tt");
    assert_eq!(rerender, None);
    assert_eq!(store.text_count(), 0);
}

#[test]
fn fragments_accumulate_and_ask_for_rerender() {
    let mut st = EditorState::new();
    let mut store = LayerStore::new();
    st.on_pointer_motion(&mut store, 3, 4, false);
    st.on_text_commit(&mut store, "t");
    assert_eq!(st.on_text_commit(&mut store, "he"), Some(0));
    assert_eq!(st.on_text_commit(&mut store, "y"), Some(0));
    assert_eq!(store.text_of(0).as_str(), "hey");
    // `t` appends like any other fragment once in text entry; no new layer.
    assert_eq!(st.on_text_commit(&mut store, "t"), Some(0));
    assert_eq!(store.text_of(0).as_str(), "heyt");
    assert_eq!(store.text_count(), 1);
    assert_eq!(st.mode, Mode::TextEntry);
}

#[test]
fn missing_active_layer_is_a_no_op() {
    let mut st = EditorState::new();
    let mut store = LayerStore::new();
    st.on_text_commit(&mut store, "t");
    st.active_text = None;
    assert_eq!(st.on_text_commit(&mut store, "a"), None);
    assert_eq!(store.text_of(0).as_str(), "");
    st.active_text = Some(9);
    assert_eq!(st.on_text_commit(&mut store, "a"), None);
    assert_eq!(store.text_of(0).as_str(), "");
}

#[test]
fn set_text_drawable_anchors_and_skips_degenerate() {
    let mut st = EditorState::new();
    let mut store = LayerStore::new();
    st.on_pointer_motion(&mut store, 7, 8, false);
    st.on_text_commit(&mut store, "t");
    st.on_text_commit(&mut store, "hi");
    store.set_text_drawable(0, Some(Drawable { id: 4, width: 30, height: 12 }));
    let layer = store.text_drawable(0).expect("drawable set");
    assert_eq!(layer.drawable.id, 4);
    assert_eq!((layer.rect.x, layer.rect.y), (7, 8));
    assert_eq!((layer.rect.w, layer.rect.h), (30, 12));
    // A zero-size rasterization leaves no drawable rather than a degenerate one.
    store.set_text_drawable(0, Some(Drawable { id: 5, width: 0, height: 12 }));
    assert_eq!(store.text_drawable(0), None);
    store.set_text_drawable(0, None);
    assert_eq!(store.text_drawable(0), None);
}

#[test]
fn split_appends_equal_single_append() {
    let mut st1 = EditorState::new();
    let mut s1 = LayerStore::new();
    st1.on_pointer_motion(&mut s1, 5, 6, false);
    st1.on_text_commit(&mut s1, "t");
    st1.on_text_commit(&mut s1, "a");
    st1.on_text_commit(&mut s1, "b");

    let mut st2 = EditorState::new();
    let mut s2 = LayerStore::new();
    st2.on_pointer_motion(&mut s2, 5, 6, false);
    st2.on_text_commit(&mut s2, "t");
    st2.on_text_commit(&mut s2, "ab");

    assert_eq!(s1.text_of(0), s2.text_of(0));
    // Rasterization is a pure function of the accumulated text, so both
    // paths upload the same buffer; handing that same drawable to both
    // leaves identical layers.
    let d = Drawable { id: 11, width: 40, height: 16 };
    s1.set_text_drawable(0, Some(d));
    s2.set_text_drawable(0, Some(d));
    assert_eq!(s1.text_drawable(0), s2.text_drawable(0));
    assert_eq!(s1.text_anchor(0), s2.text_anchor(0));
}
