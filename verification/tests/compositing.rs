//! Tests of the compositing plan and of clipboard-image decoding.

use image_editor::compositor::{composite, DrawCmd};
use image_editor::decode::decode_pasted_image;
use image_editor::geometry::Rect;
use image_editor::state::EditorState;
use image_editor::store::{Drawable, LayerStore};
use std::io::Cursor;

fn cmd(id: u64, x: i64, y: i64, w: u32, h: u32) -> DrawCmd {
    DrawCmd {
        drawable_id: id,
        src: Rect { x: 0, y: 0, w, h },
        dst: Rect { x, y, w, h },
    }
}

#[test]
fn empty_store_draws_nothing() {
    let store = LayerStore::new();
    assert_eq!(composite(&store), Vec::new());
}

#[test]
fn paint_order_is_images_then_texts_in_insertion_order() {
    let mut st = EditorState::new();
    let mut store = LayerStore::new();
    // Two text layers first, to show they still paint after the images.
    st.on_pointer_motion(&mut store, 1, 2, false);
    st.on_text_commit(&mut store, "t");
    store.set_text_drawable(0, Some(Drawable { id: 10, width: 8, height: 3 }));
    store.begin_text_layer(4, 5);
    store.begin_text_layer(6, 7);
    store.set_text_drawable(2, Some(Drawable { id: 12, width: 9, height: 4 }));
    // Then two image layers.
    st.on_pointer_motion(&mut store, 30, 40, false);
    st.apply_paste(&mut store, Some(Drawable { id: 20, width: 50, height: 60 }));
    st.on_pointer_motion(&mut store, -5, 9, false);
    st.apply_paste(&mut store, Some(Drawable { id: 21, width: 7, height: 7 }));

    let plan = composite(&store);
    // Images in insertion order, then text layers with a drawable in
    // insertion order; the drawable-less text layer is skipped.
    assert_eq!(
        plan,
        vec![
            cmd(20, 30, 40, 50, 60),
            cmd(21, -5, 9, 7, 7),
            cmd(10, 1, 2, 8, 3),
            cmd(12, 6, 7, 9, 4),
        ]
    );
    // Re-entrant: compositing reads the store only, so it repeats exactly.
    assert_eq!(composite(&store), plan);
}

#[test]
fn draw_call_maps_full_source_extent() {
    let mut st = EditorState::new();
    let mut store = LayerStore::new();
    st.on_pointer_motion(&mut store, 10, 10, false);
    st.apply_paste(&mut store, Some(Drawable { id: 1, width: 50, height: 50 }));
    st.on_pointer_down(&store, 30, 30, true);
    st.on_pointer_motion(&mut store, 90, 90, true);
    let plan = composite(&store);
    // After a drag the destination moved but the source extent is unchanged.
    assert_eq!(plan, vec![cmd(1, 70, 70, 50, 50)]);
}

#[test]
fn decode_of_missing_clipboard_is_none() {
    assert!(decode_pasted_image(&None).is_none());
}

#[test]
fn decode_of_malformed_bytes_is_none() {
    assert!(decode_pasted_image(&Some(vec![1, 2, 3, 4])).is_none());
    assert!(decode_pasted_image(&Some(Vec::new())).is_none());
}

#[test]
fn decode_of_png_yields_rgba_pixels() {
    // Encode a 2x1 RGBA image with the same codec the editor decodes with.
    let mut img = image::RgbaImage::new(2, 1);
    img.put_pixel(0, 0, image::Rgba([10, 20, 30, 255]));
    img.put_pixel(1, 0, image::Rgba([40, 50, 60, 128]));
    let mut png: Vec<u8> = Vec::new();
    img.write_to(&mut Cursor::new(&mut png), image::ImageFormat::Png)
        .expect("png encode");

    let pixels = decode_pasted_image(&Some(png)).expect("decodes");
    assert_eq!((pixels.width, pixels.height), (2, 1));
    assert_eq!(pixels.data, vec![10, 20, 30, 255, 40, 50, 60, 128]);
}

#[test]
fn paste_of_decoded_pixels_sizes_layer_from_image() {
    let mut img = image::RgbaImage::new(3, 2);
    img.put_pixel(2, 1, image::Rgba([1, 2, 3, 4]));
    let mut png: Vec<u8> = Vec::new();
    img.write_to(&mut Cursor::new(&mut png), image::ImageFormat::Png)
        .expect("png encode");
    let pixels = decode_pasted_image(&Some(png)).expect("decodes");
    let drawable = Drawable::new(0, pixels.width, pixels.height).expect("extent fits");

    let mut st = EditorState::new();
    let mut store = LayerStore::new();
    st.on_pointer_motion(&mut store, 10, 10, false);
    st.apply_paste(&mut store, Some(drawable));
    let layer = store.image_layer(0);
    assert_eq!((layer.rect.x, layer.rect.y), (10, 10));
    assert_eq!((layer.rect.w, layer.rect.h), (3, 2));
}
