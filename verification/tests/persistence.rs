use gvpaint::codec::{export_text, import_text, LoadError};
use gvpaint::palette::Color;
use gvpaint::raster::{import_raster, raster_of};
use gvpaint::store::PlacedStore;

#[test]
fn export_writes_one_line_per_entry_in_order() {
    let mut store = PlacedStore::new();
    store.insert(1, 0, Color::Blue);
    store.insert(0, 0, Color::Red);
    let bytes = export_text(&store);
    assert_eq!(bytes, b"0 0 5\n1 0 2\n".to_vec());
}

#[test]
fn export_of_empty_store_is_empty() {
    let store = PlacedStore::new();
    assert_eq!(export_text(&store), Vec::<u8>::new());
}

#[test]
fn scenario_b_save_and_reload_restores_the_store() {
    let mut store = PlacedStore::new();
    store.insert(0, 0, Color::Red);
    store.insert(1, 0, Color::Blue);
    let bytes = export_text(&store);
    let mut fresh = PlacedStore::new();
    assert_eq!(import_text(&mut fresh, &bytes), Ok(()));
    assert_eq!(fresh.len(), 2);
    assert_eq!(fresh.get(0, 0), Some(Color::Red));
    assert_eq!(fresh.get(1, 0), Some(Color::Blue));
    assert_eq!(fresh.all(), store.all());
}

#[test]
fn scenario_c_incomplete_triple_fails_and_leaves_the_store_empty() {
    let mut store = PlacedStore::new();
    let r = import_text(&mut store, b"1 2");
    assert_eq!(r, Err(LoadError::Malformed));
    assert_eq!(store.len(), 0);
}

#[test]
fn import_accepts_any_whitespace_between_tokens() {
    let mut store = PlacedStore::new();
    let r = import_text(&mut store, b"  0 0 5\n\n 1\t0  2 \r\n");
    assert_eq!(r, Ok(()));
    assert_eq!(store.len(), 2);
    assert_eq!(store.get(0, 0), Some(Color::Red));
    assert_eq!(store.get(1, 0), Some(Color::Blue));
}

#[test]
fn empty_or_blank_content_is_no_painting() {
    let mut store = PlacedStore::new();
    assert_eq!(import_text(&mut store, b""), Err(LoadError::NoPainting));
    assert_eq!(import_text(&mut store, b"  \n \t"), Err(LoadError::NoPainting));
    assert_eq!(import_text(&mut store, b" "), Err(LoadError::NoPainting));
    assert_eq!(store.len(), 0);
}

#[test]
fn non_integer_tokens_are_malformed() {
    let mut store = PlacedStore::new();
    assert_eq!(import_text(&mut store, b"1 2 x"), Err(LoadError::Malformed));
    assert_eq!(import_text(&mut store, b"1 -2 3"), Err(LoadError::Malformed));
    assert_eq!(import_text(&mut store, b"1 2 3.5"), Err(LoadError::Malformed));
    assert_eq!(store.len(), 0);
}

#[test]
fn out_of_range_numbers_are_malformed() {
    let mut store = PlacedStore::new();
    assert_eq!(import_text(&mut store, b"0 0 4294967296"), Err(LoadError::Malformed));
    assert_eq!(import_text(&mut store, b"0 0 99999999999999999999"), Err(LoadError::Malformed));
    // The largest coordinate value still parses; its unknown palette code
    // resolves to the background.
    assert_eq!(import_text(&mut store, b"0 0 4294967295"), Ok(()));
    assert_eq!(store.get(0, 0), Some(Color::White));
}

#[test]
fn a_failed_import_never_partially_applies() {
    let mut store = PlacedStore::new();
    store.insert(9, 9, Color::Yellow);
    let before = store.all();
    assert_eq!(import_text(&mut store, b"1 1 5 2 2"), Err(LoadError::Malformed));
    assert_eq!(store.all(), before);
}

#[test]
fn import_applies_triples_in_order_last_write_wins() {
    let mut store = PlacedStore::new();
    assert_eq!(import_text(&mut store, b"0 0 5 0 0 2"), Ok(()));
    assert_eq!(store.len(), 1);
    assert_eq!(store.get(0, 0), Some(Color::Blue));
}

#[test]
fn import_adds_to_an_existing_painting() {
    let mut store = PlacedStore::new();
    store.insert(9, 9, Color::Yellow);
    assert_eq!(import_text(&mut store, b"0 0 5"), Ok(()));
    assert_eq!(store.len(), 2);
    assert_eq!(store.get(9, 9), Some(Color::Yellow));
    assert_eq!(store.get(0, 0), Some(Color::Red));
}

#[test]
fn off_palette_colors_export_lossily_as_background() {
    let mut store = PlacedStore::new();
    store.insert(0, 0, Color::DarkRed);
    let bytes = export_text(&store);
    assert_eq!(bytes, b"0 0 0\n".to_vec());
    let mut fresh = PlacedStore::new();
    assert_eq!(import_text(&mut fresh, &bytes), Ok(()));
    assert_eq!(fresh.get(0, 0), Some(Color::White));
}

#[test]
fn raster_export_paints_placed_cells_on_black() {
    let mut store = PlacedStore::new();
    store.insert(0, 0, Color::Red);
    store.insert(1, 1, Color::Blue);
    let bytes = raster_of(&store, 2, 2);
    assert_eq!(bytes, vec![255, 0, 0, 0, 0, 0, 0, 0, 0, 0, 0, 255]);
}

#[test]
fn raster_import_places_every_pixel_as_true_color() {
    let mut store = PlacedStore::new();
    store.insert(0, 0, Color::Red);
    store.insert(1, 1, Color::Blue);
    let bytes = raster_of(&store, 2, 2);
    let mut fresh = PlacedStore::new();
    import_raster(&mut fresh, &bytes, 2, 2);
    // The whole grid is imported: unpainted cells come back as explicit
    // black pixels — the documented loss of the raster round trip.
    assert_eq!(fresh.len(), 4);
    assert_eq!(fresh.get(0, 0), Some(Color::Rgb { r: 255, g: 0, b: 0 }));
    assert_eq!(fresh.get(1, 0), Some(Color::Rgb { r: 0, g: 0, b: 0 }));
    assert_eq!(fresh.get(0, 1), Some(Color::Rgb { r: 0, g: 0, b: 0 }));
    assert_eq!(fresh.get(1, 1), Some(Color::Rgb { r: 0, g: 0, b: 255 }));
}

#[test]
fn raster_import_keeps_entries_outside_the_grid() {
    let mut store = PlacedStore::new();
    store.insert(5, 5, Color::Red);
    let blank = vec![0u8; 12];
    import_raster(&mut store, &blank, 2, 2);
    assert_eq!(store.len(), 5);
    assert_eq!(store.get(5, 5), Some(Color::Red));
    assert_eq!(store.get(0, 0), Some(Color::Rgb { r: 0, g: 0, b: 0 }));
}
