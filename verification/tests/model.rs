use gvpaint::canvas::Canvas;
use gvpaint::cursor::{Direction, Runtime};
use gvpaint::input::KEY;
use gvpaint::palette::Color;
use gvpaint::session::{menu, Overlay, Request};
use gvpaint::store::{Entry, PlacedStore};

fn runtime_at(x: u16, y: u16) -> Runtime {
    Runtime {
        cursor_x: x,
        cursor_y: y,
        cursor_color: Color::Black,
        color: Color::Green,
        last_pressed_key: Direction::Unset,
        placed: PlacedStore::new(),
    }
}

#[test]
fn store_keeps_last_write_per_coordinate() {
    let mut store = PlacedStore::new();
    store.insert(3, 4, Color::Red);
    store.insert(3, 4, Color::Blue);
    assert_eq!(store.len(), 1);
    assert_eq!(store.get(3, 4), Some(Color::Blue));
    assert_eq!(store.get(4, 3), None);
}

#[test]
fn store_orders_entries_by_x_then_y() {
    let mut store = PlacedStore::new();
    store.insert(2, 1, Color::Red);
    store.insert(1, 5, Color::Blue);
    store.insert(1, 2, Color::Green);
    store.insert(2, 0, Color::Cyan);
    let all = store.all();
    let coords: Vec<(u32, u32)> = all.iter().map(|e| (e.x, e.y)).collect();
    assert_eq!(coords, vec![(1, 2), (1, 5), (2, 0), (2, 1)]);
    assert_eq!(store.entry_at(0), Entry { x: 1, y: 2, color: Color::Green });
}

#[test]
fn moves_update_position_and_record_direction() {
    let canvas = Canvas::new(80, 24);
    let mut rt = runtime_at(10, 10);
    rt.move_right(&canvas);
    assert_eq!((rt.cursor_x, rt.cursor_y), (11, 10));
    assert!(matches!(rt.last_pressed_key, Direction::Right));
    rt.move_up(&canvas);
    assert_eq!((rt.cursor_x, rt.cursor_y), (11, 9));
    rt.move_left(&canvas);
    rt.move_down(&canvas);
    assert_eq!((rt.cursor_x, rt.cursor_y), (10, 10));
}

#[test]
fn moves_stop_at_the_edges() {
    let canvas = Canvas::new(3, 8);
    let mut rt = runtime_at(0, 0);
    rt.move_left(&canvas);
    assert_eq!(rt.cursor_x, 0);
    rt.move_up(&canvas);
    assert_eq!(rt.cursor_y, 0);
    let mut rt = runtime_at(2, 0);
    rt.move_right(&canvas);
    assert_eq!(rt.cursor_x, 2);
}

#[test]
fn scenario_d_wrap_lands_two_rows_above_the_boundary() {
    let canvas = Canvas::new(80, 24);
    // One row above the wrap boundary: height - 3.
    let mut rt = runtime_at(10, 21);
    rt.move_down(&canvas);
    // The move reaches height - 2 and wraps to height - 4, not height - 2.
    assert_eq!(rt.cursor_y, 20);
}

#[test]
fn repeated_down_moves_stay_off_the_reserved_rows() {
    let canvas = Canvas::new(80, 24);
    let mut rt = runtime_at(10, 10);
    let mut i = 0;
    while i < 100 {
        rt.move_down(&canvas);
        assert!(rt.cursor_y < 24 - 1);
        assert!(rt.cursor_y != 24 - 2);
        i += 1;
    }
}

#[test]
fn implicit_move_defaults_to_left() {
    let canvas = Canvas::new(80, 24);
    let mut rt = runtime_at(10, 10);
    rt.move_cursor_blkey(&canvas);
    assert_eq!((rt.cursor_x, rt.cursor_y), (9, 10));
    rt.move_down(&canvas);
    rt.move_cursor_blkey(&canvas);
    assert_eq!((rt.cursor_x, rt.cursor_y), (9, 12));
}

#[test]
fn erase_twice_equals_erase_once() {
    let mut rt = runtime_at(10, 10);
    rt.select_color(5);
    rt.place_blok();
    rt.erase();
    let once = rt.placed.all();
    assert_eq!(rt.placed.get(10, 10), Some(Color::White));
    rt.erase();
    let twice = rt.placed.all();
    assert_eq!(once, twice);
}

#[test]
fn a_vacated_cell_shows_its_color_or_the_background() {
    let mut store = PlacedStore::new();
    assert_eq!(store.shown_color(10, 10), Color::White);
    store.insert(10, 10, Color::Cyan);
    assert_eq!(store.shown_color(10, 10), Color::Cyan);
}

#[test]
fn erase_keeps_the_pending_color() {
    let mut rt = runtime_at(4, 4);
    rt.select_color(6);
    rt.erase();
    assert_eq!(rt.color, Color::Magenta);
}

#[test]
fn menu_starts_an_off_center_empty_session() {
    let s = menu(80, 24);
    assert_eq!((s.canvas.width, s.canvas.height), (80, 24));
    assert_eq!((s.runtime.cursor_x, s.runtime.cursor_y), (36, 10));
    assert_eq!(s.runtime.color, Color::Green);
    assert_eq!(s.runtime.cursor_color, Color::Black);
    assert_eq!(s.runtime.placed.len(), 0);
    assert!(matches!(s.state.overlay, Overlay::Normal));
}

#[test]
fn scenario_a_place_move_right_place() {
    let s = menu(80, 24);
    let (x0, y0) = (s.runtime.cursor_x, s.runtime.cursor_y);
    let canvas = s.canvas;
    let mut rt = s.runtime;
    rt.select_color(5);
    rt.place_blok();
    rt.move_right(&canvas);
    rt.select_color(3);
    rt.place_blok();
    assert_eq!(rt.placed.len(), 2);
    assert_eq!(rt.placed.get(x0 as u32, y0 as u32), Some(Color::Red));
    assert_eq!(rt.placed.get(x0 as u32 + 1, y0 as u32), Some(Color::Green));
}

#[test]
fn help_toggles_back_to_an_unchanged_canvas() {
    let mut s = menu(80, 24);
    s.step(KEY::C5);
    s.step(KEY::PLACE);
    let placed_before = s.runtime.placed.all();
    let pos_before = (s.runtime.cursor_x, s.runtime.cursor_y);
    let r1 = s.step(KEY::HELP);
    assert!(matches!(r1, Request::Continue));
    assert!(matches!(s.state.overlay, Overlay::HelpOpen));
    let r2 = s.step(KEY::HELP);
    assert!(matches!(r2, Request::Redraw));
    assert!(matches!(s.state.overlay, Overlay::Normal));
    assert_eq!(s.runtime.placed.all(), placed_before);
    assert_eq!((s.runtime.cursor_x, s.runtime.cursor_y), pos_before);
}

#[test]
fn overlays_are_mutually_exclusive() {
    let mut s = menu(80, 24);
    s.step(KEY::FILE);
    assert!(matches!(s.state.overlay, Overlay::FileMenuOpen));
    let r = s.step(KEY::HELP);
    assert!(matches!(r, Request::Redraw));
    assert!(matches!(s.state.overlay, Overlay::HelpOpen));
}

#[test]
fn quit_closes_an_overlay_before_exiting() {
    let mut s = menu(80, 24);
    s.step(KEY::FILE);
    let r = s.step(KEY::QUIT);
    assert!(matches!(r, Request::Redraw));
    assert!(matches!(s.state.overlay, Overlay::Normal));
    let r = s.step(KEY::QUIT);
    assert!(matches!(r, Request::Quit));
}

#[test]
fn step_place_paints_and_continues_in_last_direction() {
    let mut s = menu(80, 24);
    let r = s.step(KEY::PLACE);
    assert!(matches!(r, Request::Continue));
    assert_eq!(s.runtime.placed.get(36, 10), Some(Color::Green));
    // No direction recorded yet: the cursor continues left.
    assert_eq!((s.runtime.cursor_x, s.runtime.cursor_y), (35, 10));
    s.step(KEY::D);
    s.step(KEY::C5);
    s.step(KEY::PLACE);
    assert_eq!(s.runtime.placed.get(36, 10), Some(Color::Red));
    assert_eq!(s.runtime.cursor_x, 37);
}

#[test]
fn step_erase_paints_background_and_moves() {
    let mut s = menu(80, 24);
    s.step(KEY::ERASE);
    assert_eq!(s.runtime.placed.get(36, 10), Some(Color::White));
    assert_eq!(s.runtime.cursor_x, 35);
    assert_eq!(s.runtime.color, Color::Green);
}

#[test]
fn file_menu_rows_select_their_actions() {
    let mut s = menu(80, 24);
    s.step(KEY::FILE);
    let placed_before = s.runtime.placed.len();
    s.runtime.cursor_x = 23;
    s.runtime.cursor_y = 24 - 9;
    assert!(matches!(s.step(KEY::PLACE), Request::LoadText));
    s.runtime.cursor_x = 26;
    s.runtime.cursor_y = 24 - 8;
    assert!(matches!(s.step(KEY::PLACE), Request::SaveText));
    s.runtime.cursor_x = 22;
    s.runtime.cursor_y = 24 - 7;
    assert!(matches!(s.step(KEY::PLACE), Request::LoadImage));
    s.runtime.cursor_x = 28;
    s.runtime.cursor_y = 24 - 6;
    assert!(matches!(s.step(KEY::PLACE), Request::SaveImage));
    // Off every row: nothing to do, and nothing was painted by any of these.
    s.runtime.cursor_x = 10;
    s.runtime.cursor_y = 5;
    assert!(matches!(s.step(KEY::PLACE), Request::Continue));
    assert_eq!(s.runtime.placed.len(), placed_before);
}

#[test]
fn digit_keys_select_the_pending_color() {
    let mut s = menu(80, 24);
    let r = s.step(KEY::C2);
    assert!(matches!(r, Request::Continue));
    assert_eq!(s.runtime.color, Color::Blue);
    s.step(KEY::C0);
    assert_eq!(s.runtime.color, Color::White);
    let r = s.step(KEY::NONE);
    assert!(matches!(r, Request::Continue));
    assert_eq!(s.runtime.color, Color::White);
}
