//! The editing session: overlay state machine and command dispatch.
//!
//! A [`Session`] bundles the canvas, the live cursor/store state, and the
//! overlay state. [`menu`] starts a session for a canvas; [`Session::step`]
//! consumes one command and returns the [`Request`] the surrounding
//! program must carry out — quit, redraw the canvas, or perform one of the
//! four file actions. The loop around it — reading keys, drawing cells,
//! touching files — lives outside this crate.
//!
//! Overlays are mutually exclusive: opening one while the other is open
//! closes the other (with a redraw to clear its artifacts) and opens the
//! requested one. Quit closes an open overlay instead of exiting; the
//! program only exits on quit from the plain canvas.

use vstd::prelude::*;
use crate::canvas::Canvas;
use crate::cursor::{Direction, Runtime, spec_move_op, spec_moved, spec_effective, spec_erase};
use crate::input::{KEY, spec_color_code_of_key, color_code_of_key};
use crate::palette::{Color, spec_color_for_code};

verus! {

/// Which overlay is open, if any.
#[derive(Clone, Copy, PartialEq, Eq, Structural, Debug)]
pub enum Overlay {
    Normal,
    HelpOpen,
    FileMenuOpen,
}

/// The overlay state of the session.
#[derive(Clone, Copy, PartialEq, Eq, Structural, Debug)]
pub struct State {
    pub overlay: Overlay,
}

/// Scratch state for the file menu: the save-file bytes most recently read
/// by the surrounding program, waiting to be imported.
pub struct FileMenu {
    pub file_content: Vec<u8>,
}

impl FileMenu {
    /// No file content read yet.
    pub fn new() -> (m: FileMenu)
        ensures
            m.file_content@.len() == 0,
    {
        FileMenu { file_content: Vec::new() }
    }
}

/// One of the four file-menu actions.
#[derive(Clone, Copy, PartialEq, Eq, Structural, Debug)]
pub enum FileAction {
    LoadText,
    SaveText,
    LoadImage,
    SaveImage,
}

/// What the surrounding program must do after a step: nothing beyond
/// re-rendering from the session (`Continue`), a full canvas redraw after an
/// overlay closed (`Redraw`), exit (`Quit`), or one of the file actions.
#[derive(Clone, Copy, PartialEq, Eq, Structural, Debug)]
pub enum Request {
    Continue,
    Redraw,
    Quit,
    LoadText,
    SaveText,
    LoadImage,
    SaveImage,
}

/// The overlay after the help command: help toggles shut, anything else
/// gives way to help.
pub open spec fn spec_toggle_help(o: Overlay) -> Overlay {
    if o == Overlay::HelpOpen {
        Overlay::Normal
    } else {
        Overlay::HelpOpen
    }
}

/// The overlay after the file-menu command: the menu toggles shut, anything
/// else gives way to the menu.
pub open spec fn spec_toggle_file(o: Overlay) -> Overlay {
    if o == Overlay::FileMenuOpen {
        Overlay::Normal
    } else {
        Overlay::FileMenuOpen
    }
}

impl State {
    /// Open or close the help overlay. Reports whether the canvas needs a
    /// redraw: it does exactly when some overlay was open before.
    pub fn open_help(&mut self) -> (needs_redraw: bool)
        ensures
            final(self).overlay == spec_toggle_help(old(self).overlay),
            needs_redraw == (old(self).overlay != Overlay::Normal),
    {
        match self.overlay {
            Overlay::HelpOpen => {
                self.overlay = Overlay::Normal;
                true
            },
            Overlay::Normal => {
                self.overlay = Overlay::HelpOpen;
                false
            },
            Overlay::FileMenuOpen => {
                self.overlay = Overlay::HelpOpen;
                true
            },
        }
    }

    /// Open or close the file menu. Reports whether the canvas needs a
    /// redraw: it does exactly when some overlay was open before.
    pub fn open_file_menu(&mut self) -> (needs_redraw: bool)
        ensures
            final(self).overlay == spec_toggle_file(old(self).overlay),
            needs_redraw == (old(self).overlay != Overlay::Normal),
    {
        match self.overlay {
            Overlay::FileMenuOpen => {
                self.overlay = Overlay::Normal;
                true
            },
            Overlay::Normal => {
                self.overlay = Overlay::FileMenuOpen;
                false
            },
            Overlay::HelpOpen => {
                self.overlay = Overlay::FileMenuOpen;
                true
            },
        }
    }

    /// The quit command: an open overlay closes instead of exiting; only
    /// from the plain canvas does the session end.
    pub fn close_or_quit(&mut self) -> (quit: bool)
        ensures
            quit == (old(self).overlay == Overlay::Normal),
            final(self).overlay == Overlay::Normal,
    {
        match self.overlay {
            Overlay::Normal => true,
            _ => {
                self.overlay = Overlay::Normal;
                false
            },
        }
    }
}

/// Which file-menu row, if any, the cursor selects. The rows sit at fixed
/// offsets above the bottom of the canvas, each with its own horizontal
/// extent — the hit boxes of the four menu lines as they are drawn.
pub open spec fn spec_file_menu_hit(x: u16, y: u16, c: Canvas) -> Option<FileAction> {
    if 23 <= x && x <= 40 && y as int + 9 == c.height as int {
        Some(FileAction::LoadText)
    } else if 26 <= x && x <= 40 && y as int + 8 == c.height as int {
        Some(FileAction::SaveText)
    } else if 22 <= x && x <= 40 && y as int + 7 == c.height as int {
        Some(FileAction::LoadImage)
    } else if 28 <= x && x <= 40 && y as int + 6 == c.height as int {
        Some(FileAction::SaveImage)
    } else {
        None
    }
}

/// Executable counterpart of [`spec_file_menu_hit`].
pub fn file_menu_hit(x: u16, y: u16, c: &Canvas) -> (r: Option<FileAction>)
    ensures
        r == spec_file_menu_hit(x, y, *c),
{
    let yy = y as u32;
    let h = c.height as u32;
    if 23 <= x && x <= 40 && yy + 9 == h {
        Some(FileAction::LoadText)
    } else if 26 <= x && x <= 40 && yy + 8 == h {
        Some(FileAction::SaveText)
    } else if 22 <= x && x <= 40 && yy + 7 == h {
        Some(FileAction::LoadImage)
    } else if 28 <= x && x <= 40 && yy + 6 == h {
        Some(FileAction::SaveImage)
    } else {
        None
    }
}

/// The request a file action maps to.
pub open spec fn spec_action_request(a: Option<FileAction>) -> Request {
    match a {
        Some(FileAction::LoadText) => Request::LoadText,
        Some(FileAction::SaveText) => Request::SaveText,
        Some(FileAction::LoadImage) => Request::LoadImage,
        Some(FileAction::SaveImage) => Request::SaveImage,
        None => Request::Continue,
    }
}

/// A whole editing session: the canvas snapshot, the live cursor and store,
/// and the overlay state.
pub struct Session {
    pub canvas: Canvas,
    pub runtime: Runtime,
    pub state: State,
}

/// The initial cursor coordinate for a canvas extent: five elevenths of it,
/// the deliberately off-center default.
pub open spec fn spec_initial_pos(extent: u16) -> u16 {
    ((extent as int) * 5 / 11) as u16
}

/// Five elevenths of a canvas extent stays strictly inside it, and for the
/// height leaves the two reserved bottom rows free.
proof fn lemma_initial_pos_bounds(extent: u16)
    requires
        extent >= 1,
    ensures
        (spec_initial_pos(extent) as int) < extent as int,
        extent >= 4 ==> (spec_initial_pos(extent) as int) + 2 < extent as int,
{
    let e = extent as int;
    let q = e * 5 / 11;
    vstd::arithmetic::div_mod::lemma_fundamental_div_mod(e * 5, 11);
    let r = (e * 5) % 11;
    assert(e * 5 == 11 * q + r);
    assert(0 <= r < 11);
    assert(q < e);
    if extent >= 6 {
        assert(11 * q == e * 5 - r);
        assert(q + 3 <= e);
    } else if extent == 4 {
        assert(4 * 5 / 11 == 1);
    } else if extent == 5 {
        assert(5 * 5 / 11 == 2);
    }
}

/// One step of the session: what holds of the state after a command and of
/// the request handed back. This is the exact contract of [`Session::step`],
/// case by case over the command.
pub open spec fn spec_step(pre: Session, post: Session, key: KEY, r: Request) -> bool {
    match key {
        KEY::W => post == (Session {
            runtime: spec_move_op(pre.runtime, Direction::Up, pre.canvas),
            ..pre
        }) && r == Request::Continue,
        KEY::S => post == (Session {
            runtime: spec_move_op(pre.runtime, Direction::Down, pre.canvas),
            ..pre
        }) && r == Request::Continue,
        KEY::A => post == (Session {
            runtime: spec_move_op(pre.runtime, Direction::Left, pre.canvas),
            ..pre
        }) && r == Request::Continue,
        KEY::D => post == (Session {
            runtime: spec_move_op(pre.runtime, Direction::Right, pre.canvas),
            ..pre
        }) && r == Request::Continue,
        KEY::HELP => post == (Session {
            state: State { overlay: spec_toggle_help(pre.state.overlay) },
            ..pre
        }) && r == (if pre.state.overlay != Overlay::Normal {
            Request::Redraw
        } else {
            Request::Continue
        }),
        KEY::FILE => post == (Session {
            state: State { overlay: spec_toggle_file(pre.state.overlay) },
            ..pre
        }) && r == (if pre.state.overlay != Overlay::Normal {
            Request::Redraw
        } else {
            Request::Continue
        }),
        KEY::QUIT => if pre.state.overlay == Overlay::Normal {
            post == pre && r == Request::Quit
        } else {
            post == (Session { state: State { overlay: Overlay::Normal }, ..pre })
                && r == Request::Redraw
        },
        KEY::PLACE => if pre.state.overlay == Overlay::FileMenuOpen {
            post == pre && r == spec_action_request(
                spec_file_menu_hit(pre.runtime.cursor_x, pre.runtime.cursor_y, pre.canvas),
            )
        } else {
            {
                let placed_rt = Runtime {
                    placed: post.runtime.placed,
                    ..pre.runtime
                };
                &&& post.runtime.placed@ == pre.runtime.placed@.insert(
                    (pre.runtime.cursor_x as u32, pre.runtime.cursor_y as u32),
                    pre.runtime.color,
                )
                &&& post == (Session {
                    runtime: spec_moved(
                        placed_rt,
                        spec_effective(pre.runtime.last_pressed_key),
                        pre.canvas,
                    ),
                    ..pre
                })
                &&& r == Request::Continue
            }
        },
        KEY::ERASE => {
            let placed_rt = Runtime { placed: post.runtime.placed, ..pre.runtime };
            &&& post.runtime.placed@ == spec_erase(
                pre.runtime.placed@,
                pre.runtime.cursor_x as u32,
                pre.runtime.cursor_y as u32,
            )
            &&& post == (Session {
                runtime: spec_moved(
                    placed_rt,
                    spec_effective(pre.runtime.last_pressed_key),
                    pre.canvas,
                ),
                ..pre
            })
            &&& r == Request::Continue
        },
        _ => match spec_color_code_of_key(key) {
            Some(code) => post == (Session {
                runtime: Runtime {
                    color: spec_color_for_code(code),
                    ..pre.runtime
                },
                ..pre
            }) && r == Request::Continue,
            None => post == pre && r == Request::Continue,
        },
    }
}

impl Session {
    /// The canvas is workable and the cursor and store are well-formed on
    /// it.
    pub open spec fn wf(self) -> bool {
        self.runtime.wf(self.canvas)
    }

    /// Process one command: move, paint, toggle an overlay, select a color,
    /// or quit. Returns the request the surrounding program must carry out.
    pub fn step(&mut self, key: KEY) -> (r: Request)
        requires
            old(self).wf(),
        ensures
            final(self).wf(),
            spec_step(*old(self), *final(self), key, r),
    {
        match key {
            KEY::W => {
                self.runtime.move_up(&self.canvas);
                Request::Continue
            },
            KEY::S => {
                self.runtime.move_down(&self.canvas);
                Request::Continue
            },
            KEY::A => {
                self.runtime.move_left(&self.canvas);
                Request::Continue
            },
            KEY::D => {
                self.runtime.move_right(&self.canvas);
                Request::Continue
            },
            KEY::HELP => {
                let needs_redraw = self.state.open_help();
                if needs_redraw {
                    Request::Redraw
                } else {
                    Request::Continue
                }
            },
            KEY::FILE => {
                let needs_redraw = self.state.open_file_menu();
                if needs_redraw {
                    Request::Redraw
                } else {
                    Request::Continue
                }
            },
            KEY::QUIT => {
                let quit = self.state.close_or_quit();
                if quit {
                    Request::Quit
                } else {
                    Request::Redraw
                }
            },
            KEY::PLACE => {
                if self.state.overlay == Overlay::FileMenuOpen {
                    let hit = file_menu_hit(self.runtime.cursor_x, self.runtime.cursor_y,
                        &self.canvas);
                    match hit {
                        Some(FileAction::LoadText) => Request::LoadText,
                        Some(FileAction::SaveText) => Request::SaveText,
                        Some(FileAction::LoadImage) => Request::LoadImage,
                        Some(FileAction::SaveImage) => Request::SaveImage,
                        None => Request::Continue,
                    }
                } else {
                    self.runtime.place_blok();
                    self.runtime.move_cursor_blkey(&self.canvas);
                    Request::Continue
                }
            },
            KEY::ERASE => {
                self.runtime.erase();
                self.runtime.move_cursor_blkey(&self.canvas);
                Request::Continue
            },
            _ => {
                match color_code_of_key(key) {
                    Some(code) => {
                        self.runtime.select_color(code);
                        Request::Continue
                    },
                    None => Request::Continue,
                }
            },
        }
    }
}

/// Start an editing session on a canvas of the given size: an empty store,
/// the cursor at the off-center default position, green as the pending
/// color, no overlay open. The canvas must be workable — at least one
/// column, and four rows for the wrap margin.
pub fn menu(width: u16, height: u16) -> (s: Session)
    requires
        width >= 1,
        height >= 4,
    ensures
        s.wf(),
        s.canvas == (Canvas { width, height }),
        s.runtime.cursor_x == spec_initial_pos(width),
        s.runtime.cursor_y == spec_initial_pos(height),
        s.runtime.cursor_color == Color::Black,
        s.runtime.color == Color::Green,
        s.runtime.last_pressed_key == Direction::Unset,
        s.runtime.placed@ == Map::<(u32, u32), Color>::empty(),
        s.runtime.placed.entries@.len() == 0,
        s.state.overlay == Overlay::Normal,
{
    proof {
        lemma_initial_pos_bounds(width);
        lemma_initial_pos_bounds(height);
    }
    let cursor_x = ((width as u32) * 5 / 11) as u16;
    let cursor_y = ((height as u32) * 5 / 11) as u16;
    Session {
        canvas: Canvas::new(width, height),
        runtime: Runtime {
            cursor_x,
            cursor_y,
            cursor_color: Color::Black,
            color: Color::Green,
            last_pressed_key: Direction::Unset,
            placed: crate::store::PlacedStore::new(),
        },
        state: State { overlay: Overlay::Normal },
    }
}

/// Law: opening the help overlay twice from the plain canvas returns to the
/// plain canvas with the whole session — placed cells, cursor, colors —
/// exactly as before, and the second toggle asks for the canvas redraw that
/// restores the display from those unchanged cells.
pub proof fn lemma_help_toggle(s0: Session, s1: Session, s2: Session, r1: Request, r2: Request)
    requires
        s0.state.overlay == Overlay::Normal,
        spec_step(s0, s1, KEY::HELP, r1),
        spec_step(s1, s2, KEY::HELP, r2),
    ensures
        s2 == s0,
        s2.state.overlay == Overlay::Normal,
        s2.runtime.placed@ == s0.runtime.placed@,
        r1 == Request::Continue,
        r2 == Request::Redraw,
{
}

} // verus!
