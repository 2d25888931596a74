//! The controls of the game: what each key, click and tick of the clock does
//! to a session.
//!
//! Reading the keyboard, the mouse and the clock is left to the caller, who
//! hands over each event as an [`Input`].

use crate::board::{toggled, Board};
use crate::game::GameOfLife;
use crate::point::Point;
use crate::point_set::in_plane;
use crate::rules::next_generation;
use crate::widgets::{contains, Area};
use vstd::prelude::*;

verus! {

/// Whether the game runs.
#[derive(Debug, Clone, Copy, PartialEq, Eq, Structural)]
pub enum AppState {
    /// The board can be edited; the clock is ignored.
    Stopped,
    /// The game was running and is held.
    Paused,
    /// Each tick of the clock advances the board.
    Running,
}

impl Default for AppState {
    fn default() -> (state: AppState)
        ensures
            state == AppState::Stopped,
    {
        AppState::Stopped
    }
}

impl AppState {
    /// The state after the start and pause key: a running game is paused,
    /// any other is set running.
    pub open spec fn toggled(self) -> AppState {
        match self {
            AppState::Stopped => AppState::Running,
            AppState::Paused => AppState::Running,
            AppState::Running => AppState::Paused,
        }
    }

    /// Pauses a running game and sets any other running.
    pub fn toggle(&mut self)
        ensures
            *final(self) == old(self).toggled(),
    {
        match self {
            AppState::Stopped => *self = AppState::Running,
            AppState::Paused => *self = AppState::Running,
            AppState::Running => *self = AppState::Paused,
        }
    }
}

/// An event that the controls react to.
#[derive(Debug, Clone, Copy, PartialEq, Eq, Structural)]
pub enum Input {
    /// The key of the character `c` was pressed; `modified` tells whether a
    /// modifier key was held with it.
    Key { c: char, modified: bool },
    /// The left mouse button was released over the screen cell in the given
    /// column and row; `modified` tells whether a modifier key was held.
    Release { column: u16, row: u16, modified: bool },
    /// The clock of the game ticked.
    Tick,
    /// Anything else.
    Other,
}

/// A session together with what the controls need to know of the screen.
#[derive(Debug)]
pub struct App {
    pub game: GameOfLife,
    /// The cell of the board shown in the middle of `board_area`.
    pub origin: Point,
    pub state: AppState,
    /// Where the mouse was last seen.
    pub mouse: (u16, u16),
    /// The part of the screen that the board was last drawn into.
    pub board_area: Area,
    /// The board as it was when the game was last started from a stop.
    pub initial_board: Board,
}

impl Default for App {
    fn default() -> (app: App)
        ensures
            app.game.board@ == Set::<(int, int)>::empty(),
            app.game.generation == 0,
            app.origin == (Point { x: 0, y: 0 }),
            app.state == AppState::Stopped,
            app.mouse == (0u16, 0u16),
            app.board_area == (Area { x: 0, y: 0, width: 0, height: 0 }),
            app.initial_board@ == Set::<(int, int)>::empty(),
    {
        App {
            game: GameOfLife::default(),
            origin: Point::default(),
            state: AppState::default(),
            mouse: (0, 0),
            board_area: Area::default(),
            initial_board: Board::default(),
        }
    }
}

impl App {
    /// The cell of the board that is shown in the given column and row of the
    /// screen.
    pub open spec fn cell_shown_at(&self, column: u16, row: u16) -> (int, int) {
        (
            (column - self.board_area.x) - self.board_area.width / 2 + self.origin.x,
            (row - self.board_area.y) - self.board_area.height / 2 + self.origin.y,
        )
    }

    /// Whether `input` is a click that edits the board: an unmodified release
    /// over the board while the game is stopped.
    pub open spec fn edits(&self, input: Input) -> bool {
        &&& input matches Input::Release { column, row, modified }
        &&& !modified
        &&& self.state == AppState::Stopped
        &&& self.board_area.holds(column as int, row as int)
    }

    /// Whether the controls can react to `input`: a tick finds a running game
    /// ready for a step, and a click that edits the board hits a cell whose
    /// coordinates fit in an `i64`.
    pub open spec fn accepts(&self, input: Input) -> bool {
        match input {
            Input::Tick => self.state == AppState::Running ==> self.game.is_ready(),
            Input::Release { column, row, modified } => self.edits(input) ==> in_plane(
                self.cell_shown_at(column, row),
            ),
            _ => true,
        }
    }

    /// Whether the controls can react to `input`.
    pub fn can_accept(&self, input: Input) -> (ok: bool)
        ensures
            ok == self.accepts(input),
    {
        match input {
            Input::Tick => !matches!(self.state, AppState::Running) || self.game.can_step(),
            Input::Release { column, row, modified } => {
                if modified || !matches!(self.state, AppState::Stopped) {
                    return true;
                }
                match contains(self.board_area, column, row) {
                    Some((rel_x, rel_y)) => {
                        let x: i128 = rel_x as i128 - self.board_area.width as i128 / 2
                            + self.origin.x as i128;
                        let y: i128 = rel_y as i128 - self.board_area.height as i128 / 2
                            + self.origin.y as i128;
                        -0x8000_0000_0000_0000i128 <= x && x <= 0x7fff_ffff_ffff_ffffi128
                            && -0x8000_0000_0000_0000i128 <= y && y <= 0x7fff_ffff_ffff_ffffi128
                    },
                    None => true,
                }
            },
            _ => true,
        }
    }

    /// Reacts to `input`, and tells whether the program is to end.
    ///
    /// - The space key, with or without modifiers, pauses a running game and
    ///   sets any other running; a game started from a stop remembers its
    ///   board.
    /// - `r` stops the game and puts the remembered board back, at generation
    ///   0.
    /// - `q` ends the program.
    /// - `c` clears the board of a stopped game.
    /// - A click on the board of a stopped game flips the cell under it.
    /// - A tick advances a running game by one generation.
    ///
    /// The keys `r`, `q` and `c` and the click count only without modifiers.
    /// Anything else changes nothing.
    pub fn update(&mut self, input: Input) -> (exit: bool)
        requires
            old(self).accepts(input),
        ensures
            exit == (input == (Input::Key { c: 'q', modified: false })),
            final(self).origin == old(self).origin,
            final(self).mouse == old(self).mouse,
            final(self).board_area == old(self).board_area,
            match input {
                Input::Key { c: ' ', modified } => {
                    &&& final(self).state == old(self).state.toggled()
                    &&& final(self).game == old(self).game
                    &&& final(self).initial_board@ == if old(self).state == AppState::Stopped {
                        old(self).game.board@
                    } else {
                        old(self).initial_board@
                    }
                },
                Input::Key { c: 'r', modified: false } => {
                    &&& final(self).state == AppState::Stopped
                    &&& final(self).game.generation == 0
                    &&& final(self).game.board@ == old(self).initial_board@
                    &&& final(self).game.killed_cells == old(self).game.killed_cells
                    &&& final(self).game.birthed_cells == old(self).game.birthed_cells
                    &&& final(self).initial_board == old(self).initial_board
                },
                Input::Key { c: 'c', modified: false } => {
                    &&& final(self).state == old(self).state
                    &&& final(self).game.generation == old(self).game.generation
                    &&& final(self).game.board@ == if old(self).state == AppState::Stopped {
                        Set::<(int, int)>::empty()
                    } else {
                        old(self).game.board@
                    }
                    &&& final(self).game.killed_cells == old(self).game.killed_cells
                    &&& final(self).game.birthed_cells == old(self).game.birthed_cells
                    &&& final(self).initial_board == old(self).initial_board
                },
                Input::Release { column, row, modified } => {
                    &&& final(self).state == old(self).state
                    &&& final(self).game.generation == old(self).game.generation
                    &&& final(self).game.board@ == if old(self).edits(input) {
                        toggled(old(self).game.board@, old(self).cell_shown_at(column, row))
                    } else {
                        old(self).game.board@
                    }
                    &&& final(self).game.killed_cells == old(self).game.killed_cells
                    &&& final(self).game.birthed_cells == old(self).game.birthed_cells
                    &&& final(self).initial_board == old(self).initial_board
                },
                Input::Tick => {
                    &&& final(self).state == old(self).state
                    &&& final(self).initial_board == old(self).initial_board
                    &&& if old(self).state == AppState::Running {
                        &&& final(self).game.board@ == next_generation(old(self).game.board@)
                        &&& final(self).game.generation == old(self).game.generation + 1
                    } else {
                        final(self).game == old(self).game
                    }
                },
                _ => *final(self) == *old(self),
            },
    {
        match input {
            Input::Key { c: ' ', .. } => {
                if matches!(self.state, AppState::Stopped) {
                    self.initial_board = self.game.board.clone();
                }
                self.state.toggle();
            },
            Input::Key { c: 'r', modified: false } => {
                self.state = AppState::Stopped;
                self.game.generation = 0;
                self.game.board = self.initial_board.clone();
            },
            Input::Key { c: 'q', modified: false } => {
                return true;
            },
            Input::Key { c: 'c', modified: false } => {
                if matches!(self.state, AppState::Stopped) {
                    self.game.board.clear();
                }
            },
            Input::Release { column, row, modified: false } => {
                if matches!(self.state, AppState::Stopped) {
                    if let Some((rel_x, rel_y)) = contains(self.board_area, column, row) {
                        let board_x: i64 = rel_x as i64 - self.board_area.width as i64 / 2
                            + self.origin.x;
                        let board_y: i64 = rel_y as i64 - self.board_area.height as i64 / 2
                            + self.origin.y;
                        self.game.board.toggle_cell(&Point::new(board_x, board_y));
                    }
                }
            },
            Input::Tick => {
                if matches!(self.state, AppState::Running) {
                    self.game.step();
                }
            },
            _ => (),
        };
        false
    }
}

} // verus!
