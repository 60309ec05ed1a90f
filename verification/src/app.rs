//! The application state the interface loop drives: whether the program keeps
//! running, the game board, and the help popup toggle.

use vstd::prelude::*;

use crate::board::{initial_cell, Board};
use crate::pieces::PieceColor;

verus! {

pub struct App {
    /// Is the application running?
    pub running: bool,
    /// The game state.
    pub board: Board,
    /// Show the help popup.
    pub show_popup: bool,
}

impl Default for App {
    /// A running application over a fresh game, with the popup hidden.
    fn default() -> (a: App)
        ensures
            a.running == true,
            a.show_popup == false,
            a.board.wf(),
            forall|i: int| 0 <= i < 64 ==> a.board.board@[i] == initial_cell(i),
            a.board.player_turn == PieceColor::White,
            a.board.moves_history@.len() == 0,
            a.board.selected_coordinates is None,
    {
        App { running: true, board: Board::default(), show_popup: false }
    }
}

impl App {
    /// Constructs a new application in its starting state.
    pub fn new() -> (a: App)
        ensures
            a.running == true,
            a.show_popup == false,
            a.board.wf(),
            forall|i: int| 0 <= i < 64 ==> a.board.board@[i] == initial_cell(i),
            a.board.player_turn == PieceColor::White,
            a.board.moves_history@.len() == 0,
            a.board.selected_coordinates is None,
    {
        App::default()
    }

    /// Toggles the help popup.
    pub fn show_popup(&mut self)
        ensures
            final(self).show_popup == !old(self).show_popup,
            final(self).running == old(self).running,
            final(self).board == old(self).board,
    {
        self.show_popup = !self.show_popup;
    }

    /// Handles the tick event of the interface loop; the state does not change.
    pub fn tick(&self) {
    }

    /// Marks the application as stopped, so the interface loop exits.
    pub fn quit(&mut self)
        ensures
            final(self).running == false,
            final(self).show_popup == old(self).show_popup,
            final(self).board == old(self).board,
    {
        self.running = false;
    }
}

} // verus!
