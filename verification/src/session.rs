//! What the server remembers of one client.

use crate::path::AbsolutePath;
use vstd::prelude::*;

verus! {

/// How a click on a listed directory is read.
#[derive(Clone, Copy, Debug, PartialEq, Eq, Structural)]
pub enum InteractionMode {
    /// A directory is entered.
    Browse,
    /// A directory receives the file on show.
    Move,
}

/// The state of one session: where it stands, how clicks are read, and the
/// file that was previewed last.
#[derive(Debug)]
pub struct Session {
    pub current_directory: Option<AbsolutePath>,
    pub move_mode: bool,
    pub showcase: Option<String>,
}

/// A session as plain values.
pub struct SessionView {
    pub current_directory: Option<Seq<char>>,
    pub move_mode: bool,
    pub showcase: Option<Seq<char>>,
}

impl View for Session {
    type V = SessionView;

    open spec fn view(&self) -> SessionView {
        SessionView {
            current_directory: match self.current_directory {
                Some(p) => Some(p@),
                None => None,
            },
            move_mode: self.move_mode,
            showcase: match self.showcase {
                Some(s) => Some(s@),
                None => None,
            },
        }
    }
}

impl SessionView {
    /// The directory that the session stands in, `default` until one is
    /// stored.
    pub open spec fn directory_or(self, default: Seq<char>) -> Seq<char> {
        match self.current_directory {
            Some(p) => p,
            None => default,
        }
    }

    /// The mode that the flag stands for.
    pub open spec fn mode(self) -> InteractionMode {
        if self.move_mode {
            InteractionMode::Move
        } else {
            InteractionMode::Browse
        }
    }
}

impl Session {
    /// A fresh session: no directory stored, browsing, nothing on show.
    pub fn new() -> (r: Session)
        ensures
            r@.current_directory is None,
            !r@.move_mode,
            r@.showcase is None,
    {
        Session { current_directory: None, move_mode: false, showcase: None }
    }

    /// The stored directory. Where none is stored yet, `default` is stored
    /// and returned.
    pub fn get_or_init_directory(&mut self, default: &AbsolutePath) -> (r: AbsolutePath)
        ensures
            r@ == old(self)@.directory_or(default@),
            final(self)@.current_directory == Some(r@),
            final(self)@.move_mode == old(self)@.move_mode,
            final(self)@.showcase == old(self)@.showcase,
    {
        if self.current_directory.is_none() {
            self.current_directory = Some(default.duplicate());
        }
        match &self.current_directory {
            Some(p) => p.duplicate(),
            None => default.duplicate(),
        }
    }

    /// The stored directory, or `default` where none is stored. Nothing is
    /// stored.
    pub fn directory_or(&self, default: &AbsolutePath) -> (r: AbsolutePath)
        ensures
            r@ == self@.directory_or(default@),
    {
        match &self.current_directory {
            Some(p) => p.duplicate(),
            None => default.duplicate(),
        }
    }

    /// Stores `p` as the current directory.
    pub fn set_directory(&mut self, p: AbsolutePath)
        ensures
            final(self)@.current_directory == Some(p@),
            final(self)@.move_mode == old(self)@.move_mode,
            final(self)@.showcase == old(self)@.showcase,
    {
        self.current_directory = Some(p);
    }

    /// Flips the move-mode flag and returns its new value.
    pub fn toggle_move_mode(&mut self) -> (r: bool)
        ensures
            r == !old(self)@.move_mode,
            final(self)@.move_mode == r,
            final(self)@.current_directory == old(self)@.current_directory,
            final(self)@.showcase == old(self)@.showcase,
    {
        self.move_mode = !self.move_mode;
        self.move_mode
    }

    /// The mode in which clicks are read now.
    pub fn interaction_mode(&self) -> (r: InteractionMode)
        ensures
            r == self@.mode(),
    {
        if self.move_mode {
            InteractionMode::Move
        } else {
            InteractionMode::Browse
        }
    }

    /// Puts `p` on show, or nothing.
    pub fn set_showcase(&mut self, p: Option<String>)
        ensures
            final(self)@.showcase == (match p {
                Some(s) => Some(s@),
                None => None,
            }),
            final(self)@.current_directory == old(self)@.current_directory,
            final(self)@.move_mode == old(self)@.move_mode,
    {
        self.showcase = p;
    }

    /// The file on show, if any.
    pub fn get_showcase(&self) -> (r: Option<String>)
        ensures
            self@.showcase == (match r {
                Some(s) => Some(s@),
                None => None,
            }),
    {
        match &self.showcase {
            Some(s) => Some(s.clone()),
            None => None,
        }
    }
}

} // verus!
