//! A scene of the early, linear format: one speaker and the lines that
//! are shown one after the other.
use vstd::prelude::*;

verus! {

/// A speaker's lines and how far they have been read.
pub struct Scene {
    lines: Vec<String>,
    current_line: usize,
    speaker: String,
}

/// The plain-value model of a [`Scene`].
pub struct SceneModel {
    pub lines: Seq<Seq<char>>,
    pub current_line: nat,
    pub speaker: Seq<char>,
}

impl View for Scene {
    type V = SceneModel;

    closed spec fn view(&self) -> SceneModel {
        SceneModel {
            lines: self.lines@.map_values(|s: String| s@),
            current_line: self.current_line as nat,
            speaker: self.speaker@,
        }
    }
}

impl Scene {
    /// The line shown stays on a line of the scene, or at the start.
    #[verifier::type_invariant]
    closed spec fn inv(self) -> bool {
        self.current_line == 0 || self.current_line < self.lines@.len()
    }

    /// A scene at its first line.
    pub fn new(speaker: &str, lines: Vec<String>) -> (r: Scene)
        ensures
            r@.lines == lines@.map_values(|s: String| s@),
            r@.current_line == 0,
            r@.speaker == speaker@,
    {
        Scene { lines, current_line: 0, speaker: speaker.to_string() }
    }

    /// The line shown, or `None` once there is none.
    pub fn current_text(&self) -> (r: Option<&String>)
        ensures
            match r {
                Some(t) => self@.current_line < self@.lines.len() && t@ == self@.lines[self@.current_line as int],
                None => self@.current_line >= self@.lines.len(),
            },
    {
        if self.current_line < self.lines.len() {
            Some(&self.lines[self.current_line])
        } else {
            None
        }
    }

    /// Moves on to the next line; `false`, and no move, at the last one.
    pub fn next_line(&mut self) -> (more: bool)
        ensures
            more == (old(self)@.current_line + 1 < old(self)@.lines.len()),
            final(self)@.lines == old(self)@.lines,
            final(self)@.speaker == old(self)@.speaker,
            final(self)@.current_line == if more {
                old(self)@.current_line + 1
            } else {
                old(self)@.current_line
            },
    {
        proof {
            use_type_invariant(&*self);
        }
        let n = self.lines.len();
        if self.current_line < n && self.current_line + 1 < n {
            self.current_line = self.current_line + 1;
            true
        } else {
            false
        }
    }

    /// Goes back to the first line.
    pub fn reset(&mut self)
        ensures
            final(self)@.lines == old(self)@.lines,
            final(self)@.speaker == old(self)@.speaker,
            final(self)@.current_line == 0,
    {
        self.current_line = 0;
    }

    /// The speaker's name.
    pub fn speaker(&self) -> (r: &String)
        ensures
            r@ == self@.speaker,
    {
        &self.speaker
    }
}

} // verus!
