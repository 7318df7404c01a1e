//! The editor: the live canvas, its history and the brush, as one value that
//! every command works on.

use crate::brush::{Brush, BrushView, BLACK};
use crate::canvas::{Canvas, Color, Grid};
use crate::codec::{decode, decoding, encode, encoding, DecodeError};
use crate::history::{History, Timeline};
use crate::session::{Outcome, PointerEvent, Session, Status, World};
use vstd::prelude::*;

verus! {

/// The mathematical model of an editor.
pub struct EditorView {
    pub canvas: Grid,
    pub history: Timeline,
    pub brush: BrushView,
}

impl EditorView {
    /// What a session may change of the editor.
    pub open spec fn world(self) -> World {
        World { canvas: self.canvas, history: self.history }
    }

    /// The editor after an undo: the history one step back and its snapshot
    /// on the live canvas. At the oldest snapshot nothing changes.
    pub open spec fn undone(self) -> EditorView {
        if self.history.can_undo() {
            EditorView {
                canvas: self.history.undo().current(),
                history: self.history.undo(),
                ..self
            }
        } else {
            self
        }
    }

    /// The editor after a redo: the history one step forward and its snapshot
    /// on the live canvas. At the newest snapshot nothing changes.
    pub open spec fn redone(self) -> EditorView {
        if self.history.can_redo() {
            EditorView {
                canvas: self.history.redo().current(),
                history: self.history.redo(),
                ..self
            }
        } else {
            self
        }
    }

    /// The editor after an image was loaded: the image on the live canvas and
    /// recorded as a new snapshot.
    pub open spec fn loaded(self, image: Grid) -> EditorView {
        EditorView { canvas: image, history: self.history.push(image), ..self }
    }
}

/// An editing session's whole state. The live canvas is the working copy; the
/// history holds the snapshots that undo and redo bring back.
pub struct Editor {
    canvas: Canvas,
    history: History,
    brush: Brush,
}

impl View for Editor {
    type V = EditorView;

    closed spec fn view(&self) -> EditorView {
        EditorView { canvas: self.canvas@, history: self.history@, brush: self.brush@ }
    }
}

impl Editor {
    /// An editor with a white canvas of the given dimensions, a history that
    /// holds that canvas, and a black brush of thickness 1.
    pub fn new(width: usize, height: usize) -> (editor: Editor)
        requires
            width * height <= usize::MAX,
        ensures
            editor@ == (EditorView {
                canvas: Grid::blank(width as nat, height as nat),
                history: Timeline::seed(Grid::blank(width as nat, height as nat)),
                brush: BrushView { color: BLACK, thickness: 1 },
            }),
    {
        let canvas = Canvas::new(width, height);
        let history = History::new(canvas.clone_for_preview());
        Editor { canvas, history, brush: Brush::new() }
    }

    /// The live canvas.
    pub fn canvas(&self) -> (canvas: &Canvas)
        ensures
            canvas@ == self@.canvas,
    {
        &self.canvas
    }

    /// The history.
    pub fn history(&self) -> (history: &History)
        ensures
            history@ == self@.history,
    {
        &self.history
    }

    /// The brush.
    pub fn brush(&self) -> (brush: &Brush)
        ensures
            brush@ == self@.brush,
    {
        &self.brush
    }

    /// Changes the active color.
    pub fn set_color(&mut self, color: Color)
        ensures
            final(self)@ == (EditorView {
                brush: BrushView { color, ..old(self)@.brush },
                ..old(self)@
            }),
    {
        self.brush.set_color(color);
    }

    /// Changes the brush thickness, limited to the accepted range.
    pub fn set_thickness(&mut self, requested: usize)
        ensures
            final(self)@ == (EditorView {
                brush: BrushView {
                    thickness: crate::brush::accepted_thickness(requested as int) as nat,
                    ..old(self)@.brush
                },
                ..old(self)@
            }),
            final(self)@.brush.wf(),
    {
        self.brush.set_thickness(requested);
    }

    /// Goes back one snapshot and shows it. Returns whether there was one to
    /// go back to; if not, nothing changes.
    pub fn undo(&mut self) -> (changed: bool)
        ensures
            final(self)@ == old(self)@.undone(),
            changed == old(self)@.history.can_undo(),
    {
        match self.history.undo() {
            Some(shown) => {
                self.canvas = shown;
                true
            },
            None => false,
        }
    }

    /// Goes forward one snapshot and shows it. Returns whether there was one
    /// to go forward to; if not, nothing changes.
    pub fn redo(&mut self) -> (changed: bool)
        ensures
            final(self)@ == old(self)@.redone(),
            changed == old(self)@.history.can_redo(),
    {
        match self.history.redo() {
            Some(shown) => {
                self.canvas = shown;
                true
            },
            None => false,
        }
    }

    /// Hands one pointer event to a tool session. The session draws with the
    /// editor's brush on the live canvas and commits to the editor's history.
    pub fn handle(&mut self, session: &mut Session, event: PointerEvent) -> (status: Status)
        ensures
            (Outcome { session: *final(session), world: final(self)@.world(), status }) == old(
                session,
            ).step(old(self)@.brush, old(self)@.world(), event),
            final(self)@.brush == old(self)@.brush,
    {
        session.handle(&self.brush, &mut self.canvas, &mut self.history, event)
    }

    /// The picture to show while a session is active. The editor is not
    /// touched.
    pub fn preview(&self, session: &Session) -> (shown: Canvas)
        ensures
            shown@ == session.shown(self@.brush, self@.canvas),
    {
        session.preview(&self.brush, &self.canvas)
    }

    /// The live canvas as an image file.
    pub fn save(&self) -> (bytes: Vec<u8>)
        ensures
            bytes@ == encoding(self@.canvas),
    {
        encode(&self.canvas)
    }

    /// Loads an image file. On success the image replaces the live canvas
    /// and is recorded as a new snapshot. On failure the editor is unchanged.
    pub fn load(&mut self, bytes: &[u8]) -> (loaded: Result<(), DecodeError>)
        ensures
            match decoding(bytes@) {
                Ok(image) => loaded is Ok && final(self)@ == old(self)@.loaded(image),
                Err(error) => loaded == Err::<(), DecodeError>(error) && final(self)@ == old(
                    self,
                )@,
            },
    {
        match decode(bytes) {
            Ok(image) => {
                self.history.push(image.clone_for_preview());
                self.canvas = image;
                Ok(())
            },
            Err(error) => Err(error),
        }
    }
}

} // verus!
