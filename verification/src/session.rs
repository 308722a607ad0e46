//! Non-destructive edit session with an undo stack and a redo stack.
use vstd::prelude::*;
use image::DynamicImage;

verus! {

/// An in-memory edit session: the current image, the images it replaced
/// (most recent last), the images that undo took back (most recent last),
/// and a log with one line per step of the session.
pub struct EditSession {
    pub current_image: DynamicImage,
    pub undo_stack: Vec<DynamicImage>,
    pub redo_stack: Vec<DynamicImage>,
    pub history_log: Vec<String>,
}

/// The mathematical state of an edit session.
pub struct SessionState {
    pub current: DynamicImage,
    pub undo: Seq<DynamicImage>,
    pub redo: Seq<DynamicImage>,
    pub log: Seq<Seq<char>>,
}

/// The log line a new session starts with.
pub open spec fn initial_log_line() -> Seq<char> {
    "Initial Image Loaded"@
}

/// The log line that a redo appends.
pub open spec fn redo_log_line() -> Seq<char> {
    "Redo Operation"@
}

impl View for EditSession {
    type V = SessionState;

    open spec fn view(&self) -> SessionState {
        SessionState {
            current: self.current_image,
            undo: self.undo_stack@,
            redo: self.redo_stack@,
            log: self.history_log@.map_values(|s: String| s@),
        }
    }
}

impl SessionState {
    /// A session as its operations leave it: the log always keeps its first line.
    pub open spec fn wf(self) -> bool {
        self.log.len() >= 1
    }

    /// The state after committing `img` as a new edit described by `description`.
    pub open spec fn apply(self, img: DynamicImage, description: Seq<char>) -> SessionState {
        SessionState {
            current: img,
            undo: self.undo.push(self.current),
            redo: Seq::empty(),
            log: self.log.push(description),
        }
    }

    /// The state after an undo; unchanged when there is nothing to undo.
    pub open spec fn undo(self) -> SessionState {
        if self.undo.len() == 0 {
            self
        } else {
            SessionState {
                current: self.undo.last(),
                undo: self.undo.drop_last(),
                redo: self.redo.push(self.current),
                log: if self.log.len() > 1 { self.log.drop_last() } else { self.log },
            }
        }
    }

    /// The state after a redo; unchanged when there is nothing to redo.
    pub open spec fn redo(self) -> SessionState {
        if self.redo.len() == 0 {
            self
        } else {
            SessionState {
                current: self.redo.last(),
                undo: self.undo.push(self.current),
                redo: self.redo.drop_last(),
                log: self.log.push(redo_log_line()),
            }
        }
    }
}

impl EditSession {
    /// Starts a session on `initial_image`, with empty stacks and the initial log line.
    pub fn new(initial_image: DynamicImage) -> (s: Self)
        ensures
            s@ == (SessionState {
                current: initial_image,
                undo: Seq::empty(),
                redo: Seq::empty(),
                log: seq![initial_log_line()],
            }),
    {
        let mut log: Vec<String> = Vec::new();
        log.push("Initial Image Loaded".to_owned());
        let s = EditSession {
            current_image: initial_image,
            undo_stack: Vec::new(),
            redo_stack: Vec::new(),
            history_log: log,
        };
        assert(s@.log =~= seq![initial_log_line()]);
        s
    }

    /// Commits `new_image` as the current image: the old one goes on the undo
    /// stack, the redo stack is cleared and `description` is logged.
    pub fn apply_action(&mut self, new_image: DynamicImage, description: String)
        ensures
            final(self)@ == old(self)@.apply(new_image, description@),
    {
        let mut img = new_image;
        std::mem::swap(&mut self.current_image, &mut img);
        self.undo_stack.push(img);
        self.redo_stack.clear();
        self.history_log.push(description);
        assert(final(self)@.log =~= old(self)@.log.push(description@));
    }

    /// Whether there is an edit to undo.
    pub fn can_undo(&self) -> (b: bool)
        ensures
            b == (self@.undo.len() > 0),
    {
        self.undo_stack.len() > 0
    }

    /// Whether there is an undone edit to redo.
    pub fn can_redo(&self) -> (b: bool)
        ensures
            b == (self@.redo.len() > 0),
    {
        self.redo_stack.len() > 0
    }

    /// Steps back one edit; returns whether there was one.
    pub fn undo(&mut self) -> (done: bool)
        ensures
            done == (old(self)@.undo.len() > 0),
            final(self)@ == old(self)@.undo(),
    {
        match self.undo_stack.pop() {
            Some(prev) => {
                let mut prev = prev;
                std::mem::swap(&mut self.current_image, &mut prev);
                self.redo_stack.push(prev);
                if self.history_log.len() > 1 {
                    self.history_log.pop();
                    assert(final(self)@.log =~= old(self)@.log.drop_last());
                }
                true
            }
            None => false,
        }
    }

    /// Steps forward one undone edit; returns whether there was one.
    pub fn redo(&mut self) -> (done: bool)
        ensures
            done == (old(self)@.redo.len() > 0),
            final(self)@ == old(self)@.redo(),
    {
        match self.redo_stack.pop() {
            Some(next) => {
                let mut next = next;
                std::mem::swap(&mut self.current_image, &mut next);
                self.undo_stack.push(next);
                let line = "Redo Operation".to_owned();
                proof {
                    reveal_strlit("Redo Operation");
                }
                self.history_log.push(line);
                assert(final(self)@.log =~= old(self)@.log.push(redo_log_line()));
                true
            }
            None => false,
        }
    }
}

/// Undoing an edit right after committing it gives back the session as it was
/// before the edit, except that the undone image now waits on the redo stack.
pub proof fn lemma_undo_reverts_apply(s: SessionState, img: DynamicImage, description: Seq<char>)
    requires
        s.wf(),
    ensures
        s.apply(img, description).undo() == (SessionState { redo: seq![img], ..s }),
{
    assert(s.apply(img, description).undo().undo =~= s.undo);
    assert(s.apply(img, description).undo().log =~= s.log);
    assert(s.apply(img, description).undo().redo =~= seq![img]);
}

/// Redoing right after an undo restores the current image and both stacks;
/// the log records the redo as a new line.
pub proof fn lemma_redo_reverts_undo(s: SessionState)
    requires
        s.undo.len() > 0,
    ensures
        s.undo().redo().current == s.current,
        s.undo().redo().undo == s.undo,
        s.undo().redo().redo == s.redo,
{
    assert(s.undo().redo().undo =~= s.undo);
    assert(s.undo().redo().redo =~= s.redo);
}

/// Every operation keeps the session well formed.
pub proof fn lemma_operations_keep_wf(s: SessionState, img: DynamicImage, description: Seq<char>)
    requires
        s.wf(),
    ensures
        s.apply(img, description).wf(),
        s.undo().wf(),
        s.redo().wf(),
{
}

/// Committing an edit always leaves something to undo and nothing to redo.
pub proof fn lemma_apply_enables_undo(s: SessionState, img: DynamicImage, description: Seq<char>)
    ensures
        s.apply(img, description).undo.len() > 0,
        s.apply(img, description).redo.len() == 0,
        s.apply(img, description).current == img,
{
}

} // verus!
