//! The keyboard-and-mouse editors of the edit session that work in whole
//! pixels: the freeform crop box and the spot-healing brush. Each editor is a
//! state that a key press or a click moves to its next state.
use vstd::prelude::*;

verus! {

/// A key press, as the pixel editors read it.
#[derive(Debug, Clone, Copy, PartialEq, Eq, Structural)]
pub enum EditorKey {
    Left,
    Right,
    Up,
    Down,
    /// Switch the active handle.
    Tab,
    /// Widen the brush.
    Grow,
    /// Narrow the brush.
    Shrink,
    Commit,
    Cancel,
    Other,
}

/// Whether an editor goes on, or ends with its edit taken or dropped.
#[derive(Debug, Clone, Copy, PartialEq, Eq, Structural)]
pub enum EditorOutcome {
    Continue,
    Commit,
    Cancel,
}

/// The outcome of a key in either editor: Enter commits, Esc cancels.
pub open spec fn outcome_of(key: EditorKey) -> EditorOutcome {
    match key {
        EditorKey::Commit => EditorOutcome::Commit,
        EditorKey::Cancel => EditorOutcome::Cancel,
        _ => EditorOutcome::Continue,
    }
}

fn outcome_for(key: EditorKey) -> (r: EditorOutcome)
    ensures
        r == outcome_of(key),
{
    match key {
        EditorKey::Commit => EditorOutcome::Commit,
        EditorKey::Cancel => EditorOutcome::Cancel,
        _ => EditorOutcome::Continue,
    }
}

/// `a - b`, or 0 when `b` exceeds `a`.
pub open spec fn sat_sub(a: u32, b: u32) -> u32 {
    if a >= b {
        (a - b) as u32
    } else {
        0
    }
}

pub open spec fn min_u32(a: u32, b: u32) -> u32 {
    if a <= b {
        a
    } else {
        b
    }
}

pub open spec fn max_u32(a: u32, b: u32) -> u32 {
    if a >= b {
        a
    } else {
        b
    }
}

/// The largest image side the editors take: room for a step past the edge.
pub open spec fn max_side() -> u32 {
    (u32::MAX - 24) as u32
}

// ---------------------------------------------------------------------------
// Freeform crop box
// ---------------------------------------------------------------------------

/// The crop-box editor on a `img_w` x `img_h` image: a top-left handle
/// (`x1`, `y1`), a bottom-right handle (`x2`, `y2`), and which of them (0 or
/// 1) the arrow keys move.
#[derive(Debug, Clone, Copy, PartialEq, Eq, Structural)]
pub struct CropEditor {
    pub img_w: u32,
    pub img_h: u32,
    pub x1: u32,
    pub y1: u32,
    pub x2: u32,
    pub y2: u32,
    pub active_corner: u8,
}

impl CropEditor {
    /// The top-left handle stays on the image; the bottom-right one may sit
    /// up to ten pixels past it, where the minimum box size pushes it.
    pub open spec fn wf(self) -> bool {
        &&& 1 <= self.img_w <= max_side()
        &&& 1 <= self.img_h <= max_side()
        &&& self.x1 < self.img_w
        &&& self.y1 < self.img_h
        &&& self.x2 <= self.img_w + 9
        &&& self.y2 <= self.img_h + 9
        &&& self.active_corner < 2
    }

    /// The state after `key`: the arrows move the active handle by 15 pixels,
    /// keeping the top-left one at least 10 pixels before the other and the
    /// bottom-right one on the image when it moves right or down.
    pub open spec fn after_key(self, key: EditorKey) -> CropEditor {
        let top_left = self.active_corner == 0;
        match key {
            EditorKey::Tab => CropEditor { active_corner: ((self.active_corner + 1) % 2) as u8, ..self },
            EditorKey::Left => if top_left {
                CropEditor { x1: sat_sub(self.x1, 15), ..self }
            } else {
                CropEditor { x2: max_u32(sat_sub(self.x2, 15), (self.x1 + 10) as u32), ..self }
            },
            EditorKey::Right => if top_left {
                CropEditor { x1: min_u32((self.x1 + 15) as u32, sat_sub(self.x2, 10)), ..self }
            } else {
                CropEditor { x2: min_u32((self.x2 + 15) as u32, (self.img_w - 1) as u32), ..self }
            },
            EditorKey::Up => if top_left {
                CropEditor { y1: sat_sub(self.y1, 15), ..self }
            } else {
                CropEditor { y2: max_u32(sat_sub(self.y2, 15), (self.y1 + 10) as u32), ..self }
            },
            EditorKey::Down => if top_left {
                CropEditor { y1: min_u32((self.y1 + 15) as u32, sat_sub(self.y2, 10)), ..self }
            } else {
                CropEditor { y2: min_u32((self.y2 + 15) as u32, (self.img_h - 1) as u32), ..self }
            },
            _ => self,
        }
    }

    /// The state after a click on pixel (`px`, `py`), which the caller found
    /// nearer the top-left handle or not: the nearer handle jumps there,
    /// keeping the box at least 10 pixels wide and high, and becomes active.
    pub open spec fn after_click(self, px: u32, py: u32, nearer_top_left: bool) -> CropEditor {
        if nearer_top_left {
            CropEditor {
                x1: min_u32(px, sat_sub(self.x2, 10)),
                y1: min_u32(py, sat_sub(self.y2, 10)),
                active_corner: 0,
                ..self
            }
        } else {
            CropEditor {
                x2: max_u32(px, (self.x1 + 10) as u32),
                y2: max_u32(py, (self.y1 + 10) as u32),
                active_corner: 1,
                ..self
            }
        }
    }

    /// The box a commit crops to: from the upper-left of the two handles, at
    /// least one pixel wide and high.
    pub open spec fn selection_spec(self) -> (u32, u32, u32, u32) {
        let cx = min_u32(self.x1, self.x2);
        let cy = min_u32(self.y1, self.y2);
        let cw = (max_u32(self.x1, self.x2) - cx) as u32;
        let ch = (max_u32(self.y1, self.y2) - cy) as u32;
        (cx, cy, max_u32(cw, 1), max_u32(ch, 1))
    }

    /// The editor on a fresh image: the box covers the whole image and the
    /// top-left handle is active.
    pub fn new(img_w: u32, img_h: u32) -> (e: Self)
        requires
            1 <= img_w <= max_side(),
            1 <= img_h <= max_side(),
        ensures
            e.wf(),
            e == (CropEditor {
                img_w,
                img_h,
                x1: 0,
                y1: 0,
                x2: (img_w - 1) as u32,
                y2: (img_h - 1) as u32,
                active_corner: 0,
            }),
    {
        CropEditor { img_w, img_h, x1: 0, y1: 0, x2: img_w - 1, y2: img_h - 1, active_corner: 0 }
    }

    /// Applies a key press; says whether the editor goes on, commits or cancels.
    pub fn press(&mut self, key: EditorKey) -> (r: EditorOutcome)
        requires
            old(self).wf(),
        ensures
            final(self).wf(),
            *final(self) == old(self).after_key(key),
            r == outcome_of(key),
    {
        let top_left = self.active_corner == 0;
        match key {
            EditorKey::Tab => {
                self.active_corner = (self.active_corner + 1) % 2;
            },
            EditorKey::Left => {
                if top_left {
                    self.x1 = self.x1.saturating_sub(15);
                } else {
                    let a = self.x2.saturating_sub(15);
                    let b = self.x1 + 10;
                    self.x2 = if a >= b { a } else { b };
                }
            },
            EditorKey::Right => {
                if top_left {
                    let a = self.x1 + 15;
                    let b = self.x2.saturating_sub(10);
                    self.x1 = if a <= b { a } else { b };
                } else {
                    let a = self.x2 + 15;
                    let b = self.img_w - 1;
                    self.x2 = if a <= b { a } else { b };
                }
            },
            EditorKey::Up => {
                if top_left {
                    self.y1 = self.y1.saturating_sub(15);
                } else {
                    let a = self.y2.saturating_sub(15);
                    let b = self.y1 + 10;
                    self.y2 = if a >= b { a } else { b };
                }
            },
            EditorKey::Down => {
                if top_left {
                    let a = self.y1 + 15;
                    let b = self.y2.saturating_sub(10);
                    self.y1 = if a <= b { a } else { b };
                } else {
                    let a = self.y2 + 15;
                    let b = self.img_h - 1;
                    self.y2 = if a <= b { a } else { b };
                }
            },
            _ => {},
        }
        outcome_for(key)
    }

    /// Applies a click on pixel (`px`, `py`) of the image.
    pub fn click(&mut self, px: u32, py: u32, nearer_top_left: bool)
        requires
            old(self).wf(),
            px < old(self).img_w,
            py < old(self).img_h,
        ensures
            final(self).wf(),
            *final(self) == old(self).after_click(px, py, nearer_top_left),
    {
        if nearer_top_left {
            let bx = self.x2.saturating_sub(10);
            let by = self.y2.saturating_sub(10);
            self.x1 = if px <= bx { px } else { bx };
            self.y1 = if py <= by { py } else { by };
            self.active_corner = 0;
        } else {
            let bx = self.x1 + 10;
            let by = self.y1 + 10;
            self.x2 = if px >= bx { px } else { bx };
            self.y2 = if py >= by { py } else { by };
            self.active_corner = 1;
        }
    }

    /// The box (x, y, width, height) that committing crops to.
    pub fn selection(&self) -> (r: (u32, u32, u32, u32))
        ensures
            r == self.selection_spec(),
    {
        let cx = if self.x1 <= self.x2 { self.x1 } else { self.x2 };
        let cy = if self.y1 <= self.y2 { self.y1 } else { self.y2 };
        let mx = if self.x1 >= self.x2 { self.x1 } else { self.x2 };
        let my = if self.y1 >= self.y2 { self.y1 } else { self.y2 };
        let cw = mx - cx;
        let ch = my - cy;
        (cx, cy, if cw >= 1 { cw } else { 1 }, if ch >= 1 { ch } else { 1 })
    }
}

/// A key press or a click (on pixel `x`, `y`, nearer the top-left handle or
/// not) in the crop-box editor.
#[derive(Debug, Clone, Copy, PartialEq, Eq, Structural)]
pub enum CropEvent {
    Key(EditorKey),
    Click(u32, u32, bool),
}

/// The crop-box editor after `events`, in order.
pub open spec fn crop_after_events(e: CropEditor, events: Seq<CropEvent>) -> CropEditor
    decreases events.len(),
{
    if events.len() == 0 {
        e
    } else {
        let next = match events[0] {
            CropEvent::Key(k) => e.after_key(k),
            CropEvent::Click(x, y, near) => e.after_click(x, y, near),
        };
        crop_after_events(next, events.drop_first())
    }
}

/// Whether every click among `events` falls on a `w` x `h` image.
pub open spec fn clicks_on_image(events: Seq<CropEvent>, w: u32, h: u32) -> bool {
    forall|i: int| 0 <= i < events.len() ==> (#[trigger] events[i] matches CropEvent::Click(x, y, _) ==> x < w
        && y < h)
}

/// Whether the box (x, y, width, height) is at least one pixel wide and high
/// and lies inside a `w` x `h` image.
pub open spec fn crop_inside(sel: (u32, u32, u32, u32), w: u32, h: u32) -> bool {
    sel.2 >= 1 && sel.3 >= 1 && sel.0 + sel.2 <= w && sel.1 + sel.3 <= h
}

impl CropEditor {
    /// Both handles on the image, the bottom-right one at least ten pixels
    /// right of and below the top-left one.
    pub open spec fn box_on_image(self) -> bool {
        &&& self.wf()
        &&& self.x1 + 10 <= self.x2 < self.img_w
        &&& self.y1 + 10 <= self.y2 < self.img_h
    }
}

/// Every key and every click on the image keeps the crop box on the image,
/// and a box on the image commits to a selection inside it.
pub proof fn lemma_crop_step_keeps_box_on_image(e: CropEditor, key: EditorKey, px: u32, py: u32, nearer_top_left: bool)
    requires
        e.box_on_image(),
    ensures
        e.after_key(key).box_on_image(),
        px < e.img_w && py < e.img_h ==> e.after_click(px, py, nearer_top_left).box_on_image(),
        crop_inside(e.selection_spec(), e.img_w, e.img_h),
{
}

/// On an image of at least 11 x 11 pixels, whatever keys are pressed and
/// wherever on the image is clicked, the box that a commit crops to lies
/// inside the image.
pub proof fn lemma_committed_crop_inside_image(img_w: u32, img_h: u32, events: Seq<CropEvent>)
    requires
        11 <= img_w <= max_side(),
        11 <= img_h <= max_side(),
        clicks_on_image(events, img_w, img_h),
    ensures
        crop_inside(
            crop_after_events(
                CropEditor {
                    img_w,
                    img_h,
                    x1: 0,
                    y1: 0,
                    x2: (img_w - 1) as u32,
                    y2: (img_h - 1) as u32,
                    active_corner: 0,
                },
                events,
            ).selection_spec(),
            img_w,
            img_h,
        ),
{
    let e = CropEditor {
        img_w,
        img_h,
        x1: 0,
        y1: 0,
        x2: (img_w - 1) as u32,
        y2: (img_h - 1) as u32,
        active_corner: 0,
    };
    lemma_events_keep_box_on_image(e, events);
    let f = crop_after_events(e, events);
    lemma_crop_step_keeps_box_on_image(f, EditorKey::Other, 0, 0, true);
}

proof fn lemma_events_keep_box_on_image(e: CropEditor, events: Seq<CropEvent>)
    requires
        e.box_on_image(),
        clicks_on_image(events, e.img_w, e.img_h),
    ensures
        crop_after_events(e, events).box_on_image(),
        crop_after_events(e, events).img_w == e.img_w,
        crop_after_events(e, events).img_h == e.img_h,
    decreases events.len(),
{
    if events.len() > 0 {
        let next = match events[0] {
            CropEvent::Key(k) => e.after_key(k),
            CropEvent::Click(x, y, near) => e.after_click(x, y, near),
        };
        match events[0] {
            CropEvent::Key(k) => lemma_crop_step_keeps_box_on_image(e, k, 0, 0, true),
            CropEvent::Click(x, y, near) => lemma_crop_step_keeps_box_on_image(e, EditorKey::Other, x, y, near),
        }
        let rest = events.drop_first();
        assert forall|i: int| 0 <= i < rest.len() implies (#[trigger] rest[i] matches CropEvent::Click(x, y, _)
            ==> x < next.img_w && y < next.img_h) by {
            assert(rest[i] == events[i + 1]);
        }
        lemma_events_keep_box_on_image(next, rest);
    }
}

// ---------------------------------------------------------------------------
// Spot-healing brush
// ---------------------------------------------------------------------------

/// The healing-brush editor on a `img_w` x `img_h` image: a centre on the
/// image and a radius.
#[derive(Debug, Clone, Copy, PartialEq, Eq, Structural)]
pub struct HealingEditor {
    pub img_w: u32,
    pub img_h: u32,
    pub cx: u32,
    pub cy: u32,
    pub r: u32,
}

impl HealingEditor {
    /// The centre stays on the image; the radius leaves room to grow.
    pub open spec fn wf(self) -> bool {
        &&& 1 <= self.img_w <= max_side()
        &&& 1 <= self.img_h <= max_side()
        &&& self.cx < self.img_w
        &&& self.cy < self.img_h
        &&& self.r <= u32::MAX - 2
    }

    /// The state after `key`: the arrows move the centre by 10 pixels within
    /// the image, Grow and Shrink change the radius by 2 within 1 to 200.
    pub open spec fn after_key(self, key: EditorKey) -> HealingEditor {
        match key {
            EditorKey::Left => HealingEditor { cx: sat_sub(self.cx, 10), ..self },
            EditorKey::Right => HealingEditor {
                cx: min_u32((self.cx + 10) as u32, (self.img_w - 1) as u32),
                ..self
            },
            EditorKey::Up => HealingEditor { cy: sat_sub(self.cy, 10), ..self },
            EditorKey::Down => HealingEditor {
                cy: min_u32((self.cy + 10) as u32, (self.img_h - 1) as u32),
                ..self
            },
            EditorKey::Grow => HealingEditor { r: min_u32((self.r + 2) as u32, 200), ..self },
            EditorKey::Shrink => HealingEditor { r: max_u32(sat_sub(self.r, 2), 1), ..self },
            _ => self,
        }
    }

    /// The brush centred on the middle of the image, with radius `r`.
    pub fn new(img_w: u32, img_h: u32, r: u32) -> (e: Self)
        requires
            1 <= img_w <= max_side(),
            1 <= img_h <= max_side(),
            r <= u32::MAX - 2,
        ensures
            e.wf(),
            e == (HealingEditor { img_w, img_h, cx: img_w / 2, cy: img_h / 2, r }),
    {
        HealingEditor { img_w, img_h, cx: img_w / 2, cy: img_h / 2, r }
    }

    /// Applies a key press; says whether the editor goes on, commits or cancels.
    pub fn press(&mut self, key: EditorKey) -> (o: EditorOutcome)
        requires
            old(self).wf(),
        ensures
            final(self).wf(),
            *final(self) == old(self).after_key(key),
            o == outcome_of(key),
    {
        match key {
            EditorKey::Left => {
                self.cx = self.cx.saturating_sub(10);
            },
            EditorKey::Right => {
                let a = self.cx + 10;
                let b = self.img_w - 1;
                self.cx = if a <= b { a } else { b };
            },
            EditorKey::Up => {
                self.cy = self.cy.saturating_sub(10);
            },
            EditorKey::Down => {
                let a = self.cy + 10;
                let b = self.img_h - 1;
                self.cy = if a <= b { a } else { b };
            },
            EditorKey::Grow => {
                let a = self.r + 2;
                self.r = if a <= 200 { a } else { 200 };
            },
            EditorKey::Shrink => {
                let a = self.r.saturating_sub(2);
                self.r = if a >= 1 { a } else { 1 };
            },
            _ => {},
        }
        outcome_for(key)
    }

    /// Moves the centre to the clicked pixel (`px`, `py`).
    pub fn click(&mut self, px: u32, py: u32)
        requires
            old(self).wf(),
            px < old(self).img_w,
            py < old(self).img_h,
        ensures
            final(self).wf(),
            *final(self) == (HealingEditor { cx: px, cy: py, ..*old(self) }),
    {
        self.cx = px;
        self.cy = py;
    }
}

/// After a Grow or a Shrink the brush radius lies between 1 and 200 whenever
/// it did before.
pub proof fn lemma_healing_radius_stays_in_range(e: HealingEditor, key: EditorKey)
    requires
        e.wf(),
        1 <= e.r <= 200,
    ensures
        1 <= e.after_key(key).r <= 200,
{
}

} // verus!
