//! Pointer and touch samples, and the state that they are folded into once
//! per frame.

use vstd::prelude::*;
use crate::geometry::Coord;

verus! {

/// The pointer's shape over the scene.
#[derive(Clone, Copy, Debug, PartialEq, Eq, Structural)]
pub enum Cursor {
    Default,
    Grab,
    Link,
}

/// One sample of the pointer.
#[derive(Clone, Copy, Debug, PartialEq, Eq, Structural)]
pub struct MouseEvent {
    pub is_pressed: bool,
    pub position: Coord,
}

/// One finger on the screen.
#[derive(Clone, Copy, Debug, PartialEq, Eq, Structural)]
pub struct Touch {
    pub id: i32,
    pub position: Coord,
}

/// One sample of the touch screen: the first of the fingers that are down,
/// or nothing when none is.
#[derive(Clone, Copy, Debug)]
pub struct TouchEvent {
    pub first: Option<Touch>,
}

/// What the samples so far amount to.
#[derive(Clone, Copy, Debug)]
pub struct MouseState {
    pub last_position: Coord,
    pub last_down_position: Coord,
    pub current_position: Coord,
    /// The finger that is followed; any other is ignored until it lifts.
    pub current_touch: Option<i32>,
    pub is_pressed: bool,
    pub is_dragging_cube: bool,
    pub just_released: bool,
    pub cursor_style: Cursor,
}

impl Cursor {
    /// The CSS name of the cursor.
    pub open spec fn css_spec(self, is_active: bool) -> Seq<char> {
        match (self, is_active) {
            (Cursor::Default, _) => "default"@,
            (Cursor::Grab, false) => "grab"@,
            (Cursor::Grab, true) => "grabbing"@,
            (Cursor::Link, _) => "pointer"@,
        }
    }

    /// The CSS name of the cursor; a grabbing hand while the pointer is
    /// pressed.
    pub fn to_css_string(&self, is_active: bool) -> (name: &'static str)
        ensures
            name@ == self.css_spec(is_active),
    {
        match (self, is_active) {
            (Cursor::Default, _) => "default",
            (Cursor::Grab, false) => "grab",
            (Cursor::Grab, true) => "grabbing",
            (Cursor::Link, _) => "pointer",
        }
    }
}

impl MouseState {
    /// The state after the pointer sample `e`: the position follows the
    /// sample, a press records where it went down, and a release after a
    /// press is noted.
    pub open spec fn after_mouse(self, e: MouseEvent) -> MouseState {
        if e.is_pressed && !self.is_pressed {
            MouseState {
                current_position: e.position,
                is_pressed: true,
                last_down_position: e.position,
                ..self
            }
        } else if !e.is_pressed {
            MouseState {
                current_position: e.position,
                is_pressed: false,
                just_released: self.just_released || self.is_pressed,
                ..self
            }
        } else {
            MouseState { current_position: e.position, ..self }
        }
    }

    /// The state after the touch sample `e`. The first finger to come down
    /// is followed until no finger is down; samples of another finger change
    /// nothing.
    pub open spec fn after_touch(self, e: TouchEvent) -> MouseState {
        match (e.first, self.current_touch) {
            (Some(t), Some(followed)) => if t.id == followed {
                MouseState { is_pressed: true, current_position: t.position, ..self }
            } else {
                self
            },
            (Some(t), None) => MouseState {
                current_touch: Some(t.id),
                current_position: t.position,
                last_down_position: t.position,
                is_pressed: true,
                ..self
            },
            (None, Some(_)) => MouseState {
                current_touch: None,
                just_released: true,
                is_pressed: false,
                ..self
            },
            (None, None) => self,
        }
    }

    /// The state after the first `n` of the pointer samples `events`.
    pub open spec fn after_mice(self, events: Seq<MouseEvent>, n: int) -> MouseState
        decreases n,
    {
        if n <= 0 {
            self
        } else {
            self.after_mice(events, n - 1).after_mouse(events[n - 1])
        }
    }

    /// The state after the first `n` of the touch samples `events`.
    pub open spec fn after_touches(self, events: Seq<TouchEvent>, n: int) -> MouseState
        decreases n,
    {
        if n <= 0 {
            self
        } else {
            self.after_touches(events, n - 1).after_touch(events[n - 1])
        }
    }

    /// The state after one frame's samples. Pointer samples go first; touch
    /// samples are looked at only where there is no pointer sample. A frame
    /// of pointer samples starts with no release noted.
    pub open spec fn after_frame(self, mice: Seq<MouseEvent>, touches: Seq<TouchEvent>) -> MouseState {
        if mice.len() > 0 {
            (MouseState { last_position: self.current_position, just_released: false, ..self }).after_mice(
                mice,
                mice.len() as int,
            )
        } else if touches.len() > 0 {
            (MouseState { last_position: self.current_position, ..self }).after_touches(
                touches,
                touches.len() as int,
            )
        } else {
            self
        }
    }

    /// The state before any sample.
    pub fn new() -> (s: MouseState)
        ensures
            s.last_position == (Coord { x: 0, y: 0 }),
            s.last_down_position == (Coord { x: 0, y: 0 }),
            s.current_position == (Coord { x: 0, y: 0 }),
            s.current_touch is None,
            !s.is_pressed,
            !s.is_dragging_cube,
            !s.just_released,
            s.cursor_style == Cursor::Default,
    {
        let origin = Coord { x: 0, y: 0 };
        MouseState {
            last_position: origin,
            last_down_position: origin,
            current_position: origin,
            current_touch: None,
            is_pressed: false,
            is_dragging_cube: false,
            just_released: false,
            cursor_style: Cursor::Default,
        }
    }

    /// Takes one pointer sample.
    pub fn take_mouse(&mut self, e: MouseEvent)
        ensures
            *final(self) == old(self).after_mouse(e),
    {
        self.current_position = e.position;
        if e.is_pressed && !self.is_pressed {
            self.is_pressed = true;
            self.last_down_position = e.position;
        } else if !e.is_pressed {
            if self.is_pressed {
                self.just_released = true;
            }
            self.is_pressed = false;
        }
    }

    /// Takes one touch sample.
    pub fn take_touch(&mut self, e: TouchEvent)
        ensures
            *final(self) == old(self).after_touch(e),
    {
        match e.first {
            Some(touch) => {
                if let Some(current_touch) = self.current_touch {
                    if touch.id == current_touch {
                        self.is_pressed = true;
                        self.current_position = touch.position;
                    }
                } else {
                    self.current_touch = Some(touch.id);
                    self.current_position = touch.position;
                    self.last_down_position = touch.position;
                    self.is_pressed = true;
                }
            },
            None => {
                if self.current_touch.is_some() {
                    self.current_touch = None;
                    self.just_released = true;
                    self.is_pressed = false;
                }
            },
        }
    }

    /// Takes the samples of one frame, and says whether there were any.
    pub fn take_frame(&mut self, mice: &Vec<MouseEvent>, touches: &Vec<TouchEvent>) -> (any: bool)
        ensures
            *final(self) == old(self).after_frame(mice@, touches@),
            any == (mice@.len() > 0 || touches@.len() > 0),
    {
        if mice.len() > 0 {
            self.last_position = self.current_position;
            self.just_released = false;
            let ghost first = *self;
            let mut i: usize = 0;
            while i < mice.len()
                invariant
                    0 <= i <= mice.len(),
                    *self == first.after_mice(mice@, i as int),
                decreases mice.len() - i,
            {
                self.take_mouse(mice[i]);
                i += 1;
            }
            true
        } else if touches.len() > 0 {
            self.last_position = self.current_position;
            let ghost first = *self;
            let mut i: usize = 0;
            while i < touches.len()
                invariant
                    0 <= i <= touches.len(),
                    *self == first.after_touches(touches@, i as int),
                decreases touches.len() - i,
            {
                self.take_touch(touches[i]);
                i += 1;
            }
            true
        } else {
            false
        }
    }

    /// The CSS name of the cursor to show.
    pub fn cursor_string(&self) -> (name: &'static str)
        ensures
            name@ == self.cursor_style.css_spec(self.is_pressed),
    {
        self.cursor_style.to_css_string(self.is_pressed)
    }
}

/// Pointer samples change neither the cursor nor whether a block is being
/// dragged.
pub proof fn lemma_mice_keep_cursor(s: MouseState, events: Seq<MouseEvent>, n: int)
    ensures
        s.after_mice(events, n).cursor_style == s.cursor_style,
        s.after_mice(events, n).is_dragging_cube == s.is_dragging_cube,
        s.after_mice(events, n).last_position == s.last_position,
        s.after_mice(events, n).current_touch == s.current_touch,
    decreases n,
{
    if n > 0 {
        lemma_mice_keep_cursor(s, events, n - 1);
    }
}

/// Touch samples change neither the cursor nor whether a block is being
/// dragged.
pub proof fn lemma_touches_keep_cursor(s: MouseState, events: Seq<TouchEvent>, n: int)
    ensures
        s.after_touches(events, n).cursor_style == s.cursor_style,
        s.after_touches(events, n).is_dragging_cube == s.is_dragging_cube,
        s.after_touches(events, n).last_position == s.last_position,
    decreases n,
{
    if n > 0 {
        lemma_touches_keep_cursor(s, events, n - 1);
    }
}

/// The samples of a frame change neither the cursor nor whether a block is
/// being dragged, and the last position becomes what the current one was
/// where there is any sample.
pub proof fn lemma_frame_keeps_cursor(s: MouseState, mice: Seq<MouseEvent>, touches: Seq<TouchEvent>)
    ensures
        s.after_frame(mice, touches).cursor_style == s.cursor_style,
        s.after_frame(mice, touches).is_dragging_cube == s.is_dragging_cube,
        mice.len() > 0 || touches.len() > 0 ==> s.after_frame(mice, touches).last_position
            == s.current_position,
{
    lemma_mice_keep_cursor(
        MouseState { last_position: s.current_position, just_released: false, ..s },
        mice,
        mice.len() as int,
    );
    lemma_touches_keep_cursor(
        MouseState { last_position: s.current_position, ..s },
        touches,
        touches.len() as int,
    );
}

} // verus!
