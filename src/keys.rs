//! Mouse input: the cursor position and the pressed and released flags of
//! each button, refreshed once per frame.
use vstd::prelude::*;

verus! {

/// The mouse buttons that are tracked.
#[derive(Clone, Copy, Debug, PartialEq, Eq, Structural)]
pub enum MouseBtn {
    LEFT,
    MIDDLE,
    RIGHT,
    X1,
    X2,
}

/// Where the state of a button is kept.
pub open spec fn btn_index(btn: MouseBtn) -> int {
    match btn {
        MouseBtn::LEFT => 0,
        MouseBtn::MIDDLE => 1,
        MouseBtn::RIGHT => 2,
        MouseBtn::X1 => 3,
        MouseBtn::X2 => 4,
    }
}

/// State of a key or a mouse button in the current frame.
#[derive(Clone, Copy, Debug, PartialEq, Eq, Structural)]
pub struct State {
    pub is_pressed: bool,
    pub is_released: bool,
}

impl Default for State {
    /// Neither pressed nor released.
    fn default() -> (s: Self)
        ensures
            s == (State { is_pressed: false, is_released: false }),
    {
        State { is_pressed: false, is_released: false }
    }
}

/// One mouse event of the host, with the position already in sprite pixels.
#[derive(Clone, Copy, Debug, PartialEq, Eq, Structural)]
pub enum MouseEvent {
    /// The cursor moved to `(x, y)`; bit `i` of `held` is set when the button
    /// of index `i` (left, middle, right, x1, x2) is held down.
    Motion { x: usize, y: usize, held: u32 },
    /// A button went down.
    ButtonDown(MouseBtn),
    /// A button went up.
    ButtonUp(MouseBtn),
}

impl MouseEvent {
    /// A motion to window position `(x, y)` of a screen whose pixels are
    /// `pixel_width` by `pixel_height` window pixels: the position in screen
    /// pixels, a negative coordinate taken as 0.
    pub fn motion(x: i32, y: i32, held: u32, pixel_width: usize, pixel_height: usize) -> (e: MouseEvent)
        requires
            pixel_width > 0,
            pixel_height > 0,
        ensures
            e == (MouseEvent::Motion {
                x: if x < 0 { 0 } else { (x as int / pixel_width as int) as usize },
                y: if y < 0 { 0 } else { (y as int / pixel_height as int) as usize },
                held,
            }),
    {
        let sx: usize = if x < 0 {
            0
        } else {
            x as usize / pixel_width
        };
        let sy: usize = if y < 0 {
            0
        } else {
            y as usize / pixel_height
        };
        MouseEvent::Motion { x: sx, y: sy, held }
    }
}

/// Whether bit `i` of a held-button mask is set.
pub open spec fn held_bit(held: u32, i: int) -> bool {
    (held >> (i as u32)) & 1u32 == 1u32
}

/// Mouse state: the cursor position and the state of each of the five
/// buttons.
#[derive(Clone, Copy, Debug)]
pub struct MouseState {
    mouse_x: usize,
    mouse_y: usize,
    states: [State; 5],
}

impl MouseState {
    pub closed spec fn spec_x(&self) -> usize {
        self.mouse_x
    }

    pub closed spec fn spec_y(&self) -> usize {
        self.mouse_y
    }

    /// The states of the buttons, by index.
    pub closed spec fn spec_states(&self) -> Seq<State> {
        self.states@
    }

    /// The state of one button.
    pub open spec fn spec_button(&self, btn: MouseBtn) -> State {
        self.spec_states()[btn_index(btn)]
    }

    /// There are five button states.
    pub broadcast proof fn lemma_five_states(m: MouseState)
        ensures
            #[trigger] m.spec_states().len() == 5,
    {
    }

    /// A mouse at `(0, 0)` with no button pressed or released.
    pub closed spec fn new_spec() -> MouseState {
        let s = State { is_pressed: false, is_released: false };
        MouseState { mouse_x: 0, mouse_y: 0, states: [s, s, s, s, s] }
    }

    /// What a new mouse state holds.
    pub broadcast proof fn lemma_new_spec()
        ensures
            #[trigger] Self::new_spec().spec_x() == 0,
            Self::new_spec().spec_y() == 0,
            Self::new_spec().spec_states().len() == 5,
            forall|i: int|
                0 <= i < 5 ==> #[trigger] Self::new_spec().spec_states()[i] == (State {
                    is_pressed: false,
                    is_released: false,
                }),
    {
    }

    /// A mouse at `(0, 0)` with no button pressed or released.
    pub fn new() -> (m: Self)
        ensures
            m == Self::new_spec(),
            m.spec_x() == 0,
            m.spec_y() == 0,
            m.spec_states().len() == 5,
            forall|i: int| 0 <= i < 5 ==> #[trigger] m.spec_states()[i] == (State { is_pressed: false, is_released: false }),
    {
        let s = State { is_pressed: false, is_released: false };
        Self { mouse_x: 0, mouse_y: 0, states: [s, s, s, s, s] }
    }

    /// The cursor column.
    pub fn mouse_x(&self) -> (x: usize)
        ensures
            x == self.spec_x(),
    {
        self.mouse_x
    }

    /// The cursor row.
    pub fn mouse_y(&self) -> (y: usize)
        ensures
            y == self.spec_y(),
    {
        self.mouse_y
    }

    /// The state of button `btn`.
    pub fn button(&self, btn: MouseBtn) -> (s: &State)
        ensures
            *s == self.spec_button(btn),
    {
        let id = Self::mouse_btn_to_id(btn);
        &self.states[id]
    }

    /// Clears the pressed and released flags of every button; the position
    /// stays.
    pub fn reset(&mut self)
        ensures
            final(self).spec_x() == old(self).spec_x(),
            final(self).spec_y() == old(self).spec_y(),
            final(self).spec_states().len() == 5,
            forall|i: int| 0 <= i < 5 ==> #[trigger] final(self).spec_states()[i] == (State { is_pressed: false, is_released: false }),
    {
        let mut i: usize = 0;
        while i < 5
            invariant
                i <= 5,
                self.mouse_x == old(self).mouse_x,
                self.mouse_y == old(self).mouse_y,
                forall|j: int| 0 <= j < i ==> #[trigger] self.states@[j] == (State { is_pressed: false, is_released: false }),
            decreases 5 - i,
        {
            self.states.set(i, State { is_pressed: false, is_released: false });
            i += 1;
        }
    }

    /// Folds one event of the current frame into the state. A motion moves
    /// the cursor and sets every button's flags from the held mask (pressed
    /// when held, never released); a button going down is pressed and not
    /// released; a button going up is released and not pressed.
    pub fn update(&mut self, event: MouseEvent)
        ensures
            final(self).spec_states().len() == 5,
            match event {
                MouseEvent::Motion { x, y, held } => {
                    &&& final(self).spec_x() == x
                    &&& final(self).spec_y() == y
                    &&& forall|i: int|
                        0 <= i < 5 ==> #[trigger] final(self).spec_states()[i] == (State {
                            is_pressed: held_bit(held, i),
                            is_released: false,
                        })
                },
                MouseEvent::ButtonDown(btn) => {
                    &&& final(self).spec_x() == old(self).spec_x()
                    &&& final(self).spec_y() == old(self).spec_y()
                    &&& final(self).spec_states() == old(self).spec_states().update(
                        btn_index(btn),
                        State { is_pressed: true, is_released: false },
                    )
                },
                MouseEvent::ButtonUp(btn) => {
                    &&& final(self).spec_x() == old(self).spec_x()
                    &&& final(self).spec_y() == old(self).spec_y()
                    &&& final(self).spec_states() == old(self).spec_states().update(
                        btn_index(btn),
                        State { is_pressed: false, is_released: true },
                    )
                },
            },
    {
        match event {
            MouseEvent::Motion { x, y, held } => {
                self.mouse_x = x;
                self.mouse_y = y;
                self.reset();
                let mut i: u32 = 0;
                while i < 5
                    invariant
                        i <= 5,
                        self.mouse_x == x,
                        self.mouse_y == y,
                        forall|j: int|
                            0 <= j < i ==> #[trigger] self.states@[j] == (State {
                                is_pressed: held_bit(held, j),
                                is_released: false,
                            }),
                    decreases 5 - i,
                {
                    self.states.set(i as usize, State { is_pressed: (held >> i) & 1u32 == 1u32, is_released: false });
                    i += 1;
                }
            },
            MouseEvent::ButtonDown(btn) => {
                let id = Self::mouse_btn_to_id(btn);
                self.states.set(id, State { is_pressed: true, is_released: false });
            },
            MouseEvent::ButtonUp(btn) => {
                let id = Self::mouse_btn_to_id(btn);
                self.states.set(id, State { is_pressed: false, is_released: true });
            },
        }
    }

    /// Where the state of `btn` is kept.
    fn mouse_btn_to_id(btn: MouseBtn) -> (id: usize)
        ensures
            id == btn_index(btn),
    {
        match btn {
            MouseBtn::LEFT => 0,
            MouseBtn::MIDDLE => 1,
            MouseBtn::RIGHT => 2,
            MouseBtn::X1 => 3,
            MouseBtn::X2 => 4,
        }
    }
}

pub broadcast group group_mouse {
    MouseState::lemma_five_states,
    MouseState::lemma_new_spec,
}

} // verus!
