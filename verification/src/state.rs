use vstd::prelude::*;

verus! {

/// Width of the compact notch.
pub const WIDTH: u32 = 280;

/// Height of the compact notch.
pub const HEIGHT: u32 = 44;

/// Width of the expanded notch.
pub const EXPANDED_WIDTH: u32 = 420;

/// Height of the expanded notch.
pub const EXPANDED_HEIGHT: u32 = 320;

/// Space the compact notch reserves at the top edge.
pub const COMPACT_EXCLUSIVE_ZONE: i32 = 37;

/// Space the expanded notch reserves: none, it floats over other windows.
pub const EXPANDED_EXCLUSIVE_ZONE: i32 = 0;

/// Linux input event code of the left mouse button.
pub const BTN_LEFT: u32 = 0x110;

/// Whether the notch shows its compact bar or its expanded panel.
#[derive(Clone, Copy, Debug, PartialEq, Eq, Structural)]
pub enum NotchMode {
    Compact,
    Expanded,
}

/// Size and reserved zone that the layer surface is given for a mode.
#[derive(Clone, Copy, Debug, PartialEq, Eq, Structural)]
pub struct ModeLayout {
    pub width: u32,
    pub height: u32,
    pub exclusive_zone: i32,
}

/// A capability that a seat announces or withdraws.
#[derive(Clone, Copy, Debug, PartialEq, Eq, Structural)]
pub enum SeatCapability {
    Keyboard,
    Pointer,
    Touch,
}

/// One pointer event of a frame, as far as the notch cares: whether it
/// concerns the notch's own surface, and the button it pressed, if it is a
/// press.
#[derive(Clone, Copy, Debug, PartialEq, Eq, Structural)]
pub struct PointerInput {
    pub on_surface: bool,
    pub pressed_button: Option<u32>,
}

impl NotchMode {
    /// The other mode.
    pub open spec fn flipped(self) -> NotchMode {
        match self {
            NotchMode::Compact => NotchMode::Expanded,
            NotchMode::Expanded => NotchMode::Compact,
        }
    }

    /// The layout the layer surface gets in this mode.
    pub open spec fn layout_of(self) -> ModeLayout {
        match self {
            NotchMode::Compact => ModeLayout {
                width: WIDTH,
                height: HEIGHT,
                exclusive_zone: COMPACT_EXCLUSIVE_ZONE,
            },
            NotchMode::Expanded => ModeLayout {
                width: EXPANDED_WIDTH,
                height: EXPANDED_HEIGHT,
                exclusive_zone: EXPANDED_EXCLUSIVE_ZONE,
            },
        }
    }

    /// The mode reached from this one by `k` toggles.
    pub open spec fn after_toggles(self, k: nat) -> NotchMode
        decreases k,
    {
        if k == 0 {
            self
        } else {
            self.after_toggles((k - 1) as nat).flipped()
        }
    }

    /// The other mode.
    pub fn toggled(self) -> (m: NotchMode)
        ensures
            m == self.flipped(),
    {
        match self {
            NotchMode::Compact => NotchMode::Expanded,
            NotchMode::Expanded => NotchMode::Compact,
        }
    }

    /// The layout the layer surface gets in this mode.
    pub fn layout(self) -> (l: ModeLayout)
        ensures
            l == self.layout_of(),
    {
        match self {
            NotchMode::Compact => ModeLayout {
                width: WIDTH,
                height: HEIGHT,
                exclusive_zone: COMPACT_EXCLUSIVE_ZONE,
            },
            NotchMode::Expanded => ModeLayout {
                width: EXPANDED_WIDTH,
                height: EXPANDED_HEIGHT,
                exclusive_zone: EXPANDED_EXCLUSIVE_ZONE,
            },
        }
    }
}

/// Whether a pointer event toggles the notch: a left-button press on the
/// notch's own surface.
pub open spec fn is_toggle_press(e: PointerInput) -> bool {
    e.on_surface && e.pressed_button == Some(BTN_LEFT)
}

/// How many events of a frame toggle the notch.
pub open spec fn toggle_presses(events: Seq<PointerInput>) -> nat
    decreases events.len(),
{
    if events.len() == 0 {
        0
    } else {
        toggle_presses(events.drop_last()) + if is_toggle_press(events.last()) {
            1nat
        } else {
            0nat
        }
    }
}

/// The size the notch takes when the compositor configures it to
/// `new_width` by `new_height` in `mode`: a zero in either direction means
/// "your choice", for which the mode's own size is used.
pub open spec fn configured_size(mode: NotchMode, new_width: u32, new_height: u32) -> (u32, u32) {
    (
        if new_width == 0 {
            mode.layout_of().width
        } else {
            new_width
        },
        if new_height == 0 {
            mode.layout_of().height
        } else {
            new_height
        },
    )
}

/// The notch's own state: the size it was configured to, its mode, whether
/// the first configure is still to come, whether the compositor closed it,
/// and whether it holds a pointer.
#[derive(Clone, Copy, Debug, PartialEq, Eq, Structural)]
pub struct NotchState {
    pub width: u32,
    pub height: u32,
    pub mode: NotchMode,
    pub first_configure: bool,
    pub exit: bool,
    pub has_pointer: bool,
}

impl NotchState {
    /// A fresh notch: compact, at the compact size, waiting for its first
    /// configure, holding no pointer.
    pub fn new() -> (s: NotchState)
        ensures
            s == (NotchState {
                width: WIDTH,
                height: HEIGHT,
                mode: NotchMode::Compact,
                first_configure: true,
                exit: false,
                has_pointer: false,
            }),
    {
        NotchState {
            width: WIDTH,
            height: HEIGHT,
            mode: NotchMode::Compact,
            first_configure: true,
            exit: false,
            has_pointer: false,
        }
    }

    /// Whether the notch shows its expanded panel.
    pub fn is_expanded(&self) -> (b: bool)
        ensures
            b == (self.mode == NotchMode::Expanded),
    {
        match self.mode {
            NotchMode::Expanded => true,
            NotchMode::Compact => false,
        }
    }

    /// Switches to the other mode and returns the layout the layer surface
    /// is to be given for it (size and reserved zone, then a commit). The
    /// configured size itself changes only when the compositor configures
    /// the surface again.
    pub fn toggle_mode(&mut self) -> (l: ModeLayout)
        ensures
            *final(self) == (NotchState { mode: old(self).mode.flipped(), ..*old(self) }),
            l == final(self).mode.layout_of(),
    {
        self.mode = self.mode.toggled();
        self.mode.layout()
    }

    /// Takes the size the compositor configured; a zero in either direction
    /// means "your choice", for which the current mode's size is used. The
    /// first configure is then over.
    pub fn configure(&mut self, new_width: u32, new_height: u32)
        ensures
            (final(self).width, final(self).height) == configured_size(
                old(self).mode,
                new_width,
                new_height,
            ),
            final(self).first_configure == false,
            final(self).mode == old(self).mode,
            final(self).exit == old(self).exit,
            final(self).has_pointer == old(self).has_pointer,
    {
        let layout = self.mode.layout();
        self.width = if new_width == 0 {
            layout.width
        } else {
            new_width
        };
        self.height = if new_height == 0 {
            layout.height
        } else {
            new_height
        };
        self.first_configure = false;
    }

    /// The compositor closed the surface: the event loop is to stop.
    pub fn closed(&mut self)
        ensures
            *final(self) == (NotchState { exit: true, ..*old(self) }),
    {
        self.exit = true;
    }

    /// A seat announced a capability. Returns whether a pointer is to be
    /// taken now: only for a pointer capability, and only while the notch
    /// holds none.
    pub fn new_capability(&mut self, capability: SeatCapability) -> (take: bool)
        ensures
            take == (capability == SeatCapability::Pointer && !old(self).has_pointer),
            *final(self) == (NotchState {
                has_pointer: old(self).has_pointer || take,
                ..*old(self)
            }),
    {
        match capability {
            SeatCapability::Pointer => {
                if self.has_pointer {
                    false
                } else {
                    self.has_pointer = true;
                    true
                }
            },
            _ => false,
        }
    }

    /// A seat withdrew a capability. Returns whether the pointer held is to
    /// be released: only for a pointer capability, and only while one is
    /// held.
    pub fn remove_capability(&mut self, capability: SeatCapability) -> (release: bool)
        ensures
            release == (capability == SeatCapability::Pointer && old(self).has_pointer),
            *final(self) == (NotchState {
                has_pointer: old(self).has_pointer && !release,
                ..*old(self)
            }),
    {
        match capability {
            SeatCapability::Pointer => {
                if self.has_pointer {
                    self.has_pointer = false;
                    true
                } else {
                    false
                }
            },
            _ => false,
        }
    }

    /// Handles a frame of pointer events: each left-button press on the
    /// notch's surface toggles the mode. Returns, in order, the layout to
    /// apply for each toggle.
    pub fn pointer_frame(&mut self, events: &Vec<PointerInput>) -> (layouts: Vec<ModeLayout>)
        ensures
            *final(self) == (NotchState {
                mode: old(self).mode.after_toggles(toggle_presses(events@)),
                ..*old(self)
            }),
            layouts.len() == toggle_presses(events@),
            forall|j: int|
                0 <= j < layouts.len() ==> #[trigger] layouts[j] == old(self).mode.after_toggles(
                    (j + 1) as nat,
                ).layout_of(),
    {
        let ghost start = *self;
        let mut layouts: Vec<ModeLayout> = Vec::new();
        let mut i: usize = 0;
        assert(events@.take(0) =~= Seq::<PointerInput>::empty());
        while i < events.len()
            invariant
                i <= events.len(),
                *self == (NotchState {
                    mode: start.mode.after_toggles(toggle_presses(events@.take(i as int))),
                    ..start
                }),
                layouts.len() == toggle_presses(events@.take(i as int)),
                forall|j: int|
                    0 <= j < layouts.len() ==> #[trigger] layouts[j]
                        == start.mode.after_toggles((j + 1) as nat).layout_of(),
            decreases events.len() - i,
        {
            let e = events[i];
            assert(events@.take(i + 1).drop_last() =~= events@.take(i as int));
            assert(events@.take(i + 1).last() == e);
            let is_left_press = match e.pressed_button {
                Some(button) => button == BTN_LEFT,
                None => false,
            };
            if e.on_surface && is_left_press {
                let l = self.toggle_mode();
                layouts.push(l);
            }
            i = i + 1;
        }
        assert(events@.take(events.len() as int) =~= events@);
        layouts
    }
}

/// Toggling twice brings the notch back to the mode it started in.
pub proof fn lemma_toggle_twice(m: NotchMode)
    ensures
        m.flipped().flipped() == m,
{
}

/// A frame with an even number of toggling presses leaves the mode as it
/// was; an odd number switches it.
pub proof fn lemma_toggle_parity(m: NotchMode, k: nat)
    ensures
        m.after_toggles(k) == (if k % 2 == 0 {
            m
        } else {
            m.flipped()
        }),
    decreases k,
{
    if k > 0 {
        lemma_toggle_parity(m, (k - 1) as nat);
    }
}

/// Once configured, the notch has a size in both directions, and a
/// "your choice" configure gives the size of its mode.
pub proof fn lemma_configured_size(mode: NotchMode, new_width: u32, new_height: u32)
    ensures
        configured_size(mode, new_width, new_height).0 > 0,
        configured_size(mode, new_width, new_height).1 > 0,
        configured_size(mode, 0, 0) == (mode.layout_of().width, mode.layout_of().height),
{
}

/// The expanded panel is larger than the compact bar in both directions and
/// reserves no more space.
pub proof fn lemma_expanded_is_larger()
    ensures
        NotchMode::Expanded.layout_of().width > NotchMode::Compact.layout_of().width,
        NotchMode::Expanded.layout_of().height > NotchMode::Compact.layout_of().height,
        NotchMode::Expanded.layout_of().exclusive_zone
            <= NotchMode::Compact.layout_of().exclusive_zone,
{
}

/// A frame toggles the notch once for each of its events that presses the
/// left button (event code 0x110) on the notch's own surface, and for no
/// other event.
pub proof fn lemma_toggles_are_left_presses(events: Seq<PointerInput>)
    ensures
        toggle_presses(events) == events.filter(
            |e: PointerInput| e.on_surface && e.pressed_button == Some(0x110u32),
        ).len(),
    decreases events.len(),
{
    reveal(Seq::filter);
    if events.len() > 0 {
        lemma_toggles_are_left_presses(events.drop_last());
    }
}

/// Adding an event to a frame adds one toggle when the event is a press of
/// the left button (0x110) on the notch's surface, and none otherwise: other
/// buttons, releases, motion and events elsewhere leave the mode alone.
pub proof fn lemma_toggle_step(events: Seq<PointerInput>, e: PointerInput)
    ensures
        toggle_presses(events.push(e)) == toggle_presses(events) + if e.on_surface
            && e.pressed_button == Some(0x110u32) {
            1nat
        } else {
            0nat
        },
{
    assert(events.push(e).drop_last() =~= events);
}

/// A frame without a left-button press on the notch's surface toggles
/// nothing: the mode after it is the mode before it.
pub proof fn lemma_no_left_press_no_toggle(m: NotchMode, events: Seq<PointerInput>)
    requires
        forall|i: int|
            0 <= i < events.len() ==> !(#[trigger] events[i].on_surface && events[i].pressed_button
                == Some(0x110u32)),
    ensures
        toggle_presses(events) == 0,
        m.after_toggles(toggle_presses(events)) == m,
    decreases events.len(),
{
    if events.len() > 0 {
        let t = events.drop_last();
        assert forall|i: int| 0 <= i < t.len() implies !(#[trigger] t[i].on_surface
            && t[i].pressed_button == Some(0x110u32)) by {
            assert(t[i] == events[i]);
        }
        lemma_no_left_press_no_toggle(m, t);
        assert(events.last() == events[events.len() - 1]);
    }
}

/// The compact bar is 280 by 44 pixels and reserves 37 pixels at the top;
/// the expanded panel is 420 by 320 and reserves nothing.
pub proof fn lemma_mode_layouts()
    ensures
        NotchMode::Compact.layout_of() == (ModeLayout { width: 280, height: 44, exclusive_zone: 37 }),
        NotchMode::Expanded.layout_of() == (ModeLayout {
            width: 420,
            height: 320,
            exclusive_zone: 0,
        }),
        NotchMode::Compact.flipped() == NotchMode::Expanded,
        NotchMode::Expanded.flipped() == NotchMode::Compact,
{
}

} // verus!
