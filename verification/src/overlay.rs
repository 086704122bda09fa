//! The floating record button: its two states, how clicks, drags and menu
//! commands act on it, and the colours and geometry it is drawn with.
use vstd::prelude::*;

verus! {

/// Whether the button shows recording.
#[derive(Clone, Copy, Debug, PartialEq, Eq, Structural)]
pub enum OverlayState {
    Idle,
    Recording,
}

impl OverlayState {
    /// The other state.
    pub open spec fn spec_toggled(self) -> OverlayState {
        match self {
            OverlayState::Idle => OverlayState::Recording,
            OverlayState::Recording => OverlayState::Idle,
        }
    }

    /// The other state: a click or the hot key switches recording on or off.
    pub fn toggled(self) -> (r: OverlayState)
        ensures
            r == self.spec_toggled(),
    {
        match self {
            OverlayState::Idle => OverlayState::Recording,
            OverlayState::Recording => OverlayState::Idle,
        }
    }

    /// The value of the shared recording flag for this state.
    pub fn is_recording(self) -> (r: bool)
        ensures
            r == (self == OverlayState::Recording),
    {
        self == OverlayState::Recording
    }
}

/// Toggling twice gives back the state it started from.
pub proof fn law_toggle_twice_is_identity(s: OverlayState)
    ensures
        s.spec_toggled().spec_toggled() == s,
        s.spec_toggled() != s,
{
}

/// A colour channel brought into `0..=255`.
pub open spec fn clamp_channel(v: i32) -> int {
    if v < 0 {
        0
    } else if v > 255 {
        255
    } else {
        v as int
    }
}

/// The Win32 `COLORREF` value of a colour: red in the low byte, then green,
/// then blue, each channel clamped to `0..=255`.
pub open spec fn colorref(r: i32, g: i32, b: i32) -> int {
    clamp_channel(b) * 65536 + clamp_channel(g) * 256 + clamp_channel(r)
}

fn clamp_to_byte(v: i32) -> (r: u32)
    ensures
        r == clamp_channel(v),
        r <= 255,
{
    if v < 0 {
        0
    } else if v > 255 {
        255
    } else {
        v as u32
    }
}

/// Packs three colour channels into a `COLORREF` value.
pub fn make_colorref(r: i32, g: i32, b: i32) -> (c: u32)
    ensures
        c == colorref(r, g, b),
{
    let cr = clamp_to_byte(r);
    let cg = clamp_to_byte(g);
    let cb = clamp_to_byte(b);
    assert((cb << 16u32) | (cg << 8u32) | cr == cb * 65536 + cg * 256 + cr) by (bit_vector)
        requires
            cr <= 255,
            cg <= 255,
            cb <= 255,
    ;
    (cb << 16u32) | (cg << 8u32) | cr
}

/// The colours of the idle button, background then border; lighter while the
/// cursor is over it.
pub open spec fn idle_palette_spec(hover: bool) -> (int, int) {
    let base: i32 = if hover { 85 } else { 55 };
    let border: i32 = if hover { 110 } else { 75 };
    (colorref(base, base, (base + 8) as i32), colorref(border, border, (border + 5) as i32))
}

/// The colours of the idle button, background then border.
pub fn idle_palette(hover: bool) -> (r: (u32, u32))
    ensures
        (r.0 as int, r.1 as int) == idle_palette_spec(hover),
{
    let base: i32 = if hover { 85 } else { 55 };
    let border: i32 = if hover { 110 } else { 75 };
    (make_colorref(base, base, base + 8), make_colorref(border, border, border + 5))
}

/// The button's side in pixels when none is configured.
pub const DEFAULT_SIZE: u32 = 48;

/// The button's side: the configured one, or the default when it is zero.
pub fn overlay_size(size: u32) -> (r: u32)
    ensures
        r == if size > 0 { size } else { DEFAULT_SIZE },
{
    if size > 0 {
        size
    } else {
        DEFAULT_SIZE
    }
}

/// Where the button first appears: 20 pixels from the top and from the right
/// edge of the screen.
pub fn overlay_origin(screen_width: i32, size: i32) -> (r: (i32, i32))
    requires
        i32::MIN <= screen_width - size - 20,
        screen_width - size <= i32::MAX,
    ensures
        r.0 == screen_width - size - 20,
        r.1 == 20,
{
    (screen_width - size - 20, 20)
}

/// A point on the screen, in pixels.
#[derive(Clone, Copy, Debug, PartialEq, Eq, Structural)]
pub struct Point {
    pub x: i32,
    pub y: i32,
}

/// The commands of the button's context menu.
pub const ID_SETTINGS: usize = 1001;
/// The command that quits the program.
pub const ID_QUIT: usize = 1002;

/// What a menu command asks for.
#[derive(Clone, Copy, Debug, PartialEq, Eq, Structural)]
pub enum MenuCommand {
    Quit,
    Settings,
    Ignored,
}

/// What the menu command with this identifier asks for; only the low 16 bits
/// of the identifier count.
pub fn menu_command(wparam: usize) -> (r: MenuCommand)
    ensures
        r == if wparam % 0x10000 == ID_QUIT {
            MenuCommand::Quit
        } else if wparam % 0x10000 == ID_SETTINGS {
            MenuCommand::Settings
        } else {
            MenuCommand::Ignored
        },
{
    let id = wparam % 0x10000;
    if id == ID_QUIT {
        MenuCommand::Quit
    } else if id == ID_SETTINGS {
        MenuCommand::Settings
    } else {
        MenuCommand::Ignored
    }
}

/// Whether a press and a release at these points make a click rather than a
/// drag: less than five pixels apart along each axis.
pub open spec fn is_click(press: Point, release: Point) -> bool {
    let dx = release.x - press.x;
    let dy = release.y - press.y;
    -5 < dx < 5 && -5 < dy < 5
}

/// The state of the button as mouse events reach it.
#[derive(Clone, Copy, Debug)]
pub struct OverlayInteraction {
    pub state: OverlayState,
    pub size: u32,
    pub dragging: bool,
    pub drag_offset: Point,
    pub click_pos: Point,
    pub hover: bool,
}

impl OverlayInteraction {
    /// A button at rest: idle, default size, not dragged, not hovered.
    pub fn new() -> (o: OverlayInteraction)
        ensures
            o.state == OverlayState::Idle,
            o.size == DEFAULT_SIZE,
            !o.dragging,
            o.drag_offset == (Point { x: 0, y: 0 }),
            o.click_pos == (Point { x: 0, y: 0 }),
            !o.hover,
    {
        OverlayInteraction {
            state: OverlayState::Idle,
            size: DEFAULT_SIZE,
            dragging: false,
            drag_offset: Point { x: 0, y: 0 },
            click_pos: Point { x: 0, y: 0 },
            hover: false,
        }
    }

    /// Switches between idle and recording, and gives the new state.
    pub fn toggle(&mut self) -> (s: OverlayState)
        ensures
            s == old(self).state.spec_toggled(),
            *final(self) == (OverlayInteraction { state: s, ..*old(self) }),
    {
        self.state = self.state.toggled();
        self.state
    }

    /// The left button goes down at `cursor` on a window whose top-left
    /// corner is `window_origin`: a drag starts, holding the window by that point.
    pub fn press(&mut self, cursor: Point, window_origin: Point)
        requires
            i32::MIN <= cursor.x - window_origin.x <= i32::MAX,
            i32::MIN <= cursor.y - window_origin.y <= i32::MAX,
        ensures
            *final(self) == (OverlayInteraction {
                click_pos: cursor,
                drag_offset: Point {
                    x: (cursor.x - window_origin.x) as i32,
                    y: (cursor.y - window_origin.y) as i32,
                },
                dragging: true,
                ..*old(self)
            }),
    {
        self.click_pos = cursor;
        self.drag_offset = Point { x: cursor.x - window_origin.x, y: cursor.y - window_origin.y };
        self.dragging = true;
    }

    /// The left button comes up at `cursor`: the drag ends, and the state
    /// toggles when the cursor barely moved since the press.  The result says
    /// whether it toggled.
    pub fn release(&mut self, cursor: Point) -> (toggled: bool)
        requires
            i32::MIN < cursor.x - old(self).click_pos.x <= i32::MAX,
            i32::MIN < cursor.y - old(self).click_pos.y <= i32::MAX,
        ensures
            toggled == is_click(old(self).click_pos, cursor),
            *final(self) == (OverlayInteraction {
                state: if toggled { old(self).state.spec_toggled() } else { old(self).state },
                dragging: false,
                ..*old(self)
            }),
    {
        let dx = cursor.x - self.click_pos.x;
        let dy = cursor.y - self.click_pos.y;
        let toggled = -5 < dx && dx < 5 && -5 < dy && dy < 5;
        if toggled {
            self.state = self.state.toggled();
        }
        self.dragging = false;
        toggled
    }

    /// The cursor moves to `cursor`: hovering is noted unless dragging; while
    /// dragging, the result is where the window's top-left corner goes.
    pub fn mouse_move(&mut self, cursor: Point) -> (moved_to: Option<Point>)
        requires
            old(self).dragging ==> i32::MIN <= cursor.x - old(self).drag_offset.x <= i32::MAX,
            old(self).dragging ==> i32::MIN <= cursor.y - old(self).drag_offset.y <= i32::MAX,
        ensures
            *final(self) == (OverlayInteraction {
                hover: if old(self).dragging { old(self).hover } else { true },
                ..*old(self)
            }),
            moved_to == if old(self).dragging {
                Some(
                    Point {
                        x: (cursor.x - old(self).drag_offset.x) as i32,
                        y: (cursor.y - old(self).drag_offset.y) as i32,
                    },
                )
            } else {
                None
            },
    {
        if !self.dragging {
            self.hover = true;
            None
        } else {
            Some(Point { x: cursor.x - self.drag_offset.x, y: cursor.y - self.drag_offset.y })
        }
    }
}

/// A drag keeps the window under the point where it was grabbed: after a
/// press at `grab` on a window at `origin`, moving the cursor to `cursor` puts
/// the window where the grabbed point lies under the cursor again.
pub proof fn law_drag_keeps_grab_point(grab: Point, origin: Point, cursor: Point)
    requires
        i32::MIN <= grab.x - origin.x <= i32::MAX,
        i32::MIN <= grab.y - origin.y <= i32::MAX,
        i32::MIN <= cursor.x - (grab.x - origin.x) <= i32::MAX,
        i32::MIN <= cursor.y - (grab.y - origin.y) <= i32::MAX,
    ensures
        ({
            let offset = Point { x: (grab.x - origin.x) as i32, y: (grab.y - origin.y) as i32 };
            let at = Point { x: (cursor.x - offset.x) as i32, y: (cursor.y - offset.y) as i32 };
            at.x + offset.x == cursor.x && at.y + offset.y == cursor.y
        }),
{
}

/// A press and release on the same spot is a click and toggles the button;
/// one that moves five pixels or more along an axis is a drag and does not.
pub proof fn law_click_versus_drag(p: Point, q: Point)
    ensures
        p == q ==> is_click(p, q),
        (q.x - p.x >= 5 || p.x - q.x >= 5 || q.y - p.y >= 5 || p.y - q.y >= 5) ==> !is_click(p, q),
{
}

/// A colour value holds blue in bits 16 to 23, green in bits 8 to 15 and red
/// in bits 0 to 7, each channel clamped to 0..=255: in-range channels are
/// kept, negative ones become 0 and larger ones 255.
pub proof fn law_colorref_channels(r: i32, g: i32, b: i32)
    ensures
        0 <= colorref(r, g, b) <= 0xFF_FFFF,
        0 <= r <= 255 && 0 <= g <= 255 && 0 <= b <= 255 ==> colorref(r, g, b) == r + g * 256 + b
            * 65536,
        r < 0 ==> colorref(r, g, b) == colorref(0, g, b),
        r > 255 ==> colorref(r, g, b) == colorref(255, g, b),
        g < 0 ==> colorref(r, g, b) == colorref(r, 0, b),
        g > 255 ==> colorref(r, g, b) == colorref(r, 255, b),
        b < 0 ==> colorref(r, g, b) == colorref(r, g, 0),
        b > 255 ==> colorref(r, g, b) == colorref(r, g, 255),
{
}

} // verus!
