use vstd::prelude::*;
use vstd::string::StringExecFns;
use crate::geometry::{Point, Size, in_rect};
use crate::layout::{Tile, TilingLayout, WindowGeometry, tile_of};
use crate::decorations::WindowDecoration;
use crate::dock::{Dock, default_entries};
use crate::launchpad::{Launchpad, with_apps, default_launch_entries};

verus! {

/// Stable handle of a window: unique for the life of the state, never reused.
pub type WindowId = u64;

/// One mapped top-level window.
#[derive(Clone, Debug)]
pub struct Window {
    pub id: WindowId,
    pub decoration: WindowDecoration,
}

/// A device event, as the backend hands it over. Coordinates are already in
/// logical screen units.
#[derive(Clone, Copy, Debug, PartialEq, Eq, Structural)]
pub enum InputEvent {
    /// Relative motion: observed, routed nowhere.
    PointerMotion,
    PointerMotionAbsolute { x: i32, y: i32, time: u32 },
    PointerButton { button: u32, pressed: bool, time: u32 },
    /// Scroll: observed, routed nowhere.
    PointerAxis,
    Keyboard { key: u32, pressed: bool, time: u32 },
}

/// A protocol event to deliver to clients, stamped with its serial.
#[derive(Clone, Copy, Debug, PartialEq, Eq, Structural)]
pub enum Dispatch {
    /// Pointer motion; `target` is the window under the cursor, if any.
    Motion { target: Option<usize>, location: Point, serial: u32, time: u32 },
    /// A button event for the surface that holds pointer focus.
    Button { button: u32, pressed: bool, serial: u32, time: u32 },
    /// A key event for the keyboard focus; keys are never filtered.
    Key { key: u32, pressed: bool, serial: u32, time: u32 },
}

/// What a client must be told when its window is mapped.
#[derive(Clone, Copy, Debug, PartialEq, Eq, Structural)]
pub struct Configure {
    pub id: WindowId,
    pub index: usize,
    pub geometry: WindowGeometry,
}

/// The part of the compositor state that the routing and lifecycle rules
/// read and change.
pub struct CoreModel {
    pub ids: Seq<WindowId>,
    pub focused: Option<usize>,
    pub pointer: Point,
    pub screen: Size,
    pub next_serial: int,
    pub next_id: int,
    pub has_pointer: bool,
    pub has_keyboard: bool,
}

/// Whether the tile contains the point (half-open on the right and bottom).
pub open spec fn tile_contains(t: Tile, p: Point) -> bool {
    in_rect(t.x, t.y, t.w, t.h, p.x as int, p.y as int)
}

/// Scans windows `k - 1` down to `0` of `total` and gives the first whose
/// tile contains `p`.
pub open spec fn hit_from(k: nat, total: nat, screen: Size, p: Point) -> Option<usize>
    decreases k,
{
    if k == 0 {
        None
    } else if tile_contains(tile_of(k - 1, total as int, screen.w as int, screen.h as int), p) {
        Some((k - 1) as usize)
    } else {
        hit_from((k - 1) as nat, total, screen, p)
    }
}

/// The topmost window under `p`.
pub open spec fn window_at_spec(m: CoreModel, p: Point) -> Option<usize> {
    hit_from(m.ids.len(), m.ids.len(), m.screen, p)
}

/// Focus may only name a live window.
pub open spec fn focus_valid(m: CoreModel) -> bool {
    match m.focused {
        Some(i) => i < m.ids.len(),
        None => true,
    }
}

pub open spec fn set_focus_spec(m: CoreModel, idx: Option<usize>) -> CoreModel {
    match idx {
        Some(i) => if i < m.ids.len() { CoreModel { focused: Some(i), ..m } } else { m },
        None => CoreModel { focused: None, ..m },
    }
}

pub open spec fn create_spec(m: CoreModel) -> CoreModel {
    CoreModel { ids: m.ids.push(m.next_id as WindowId), next_id: m.next_id + 1, ..m }
}

/// Focus after removing the window at `k`: cleared if it was that window,
/// moved down one if it was above it.
pub open spec fn focus_after_removal(f: Option<usize>, k: int) -> Option<usize> {
    match f {
        Some(i) => if i == k { None } else if i > k { Some((i - 1) as usize) } else { Some(i) },
        None => None,
    }
}

pub open spec fn destroy_spec(m: CoreModel, id: WindowId) -> CoreModel {
    if exists|k: int| 0 <= k < m.ids.len() && m.ids[k] == id {
        let k = choose|k: int| 0 <= k < m.ids.len() && m.ids[k] == id;
        CoreModel { ids: m.ids.remove(k), focused: focus_after_removal(m.focused, k), ..m }
    } else {
        m
    }
}

/// A serial is left to hand out.
pub open spec fn serial_left(m: CoreModel) -> bool {
    m.next_serial < u32::MAX
}

pub open spec fn take_serial(m: CoreModel) -> CoreModel {
    CoreModel { next_serial: m.next_serial + 1, ..m }
}

/// One routing step: the next model and the event it dispatches, if any.
pub open spec fn input_spec(m: CoreModel, e: InputEvent) -> (CoreModel, Option<Dispatch>) {
    match e {
        InputEvent::PointerMotionAbsolute { x, y, time } => {
            let p = Point { x, y };
            let m1 = CoreModel { pointer: p, ..m };
            if m.has_pointer && serial_left(m) {
                (
                    take_serial(m1),
                    Some(Dispatch::Motion { target: window_at_spec(m1, p), location: p, serial: m.next_serial as u32, time }),
                )
            } else {
                (m1, None)
            }
        },
        InputEvent::PointerButton { button, pressed, time } => {
            let m1 = if pressed { set_focus_spec(m, window_at_spec(m, m.pointer)) } else { m };
            if m.has_pointer && serial_left(m) {
                (take_serial(m1), Some(Dispatch::Button { button, pressed, serial: m.next_serial as u32, time }))
            } else {
                (m1, None)
            }
        },
        InputEvent::Keyboard { key, pressed, time } => {
            if m.has_keyboard && serial_left(m) {
                (take_serial(m), Some(Dispatch::Key { key, pressed, serial: m.next_serial as u32, time }))
            } else {
                (m, None)
            }
        },
        _ => (m, None),
    }
}

/// Decimal digit `d` (0 to 9) as a character.
pub open spec fn digit_char(d: nat) -> char {
    if d == 0 { '0' } else if d == 1 { '1' } else if d == 2 { '2' } else if d == 3 { '3' }
    else if d == 4 { '4' } else if d == 5 { '5' } else if d == 6 { '6' } else if d == 7 { '7' }
    else if d == 8 { '8' } else { '9' }
}

/// `n` written in decimal, without sign or leading zeros.
pub open spec fn decimal(n: nat) -> Seq<char>
    decreases n,
{
    if n < 10 { seq![digit_char(n)] } else { decimal(n / 10) + seq![digit_char(n % 10)] }
}

/// Relies on `format!` with the standard `Display` of `u64`: the decimal
/// digits of `n`, without sign, padding or leading zeros.
#[verifier::external_body]
fn decimal_string(n: u64) -> (r: String)
    ensures
        r@ == decimal(n as nat),
{
    format!("{}", n)
}

/// Window `j` of `n` shows whether it is focused and has its tile's size.
pub open spec fn window_synced(w: Window, j: int, n: int, focused: Option<usize>, screen: Size) -> bool {
    let t = tile_of(j, n, screen.w as int, screen.h as int);
    &&& w.decoration.is_focused == (focused == Some(j as usize))
    &&& w.decoration.width == t.w
    &&& w.decoration.height == t.h
}

/// At most the focused window is flagged as focused, and every frame has
/// the size the layout grants.
pub open spec fn decorations_synced(ws: Seq<Window>, focused: Option<usize>, screen: Size) -> bool {
    forall|j: int| 0 <= j < ws.len() ==> window_synced(#[trigger] ws[j], j, ws.len() as int, focused, screen)
}

/// The same windows in the same order: handles, titles and maximized flags
/// agree; focus flags and frame sizes may differ.
pub open spec fn same_records(a: Seq<Window>, b: Seq<Window>) -> bool {
    &&& a.len() == b.len()
    &&& forall|j: int| 0 <= j < a.len() ==> {
        &&& (#[trigger] a[j]).id == b[j].id
        &&& a[j].decoration.title@ == b[j].decoration.title@
        &&& a[j].decoration.is_maximized == b[j].decoration.is_maximized
    }
}

/// The title generated for the window at 0-based position `index`.
pub open spec fn window_title(index: nat) -> Seq<char> {
    "Window "@ + decimal(index + 1)
}

/// The compositor's single owned aggregate: window list in stacking order
/// (last is topmost), focus, pointer, seat devices, serials and layout.
pub struct MirageState {
    pub windows: Vec<Window>,
    pub pointer_pos: Point,
    pub focused_window: Option<usize>,
    pub layout: TilingLayout,
    pub has_pointer: bool,
    pub has_keyboard: bool,
    pub next_serial: u32,
    pub next_window_id: WindowId,
    pub dock: Dock,
    pub launchpad: Launchpad,
}

impl MirageState {
    pub open spec fn ids(&self) -> Seq<WindowId> {
        self.windows@.map_values(|w: Window| w.id)
    }

    pub open spec fn model(&self) -> CoreModel {
        CoreModel {
            ids: self.ids(),
            focused: self.focused_window,
            pointer: self.pointer_pos,
            screen: self.layout.screen_size,
            next_serial: self.next_serial as int,
            next_id: self.next_window_id as int,
            has_pointer: self.has_pointer,
            has_keyboard: self.has_keyboard,
        }
    }

    /// Focus names a live window; handles are distinct and below the next one.
    pub open spec fn handles_ok(&self) -> bool {
        &&& focus_valid(self.model())
        &&& forall|i: int| 0 <= i < self.windows.len() ==> (#[trigger] self.windows@[i]).id < self.next_window_id
        &&& forall|i: int, j: int| 0 <= i < j < self.windows.len() ==> self.windows@[i].id != self.windows@[j].id
    }

    /// Focus names a live window; handles are distinct and below the next
    /// one; every decoration shows its window's focus and granted size.
    pub open spec fn wf(&self) -> bool {
        &&& self.handles_ok()
        &&& decorations_synced(self.windows@, self.focused_window, self.layout.screen_size)
    }

    /// Brings every decoration's focus flag and frame size in line with the
    /// focus and the layout; nothing else changes.
    fn sync_decorations(&mut self)
        requires
            old(self).handles_ok(),
        ensures
            final(self).wf(),
            same_records(final(self).windows@, old(self).windows@),
            *final(self) == (MirageState { windows: final(self).windows, ..*old(self) }),
            final(self).model() == old(self).model(),
    {
        let n = self.windows.len();
        let mut j: usize = 0;
        while j < n
            invariant
                j <= n,
                n == self.windows@.len(),
                n == old(self).windows@.len(),
                *self == (MirageState { windows: self.windows, ..*old(self) }),
                same_records(self.windows@, old(self).windows@),
                forall|k: int| j <= k < n ==> self.windows@[k] == old(self).windows@[k],
                forall|k: int| 0 <= k < j ==> window_synced(#[trigger] self.windows@[k], k, n as int, self.focused_window, self.layout.screen_size),
            decreases n - j,
        {
            let g = self.layout.calculate_geometry(j, n);
            let focused = match self.focused_window {
                Some(f) => f == j,
                None => false,
            };
            let ghost prev = self.windows@;
            let mut w = self.windows.remove(j);
            w.decoration.is_focused = focused;
            w.decoration.width = g.size.w;
            w.decoration.height = g.size.h;
            self.windows.insert(j, w);
            proof {
                assert(self.windows@ =~= prev.update(j as int, w));
            }
            j = j + 1;
        }
        proof {
            assert(self.ids() =~= old(self).ids());
        }
    }

    /// A state with no windows, the pointer at the origin and no seat devices.
    pub fn new(screen_width: i32, screen_height: i32) -> (r: MirageState)
        ensures
            r.wf(),
            r.windows@.len() == 0,
            r.focused_window.is_none(),
            r.pointer_pos == (Point { x: 0, y: 0 }),
            r.layout.screen_size == (Size { w: screen_width, h: screen_height }),
            !r.has_pointer,
            !r.has_keyboard,
            r.next_serial == 1,
            r.next_window_id == 1,
            r.dock.wf(),
            r.dock.entries() == default_entries(),
            r.dock.standard_metrics(),
            r.launchpad.wf(),
            r.launchpad.entries() == with_apps(Seq::empty(), default_launch_entries()),
            r.launchpad.standard_settings(),
    {
        MirageState {
            windows: Vec::new(),
            pointer_pos: Point { x: 0, y: 0 },
            focused_window: None,
            layout: TilingLayout::new(screen_width, screen_height),
            has_pointer: false,
            has_keyboard: false,
            next_serial: 1,
            next_window_id: 1,
            dock: Dock::new(),
            launchpad: Launchpad::new(),
        }
    }

    /// Records which seat devices exist; they are created once.
    pub fn initialize_seat(&mut self, pointer: bool, keyboard: bool)
        requires
            old(self).wf(),
        ensures
            final(self).wf(),
            final(self).model() == (CoreModel { has_pointer: pointer, has_keyboard: keyboard, ..old(self).model() }),
            final(self).windows@ == old(self).windows@,
    {
        self.has_pointer = pointer;
        self.has_keyboard = keyboard;
    }

    /// Applies a new screen size to the layout.
    pub fn resize(&mut self, width: i32, height: i32)
        requires
            old(self).wf(),
        ensures
            final(self).wf(),
            final(self).model() == (CoreModel { screen: Size { w: width, h: height }, ..old(self).model() }),
            same_records(final(self).windows@, old(self).windows@),
    {
        self.layout.update_screen_size(width, height);
        self.sync_decorations();
    }

    /// The geometry of the window at `index` under the current layout.
    pub fn window_geometry(&self, index: usize) -> (r: WindowGeometry)
        requires
            index < self.windows.len(),
        ensures
            r.tile() == tile_of(index as int, self.windows.len() as int, self.layout.screen_size.w as int, self.layout.screen_size.h as int),
    {
        self.layout.calculate_geometry(index, self.windows.len())
    }

    /// The topmost window whose geometry contains `pos`.
    pub fn window_at(&self, pos: Point) -> (r: Option<usize>)
        ensures
            r == window_at_spec(self.model(), pos),
    {
        let n = self.windows.len();
        let mut idx: usize = n;
        while idx > 0
            invariant
                idx <= n,
                n == self.windows@.len(),
                n == self.ids().len(),
                hit_from(n as nat, n as nat, self.layout.screen_size, pos) == hit_from(idx as nat, n as nat, self.layout.screen_size, pos),
            decreases idx,
        {
            let geom = self.layout.calculate_geometry(idx - 1, n);
            if geom.contains_point(pos) {
                return Some(idx - 1);
            }
            idx = idx - 1;
        }
        None
    }

    /// Focuses a live window, or clears focus on `None`. A stale index
    /// leaves focus unchanged.
    pub fn set_focus(&mut self, idx: Option<usize>)
        requires
            old(self).wf(),
        ensures
            final(self).wf(),
            final(self).model() == set_focus_spec(old(self).model(), idx),
            same_records(final(self).windows@, old(self).windows@),
    {
        match idx {
            Some(i) => {
                if i < self.windows.len() {
                    self.focused_window = Some(i);
                }
            },
            None => {
                self.focused_window = None;
            },
        }
        self.sync_decorations();
    }
}


impl MirageState {
    /// Maps a new top-level window: it becomes topmost, gets a generated
    /// title, and is granted its tile under the new window count.
    pub fn new_toplevel(&mut self) -> (r: Configure)
        requires
            old(self).wf(),
            old(self).next_window_id < u64::MAX,
            old(self).windows.len() < usize::MAX,
        ensures
            final(self).wf(),
            final(self).model() == create_spec(old(self).model()),
            final(self).windows@.len() == old(self).windows@.len() + 1,
            same_records(final(self).windows@.drop_last(), old(self).windows@),
            final(self).windows@.last().id == old(self).next_window_id,
            final(self).windows@.last().decoration.title@ == window_title(old(self).windows@.len()),
            !final(self).windows@.last().decoration.is_maximized,
            r.id == old(self).next_window_id,
            r.index == old(self).windows@.len(),
            r.geometry.tile() == tile_of(
                old(self).windows@.len() as int,
                (old(self).windows@.len() + 1) as int,
                old(self).layout.screen_size.w as int,
                old(self).layout.screen_size.h as int,
            ),
    {
        let idx = self.windows.len();
        let ordinal: usize = idx + 1;
        let title = String::from_str("Window ").concat(decimal_string(ordinal as u64).as_str());
        let id = self.next_window_id;
        let decoration = WindowDecoration::new(title, 0, 0, false);
        self.windows.push(Window { id, decoration });
        self.next_window_id = id + 1;
        proof {
            assert(self.ids() =~= old(self).ids().push(id));
        }
        self.sync_decorations();
        proof {
            assert(self.windows@.drop_last().len() == old(self).windows@.len());
            assert forall|j: int| 0 <= j < old(self).windows@.len() implies self.windows@.drop_last()[j] == self.windows@[j] by {}
        }
        let geometry = self.layout.calculate_geometry(idx, self.windows.len());
        Configure { id, index: idx, geometry }
    }

    /// Unmaps the window with handle `id`, if it is live, and gives the
    /// position it held. Focus on it is cleared; focus above it follows its
    /// window down one place.
    pub fn toplevel_destroyed(&mut self, id: WindowId) -> (r: Option<usize>)
        requires
            old(self).wf(),
        ensures
            final(self).wf(),
            final(self).model() == destroy_spec(old(self).model(), id),
            match r {
                Some(k) => k < old(self).windows@.len() && old(self).windows@[k as int].id == id
                    && same_records(final(self).windows@, old(self).windows@.remove(k as int)),
                None => (forall|k: int| 0 <= k < old(self).windows@.len() ==> old(self).windows@[k].id != id)
                    && final(self).windows@ == old(self).windows@,
            },
    {
        let n = self.windows.len();
        let mut k: usize = 0;
        while k < n
            invariant
                k <= n,
                n == self.windows@.len(),
                forall|j: int| 0 <= j < k ==> self.windows@[j].id != id,
            ensures
                k <= n,
                forall|j: int| 0 <= j < k ==> self.windows@[j].id != id,
                k < n ==> self.windows@[k as int].id == id,
            decreases n - k,
        {
            if self.windows[k].id == id {
                break;
            }
            k = k + 1;
        }
        if k == n {
            proof {
                assert(!exists|j: int| 0 <= j < old(self).ids().len() && old(self).ids()[j] == id);
            }
            return None;
        }
        proof {
            let m = old(self).model();
            assert(m.ids[k as int] == id);
            let c = choose|j: int| 0 <= j < m.ids.len() && m.ids[j] == id;
            assert(c == k);
        }
        self.windows.remove(k);
        self.focused_window = match self.focused_window {
            Some(i) => if i == k { None } else if i > k { Some(i - 1) } else { Some(i) },
            None => None,
        };
        proof {
            assert(self.ids() =~= old(self).ids().remove(k as int));
            assert forall|i: int, j: int| 0 <= i < j < self.windows.len() implies self.windows@[i].id != self.windows@[j].id by {
                let oi = if i < k { i } else { i + 1 };
                let oj = if j < k { j } else { j + 1 };
                assert(self.windows@[i] == old(self).windows@[oi]);
                assert(self.windows@[j] == old(self).windows@[oj]);
            }
            assert forall|i: int| 0 <= i < self.windows.len() implies (#[trigger] self.windows@[i]).id < self.next_window_id by {
                let oi = if i < k { i } else { i + 1 };
                assert(self.windows@[i] == old(self).windows@[oi]);
            }
        }
        let ghost removed = self.windows@;
        self.sync_decorations();
        proof {
            assert(removed =~= old(self).windows@.remove(k as int));
        }
        Some(k)
    }

    fn take_serial(&mut self) -> (r: u32)
        requires
            old(self).next_serial < u32::MAX,
        ensures
            r == old(self).next_serial,
            *final(self) == (MirageState { next_serial: (old(self).next_serial + 1) as u32, ..*old(self) }),
    {
        let s = self.next_serial;
        self.next_serial = s + 1;
        s
    }

    /// Routes one device event: updates pointer and focus, and gives the
    /// protocol event to deliver with a fresh serial. When serials run out
    /// the event is still applied to the state but nothing is delivered.
    pub fn handle_input(&mut self, event: InputEvent) -> (r: Option<Dispatch>)
        requires
            old(self).wf(),
        ensures
            final(self).wf(),
            (final(self).model(), r) == input_spec(old(self).model(), event),
            same_records(final(self).windows@, old(self).windows@),
    {
        match event {
            InputEvent::PointerMotionAbsolute { x, y, time } => {
                let p = Point { x, y };
                self.pointer_pos = p;
                if self.has_pointer && self.next_serial < u32::MAX {
                    let target = self.window_at(p);
                    let serial = self.take_serial();
                    Some(Dispatch::Motion { target, location: p, serial, time })
                } else {
                    None
                }
            },
            InputEvent::PointerButton { button, pressed, time } => {
                if pressed {
                    let hit = self.window_at(self.pointer_pos);
                    self.set_focus(hit);
                }
                if self.has_pointer && self.next_serial < u32::MAX {
                    let serial = self.take_serial();
                    Some(Dispatch::Button { button, pressed, serial, time })
                } else {
                    None
                }
            },
            InputEvent::Keyboard { key, pressed, time } => {
                if self.has_keyboard && self.next_serial < u32::MAX {
                    let serial = self.take_serial();
                    Some(Dispatch::Key { key, pressed, serial, time })
                } else {
                    None
                }
            },
            _ => None,
        }
    }

    /// Drains one batch of device events in arrival order and gives the
    /// protocol events to deliver, in the same order.
    pub fn dispatch_batch(&mut self, events: &Vec<InputEvent>) -> (r: Vec<Dispatch>)
        requires
            old(self).wf(),
        ensures
            final(self).wf(),
            (final(self).model(), r@) == run_inputs(old(self).model(), events@),
            same_records(final(self).windows@, old(self).windows@),
    {
        let mut out: Vec<Dispatch> = Vec::new();
        let mut i: usize = 0;
        while i < events.len()
            invariant
                i <= events@.len(),
                self.wf(),
                same_records(self.windows@, old(self).windows@),
                (self.model(), out@) == run_inputs(old(self).model(), events@.take(i as int)),
            decreases events@.len() - i,
        {
            let d = self.handle_input(events[i]);
            proof {
                assert(events@.take(i as int + 1).drop_last() =~= events@.take(i as int));
            }
            match d {
                Some(x) => out.push(x),
                None => {},
            }
            i = i + 1;
        }
        proof {
            assert(events@.take(i as int) =~= events@);
        }
        out
    }
}

/// The serial an event carries.
pub open spec fn serial_of(d: Dispatch) -> u32 {
    match d {
        Dispatch::Motion { serial, .. } => serial,
        Dispatch::Button { serial, .. } => serial,
        Dispatch::Key { serial, .. } => serial,
    }
}

/// Routes a sequence of events in order: the final model and the events
/// dispatched, in order.
pub open spec fn run_inputs(m: CoreModel, es: Seq<InputEvent>) -> (CoreModel, Seq<Dispatch>)
    decreases es.len(),
{
    if es.len() == 0 {
        (m, Seq::empty())
    } else {
        let (m1, ds) = run_inputs(m, es.drop_last());
        let (m2, d) = input_spec(m1, es.last());
        match d {
            Some(x) => (m2, ds.push(x)),
            None => (m2, ds),
        }
    }
}

/// The operations that change the window list or focus.
pub enum Operation {
    Create,
    Destroy(WindowId),
    /// Pointer moves to the point, then a button is pressed there.
    Click(Point),
}

pub open spec fn apply_op(m: CoreModel, op: Operation) -> CoreModel {
    match op {
        Operation::Create => create_spec(m),
        Operation::Destroy(id) => destroy_spec(m, id),
        Operation::Click(p) => {
            let moved = input_spec(m, InputEvent::PointerMotionAbsolute { x: p.x, y: p.y, time: 0 }).0;
            input_spec(moved, InputEvent::PointerButton { button: 0, pressed: true, time: 0 }).0
        },
    }
}

pub open spec fn apply_ops(m: CoreModel, ops: Seq<Operation>) -> CoreModel
    decreases ops.len(),
{
    if ops.len() == 0 { m } else { apply_op(apply_ops(m, ops.drop_last()), ops.last()) }
}

proof fn lemma_hit_in_range(k: nat, total: nat, screen: Size, p: Point)
    requires
        k <= total,
    ensures
        match hit_from(k, total, screen, p) {
            Some(i) => i < k,
            None => true,
        },
    decreases k,
{
    if k > 0 {
        lemma_hit_in_range((k - 1) as nat, total, screen, p);
    }
}

proof fn lemma_input_keeps_focus_valid(m: CoreModel, e: InputEvent)
    requires
        focus_valid(m),
    ensures
        focus_valid(input_spec(m, e).0),
        input_spec(m, e).0.ids == m.ids,
        input_spec(m, e).0.next_serial >= m.next_serial,
{
    lemma_hit_in_range(m.ids.len(), m.ids.len(), m.screen, m.pointer);
}

/// Focus never dangles: after any sequence of creations, destructions and
/// clicks, the focused window is absent or a live window.
pub proof fn focus_stays_valid(m: CoreModel, ops: Seq<Operation>)
    requires
        focus_valid(m),
    ensures
        focus_valid(apply_ops(m, ops)),
    decreases ops.len(),
{
    if ops.len() > 0 {
        focus_stays_valid(m, ops.drop_last());
        let m1 = apply_ops(m, ops.drop_last());
        match ops.last() {
            Operation::Create => {},
            Operation::Destroy(id) => {},
            Operation::Click(p) => {
                let e1 = InputEvent::PointerMotionAbsolute { x: p.x, y: p.y, time: 0 };
                lemma_input_keeps_focus_valid(m1, e1);
                lemma_input_keeps_focus_valid(input_spec(m1, e1).0, InputEvent::PointerButton { button: 0, pressed: true, time: 0 });
            },
        }
    }
}

/// Serials strictly increase: across any sequence of routed events, the
/// dispatched events carry strictly increasing serials, none below the
/// counter before the sequence and all below the counter after it.
pub proof fn serials_strictly_increase(m: CoreModel, es: Seq<InputEvent>)
    requires
        0 <= m.next_serial,
    ensures
        forall|i: int, j: int| 0 <= i < j < run_inputs(m, es).1.len()
            ==> serial_of(run_inputs(m, es).1[i]) < serial_of(run_inputs(m, es).1[j]),
        forall|i: int| 0 <= i < run_inputs(m, es).1.len()
            ==> m.next_serial <= serial_of(#[trigger] run_inputs(m, es).1[i]) < run_inputs(m, es).0.next_serial,
        m.next_serial <= run_inputs(m, es).0.next_serial,
    decreases es.len(),
{
    if es.len() > 0 {
        serials_strictly_increase(m, es.drop_last());
        let (m1, ds) = run_inputs(m, es.drop_last());
        let (m2, d) = input_spec(m1, es.last());
        assert(m2.next_serial >= m1.next_serial);
        match d {
            Some(x) => {
                assert(serial_of(x) == m1.next_serial);
                assert(m2.next_serial == m1.next_serial + 1);
                let out = ds.push(x);
                assert(forall|i: int| 0 <= i < ds.len() ==> out[i] == ds[i]);
            },
            None => {},
        }
    }
}

} // verus!
