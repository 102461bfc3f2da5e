use vstd::prelude::*;
use vstd::string::StringExecFns;
use crate::geometry::{Point, Rect, in_rect};
use crate::palette::Paint;

verus! {

/// A launchable program pinned to the dock.
#[derive(Clone, Debug)]
pub struct DockApp {
    pub name: String,
    pub icon_path: Option<String>,
    pub command: String,
    pub is_running: bool,
}

/// The dock: a row of pinned programs in a strip above the bottom edge.
pub struct Dock {
    pub apps: Vec<DockApp>,
    pub is_visible: bool,
    pub position_bottom: i32,
    pub icon_size: i32,
    pub icon_spacing: i32,
    pub background_height: i32,
}

pub open spec fn fits_i32(v: int) -> bool {
    i32::MIN <= v <= i32::MAX
}

/// Division rounding towards zero, as Rust's integer `/` does.
pub open spec fn trunc_div(a: int, d: int) -> int {
    if a >= 0 { a / d } else { -((-a) / d) }
}

/// What a dock entry holds, as plain values.
pub struct AppEntry {
    pub name: Seq<char>,
    pub icon_path: Option<Seq<char>>,
    pub command: Seq<char>,
    pub is_running: bool,
}

impl View for DockApp {
    type V = AppEntry;

    open spec fn view(&self) -> AppEntry {
        AppEntry {
            name: self.name@,
            icon_path: match self.icon_path {
                Some(p) => Some(p@),
                None => None,
            },
            command: self.command@,
            is_running: self.is_running,
        }
    }
}

/// A fresh entry: no icon, not running.
pub open spec fn entry(name: Seq<char>, command: Seq<char>) -> AppEntry {
    AppEntry { name, icon_path: None, command, is_running: false }
}

/// No two entries share a name.
pub open spec fn names_unique(apps: Seq<AppEntry>) -> bool {
    forall|i: int, j: int| 0 <= i < j < apps.len() ==> apps[i].name != apps[j].name
}

pub open spec fn has_name(apps: Seq<AppEntry>, name: Seq<char>) -> bool {
    exists|i: int| 0 <= i < apps.len() && apps[i].name == name
}

/// Adding an entry whose name is already present changes nothing.
pub open spec fn with_app(apps: Seq<AppEntry>, app: AppEntry) -> Seq<AppEntry> {
    if has_name(apps, app.name) { apps } else { apps.push(app) }
}

/// The entries that do not carry `name`, in their order.
pub open spec fn without_name(apps: Seq<AppEntry>, name: Seq<char>) -> Seq<AppEntry>
    decreases apps.len(),
{
    if apps.len() == 0 {
        apps
    } else {
        let rest = without_name(apps.drop_first(), name);
        if apps[0].name == name { rest } else { seq![apps[0]] + rest }
    }
}

/// The entries that a fresh dock pins, in order.
pub open spec fn default_entries() -> Seq<AppEntry> {
    seq![entry("Terminal"@, "kitty"@), entry("Files"@, "nautilus"@), entry("Text Editor"@, "gedit"@)]
}

fn dock_app(name: &str, command: &str) -> (r: DockApp)
    ensures
        r@ == entry(name@, command@),
{
    DockApp { name: String::from_str(name), icon_path: None, command: String::from_str(command), is_running: false }
}

impl Dock {
    pub open spec fn stride(&self) -> int {
        self.icon_size + self.icon_spacing
    }

    pub open spec fn width_spec(&self) -> int {
        self.apps.len() * self.stride() + self.icon_spacing * 2
    }

    pub open spec fn x_spec(&self, screen_width: int) -> int {
        trunc_div(screen_width - self.width_spec(), 2)
    }

    pub open spec fn y_spec(&self, screen_height: int) -> int {
        screen_height - self.position_bottom - self.background_height
    }

    pub open spec fn app_x_spec(&self, index: int, screen_width: int) -> int {
        self.x_spec(screen_width) + self.icon_spacing + index * self.stride()
    }

    pub open spec fn app_y_spec(&self, screen_height: int) -> int {
        self.y_spec(screen_height) + trunc_div(self.background_height - self.icon_size, 2)
    }

    /// Every coordinate of the dock and of its icons fits in `i32` on this screen.
    pub open spec fn fits(&self, screen_width: int, screen_height: int) -> bool {
        &&& self.apps.len() <= i32::MAX
        &&& fits_i32(self.stride())
        &&& fits_i32(self.apps.len() * self.stride())
        &&& fits_i32(self.icon_spacing * 2)
        &&& fits_i32(self.width_spec())
        &&& fits_i32(screen_width - self.width_spec())
        &&& fits_i32(screen_height - self.position_bottom)
        &&& fits_i32(self.y_spec(screen_height))
        &&& fits_i32(self.background_height - self.icon_size)
        &&& fits_i32(self.app_y_spec(screen_height))
        &&& fits_i32(self.x_spec(screen_width) + self.icon_spacing)
        &&& forall|i: int| 0 <= i < self.apps.len() ==> fits_i32(#[trigger] self.app_x_spec(i, screen_width))
    }

    pub open spec fn entries(&self) -> Seq<AppEntry> {
        self.apps@.map_values(|a: DockApp| a@)
    }

    pub open spec fn wf(&self) -> bool {
        names_unique(self.entries())
    }

    /// The metrics and visibility of `self` equal those of `other`.
    pub open spec fn same_metrics(&self, other: &Dock) -> bool {
        &&& self.is_visible == other.is_visible
        &&& self.position_bottom == other.position_bottom
        &&& self.icon_size == other.icon_size
        &&& self.icon_spacing == other.icon_spacing
        &&& self.background_height == other.background_height
    }

    pub open spec fn standard_metrics(&self) -> bool {
        &&& self.is_visible
        &&& self.position_bottom == 20
        &&& self.icon_size == 48
        &&& self.icon_spacing == 10
        &&& self.background_height == 80
    }

    /// A dock with the standard metrics and the default apps pinned.
    pub fn new() -> (r: Dock)
        ensures
            r.wf(),
            r.entries() == default_entries(),
            r.standard_metrics(),
    {
        let mut dock = Dock::default();
        dock.add_default_apps();
        proof {
            reveal_strlit("Terminal");
            reveal_strlit("Files");
            reveal_strlit("Text Editor");
            assert(!has_name(Seq::empty(), "Terminal"@));
            let s1 = seq![entry("Terminal"@, "kitty"@)];
            assert(Seq::<AppEntry>::empty().push(entry("Terminal"@, "kitty"@)) =~= s1);
            assert(!has_name(s1, "Files"@)) by {
                assert("Terminal"@[0] != "Files"@[0]);
            }
            let s2 = s1.push(entry("Files"@, "nautilus"@));
            assert(!has_name(s2, "Text Editor"@)) by {
                assert("Terminal"@[2] != "Text Editor"@[2]);
                assert("Files"@[0] != "Text Editor"@[0]);
            }
            assert(s2.push(entry("Text Editor"@, "gedit"@)) =~= default_entries());
        }
        dock
    }

    /// Pins the default apps, skipping any whose name is already present.
    pub fn add_default_apps(&mut self)
        requires
            old(self).wf(),
        ensures
            final(self).wf(),
            final(self).entries() == with_app(
                with_app(with_app(old(self).entries(), entry("Terminal"@, "kitty"@)), entry("Files"@, "nautilus"@)),
                entry("Text Editor"@, "gedit"@),
            ),
            final(self).same_metrics(old(self)),
    {
        self.add_app(dock_app("Terminal", "kitty"));
        self.add_app(dock_app("Files", "nautilus"));
        self.add_app(dock_app("Text Editor", "gedit"));
    }

    /// Pins `app` unless an app of the same name is already pinned.
    pub fn add_app(&mut self, app: DockApp)
        requires
            old(self).wf(),
        ensures
            final(self).wf(),
            final(self).entries() == with_app(old(self).entries(), app@),
            final(self).same_metrics(old(self)),
    {
        let n = self.apps.len();
        let mut i: usize = 0;
        while i < n
            invariant
                i <= n,
                n == self.apps@.len(),
                forall|j: int| 0 <= j < i ==> self.apps@[j].name@ != app.name@,
                self.wf(),
                self.same_metrics(old(self)),
                self.entries() == old(self).entries(),
            decreases n - i,
        {
            if self.apps[i].name == app.name {
                proof {
                    assert(self.entries()[i as int].name == app@.name);
                }
                return;
            }
            i = i + 1;
        }
        proof {
            assert(!has_name(self.entries(), app@.name)) by {
                assert forall|j: int| 0 <= j < self.entries().len() implies self.entries()[j].name != app@.name by {
                    assert(self.entries()[j] == self.apps@[j]@);
                }
            }
        }
        self.apps.push(app);
        proof {
            assert(self.entries() =~= old(self).entries().push(app@));
        }
    }

    /// Unpins every app called `name`.
    pub fn remove_app(&mut self, name: &str)
        requires
            old(self).wf(),
        ensures
            final(self).wf(),
            final(self).entries() == without_name(old(self).entries(), name@),
            final(self).same_metrics(old(self)),
    {
        let key = String::from_str(name);
        let ghost orig = self.entries();
        let mut i: usize = self.apps.len();
        while i > 0
            invariant
                i <= orig.len(),
                orig == old(self).entries(),
                key@ == name@,
                names_unique(orig),
                self.same_metrics(old(self)),
                self.entries() == orig.take(i as int) + without_name(orig.skip(i as int), name@),
                i <= self.apps@.len(),
            decreases i,
        {
            let j = i - 1;
            proof {
                assert(self.entries().len() == self.apps@.len());
                assert(orig.skip(j as int).drop_first() =~= orig.skip(i as int));
                assert(orig.skip(j as int)[0] == orig[j as int]);
                assert(self.entries()[j as int] == orig[j as int]);
                assert(self.entries()[j as int] == self.apps@[j as int]@);
            }
            let ghost pre = self.entries();
            if self.apps[j].name == key {
                self.apps.remove(j);
                proof {
                    assert(self.entries() =~= pre.remove(j as int));
                    assert(orig[j as int].name == name@);
                    assert(without_name(orig.skip(j as int), name@) == without_name(orig.skip(i as int), name@));
                    assert(self.entries() =~= orig.take(j as int) + without_name(orig.skip(j as int), name@));
                }
            } else {
                proof {
                    assert(orig[j as int].name != name@);
                    assert(without_name(orig.skip(j as int), name@) == seq![orig[j as int]] + without_name(orig.skip(i as int), name@));
                    assert(orig.take(i as int) =~= orig.take(j as int).push(orig[j as int]));
                    assert(self.entries() =~= orig.take(j as int) + without_name(orig.skip(j as int), name@));
                }
            }
            i = j;
        }
        proof {
            assert(orig.skip(0) =~= orig);
            assert(orig.take(0) + without_name(orig, name@) =~= without_name(orig, name@));
            lemma_without_name_sub(orig, name@);
        }
    }

    pub fn toggle_visibility(&mut self)
        ensures
            final(self).is_visible == !old(self).is_visible,
            final(self).apps@ == old(self).apps@,
            final(self).position_bottom == old(self).position_bottom,
            final(self).icon_size == old(self).icon_size,
            final(self).icon_spacing == old(self).icon_spacing,
            final(self).background_height == old(self).background_height,
    {
        self.is_visible = !self.is_visible;
    }

    /// Marks the app at `index` as running or not; an index out of range
    /// changes nothing.
    pub fn set_app_running(&mut self, index: usize, running: bool)
        requires
            old(self).wf(),
        ensures
            final(self).wf(),
            final(self).same_metrics(old(self)),
            final(self).entries() == (if index < old(self).apps@.len() {
                old(self).entries().update(index as int, AppEntry { is_running: running, ..old(self).entries()[index as int] })
            } else {
                old(self).entries()
            }),
    {
        if index < self.apps.len() {
            let mut app = self.apps.remove(index);
            app.is_running = running;
            self.apps.insert(index, app);
            proof {
                assert(self.entries() =~= old(self).entries().update(index as int, AppEntry { is_running: running, ..old(self).entries()[index as int] }));
            }
        }
    }

    /// The command that launches the app at `index`, if there is one.
    pub fn launch_command(&self, index: usize) -> (r: Option<String>)
        ensures
            match r {
                Some(c) => index < self.apps@.len() && c@ == self.apps@[index as int].command@,
                None => index >= self.apps@.len(),
            },
    {
        if index < self.apps.len() {
            Some(self.apps[index].command.clone())
        } else {
            None
        }
    }

    /// Whether the icon of app `i` contains `p`.
    pub open spec fn app_contains(&self, i: int, sw: int, sh: int, p: Point) -> bool {
        in_rect(self.app_x_spec(i, sw), self.app_y_spec(sh), self.icon_size as int, self.icon_size as int, p.x as int, p.y as int)
    }

    /// The first app from `k` on whose icon contains `p`.
    pub open spec fn app_hit_from(&self, k: int, sw: int, sh: int, p: Point) -> Option<usize>
        decreases self.apps@.len() - k,
    {
        if k < 0 || k >= self.apps@.len() {
            None
        } else if self.app_contains(k, sw, sh, p) {
            Some(k as usize)
        } else {
            self.app_hit_from(k + 1, sw, sh, p)
        }
    }

    /// The dock strip: centred horizontally, one stride per app plus a
    /// margin on each side, `position_bottom` above the bottom edge.
    pub fn get_dock_rect(&self, screen_width: i32, screen_height: i32) -> (r: Rect)
        requires
            self.fits(screen_width as int, screen_height as int),
        ensures
            r.loc.x == self.x_spec(screen_width as int),
            r.loc.y == self.y_spec(screen_height as int),
            r.size.w == self.width_spec(),
            r.size.h == self.background_height,
    {
        let stride: i32 = self.icon_size + self.icon_spacing;
        let count: i32 = self.apps.len() as i32;
        let dock_width: i32 = count * stride + self.icon_spacing * 2;
        let x = half_toward_zero(screen_width - dock_width);
        let y: i32 = screen_height - self.position_bottom - self.background_height;
        Rect::new(x, y, dock_width, self.background_height)
    }

    /// The icon square of the app at `app_index`, if there is one.
    pub fn get_app_rect(&self, app_index: usize, screen_width: i32, screen_height: i32) -> (r: Option<Rect>)
        requires
            self.fits(screen_width as int, screen_height as int),
        ensures
            match r {
                Some(rect) => app_index < self.apps@.len()
                    && rect.loc.x == self.app_x_spec(app_index as int, screen_width as int)
                    && rect.loc.y == self.app_y_spec(screen_height as int)
                    && rect.size.w == self.icon_size
                    && rect.size.h == self.icon_size,
                None => app_index >= self.apps@.len(),
            },
    {
        if app_index >= self.apps.len() {
            return None;
        }
        let dock = self.get_dock_rect(screen_width, screen_height);
        let stride: i32 = self.icon_size + self.icon_spacing;
        proof {
            assert(fits_i32(self.app_x_spec(app_index as int, screen_width as int)));
            let a = app_index as int;
            let b = stride as int;
            assert(-0x4000_0000_0000_0000 <= a * b <= 0x4000_0000_0000_0000) by (nonlinear_arith)
                requires
                    0 <= a <= 0x7fff_ffff,
                    -0x8000_0000 <= b <= 0x7fff_ffff,
            ;
        }
        let offset: i64 = (app_index as i64) * (stride as i64);
        let x: i64 = dock.loc.x as i64 + self.icon_spacing as i64 + offset;
        let y: i32 = dock.loc.y + half_toward_zero(self.background_height - self.icon_size);
        Some(Rect::new(x as i32, y, self.icon_size, self.icon_size))
    }

    /// The first app whose icon contains `p`.
    pub fn app_at_point(&self, p: Point, screen_width: i32, screen_height: i32) -> (r: Option<usize>)
        requires
            self.fits(screen_width as int, screen_height as int),
        ensures
            r == self.app_hit_from(0, screen_width as int, screen_height as int, p),
    {
        let n = self.apps.len();
        let mut i: usize = 0;
        while i < n
            invariant
                i <= n,
                n == self.apps@.len(),
                self.fits(screen_width as int, screen_height as int),
                self.app_hit_from(0, screen_width as int, screen_height as int, p)
                    == self.app_hit_from(i as int, screen_width as int, screen_height as int, p),
            decreases n - i,
        {
            match self.get_app_rect(i, screen_width, screen_height) {
                Some(rect) => {
                    if rect.contains(p) {
                        return Some(i);
                    }
                },
                None => {},
            }
            i = i + 1;
        }
        None
    }

    pub fn get_dock_color(&self) -> (r: Paint)
        ensures
            r == Paint::DockBackground,
    {
        Paint::DockBackground
    }

    pub fn get_app_icon_color(&self, is_running: bool) -> (r: Paint)
        ensures
            r == (if is_running { Paint::DockIconRunning } else { Paint::DockIconIdle }),
    {
        if is_running {
            Paint::DockIconRunning
        } else {
            Paint::DockIconIdle
        }
    }
}

/// Rust's `a / 2`, rounding towards zero.
fn half_toward_zero(a: i32) -> (r: i32)
    ensures
        r == trunc_div(a as int, 2),
{
    if a >= 0 {
        a / 2
    } else {
        let m: i64 = -(a as i64);
        (-(m / 2)) as i32
    }
}

impl Default for Dock {
    /// An empty, visible dock with the standard metrics.
    fn default() -> (r: Dock)
        ensures
            r.wf(),
            r.entries().len() == 0,
            r.standard_metrics(),
    {
        Dock {
            apps: Vec::new(),
            is_visible: true,
            position_bottom: 20,
            icon_size: 48,
            icon_spacing: 10,
            background_height: 80,
        }
    }
}

/// Removing a name keeps a subsequence, so unique names stay unique and the
/// name no longer occurs.
proof fn lemma_without_name_sub(s: Seq<AppEntry>, name: Seq<char>)
    requires
        names_unique(s),
    ensures
        names_unique(without_name(s, name)),
        forall|k: int| 0 <= k < without_name(s, name).len() ==> #[trigger] without_name(s, name)[k].name != name,
        forall|k: int| 0 <= k < without_name(s, name).len() ==> exists|m: int| 0 <= m < s.len() && s[m] == #[trigger] without_name(s, name)[k],
    decreases s.len(),
{
    if s.len() > 0 {
        let t = s.drop_first();
        assert(names_unique(t)) by {
            assert forall|i: int, j: int| 0 <= i < j < t.len() implies t[i].name != t[j].name by {
                assert(t[i] == s[i + 1] && t[j] == s[j + 1]);
            }
        }
        lemma_without_name_sub(t, name);
        let rest = without_name(t, name);
        assert forall|k: int| 0 <= k < rest.len() implies exists|m: int| 0 <= m < s.len() && s[m] == #[trigger] rest[k] by {
            let m = choose|m: int| 0 <= m < t.len() && t[m] == rest[k];
            assert(s[m + 1] == rest[k]);
        }
        if s[0].name != name {
            let w = seq![s[0]] + rest;
            assert forall|k: int| 0 <= k < rest.len() implies rest[k].name != s[0].name by {
                let m = choose|m: int| 0 <= m < t.len() && t[m] == rest[k];
                assert(t[m] == s[m + 1]);
            }
            assert forall|i: int, j: int| 0 <= i < j < w.len() implies w[i].name != w[j].name by {
                if i > 0 {
                    assert(w[i] == rest[i - 1] && w[j] == rest[j - 1]);
                } else {
                    assert(w[j] == rest[j - 1]);
                }
            }
            assert forall|k: int| 0 <= k < w.len() implies exists|m: int| 0 <= m < s.len() && s[m] == #[trigger] w[k] by {
                if k == 0 {
                    assert(s[0] == w[0]);
                } else {
                    assert(w[k] == rest[k - 1]);
                }
            }
            assert forall|k: int| 0 <= k < w.len() implies #[trigger] w[k].name != name by {
                if k > 0 {
                    assert(w[k] == rest[k - 1]);
                }
            }
        }
    }
}

} // verus!
