use vstd::prelude::*;
use vstd::string::{StrSliceExecFns, StringExecFns};
use crate::geometry::{Point, Rect, in_rect};
use crate::palette::Paint;
use crate::dock::{fits_i32, trunc_div};
use vstd::arithmetic::div_mod::{lemma_div_is_ordered_by_denominator, lemma_div_pos_is_pos};

verus! {

/// How far the launchpad's open animation advances per update, in percent.
pub const ANIMATION_STEP: u32 = 2;

/// The category a launchable program is filed under.
#[derive(Clone, Copy, Debug, PartialEq, Eq, Structural)]
pub enum AppCategory {
    Development,
    System,
    Utilities,
    Office,
    Media,
    Internet,
    Games,
    Other,
}

/// Categories in display order.
pub open spec fn category_rank(c: AppCategory) -> int {
    match c {
        AppCategory::Development => 0,
        AppCategory::System => 1,
        AppCategory::Utilities => 2,
        AppCategory::Office => 3,
        AppCategory::Media => 4,
        AppCategory::Internet => 5,
        AppCategory::Games => 6,
        AppCategory::Other => 7,
    }
}

pub open spec fn category_name(c: AppCategory) -> Seq<char> {
    match c {
        AppCategory::Development => "Development"@,
        AppCategory::System => "System"@,
        AppCategory::Utilities => "Utilities"@,
        AppCategory::Office => "Office"@,
        AppCategory::Media => "Media"@,
        AppCategory::Internet => "Internet"@,
        AppCategory::Games => "Games"@,
        AppCategory::Other => "Other"@,
    }
}

/// Every category, in display order.
pub open spec fn all_categories() -> Seq<AppCategory> {
    seq![
        AppCategory::Development,
        AppCategory::System,
        AppCategory::Utilities,
        AppCategory::Office,
        AppCategory::Media,
        AppCategory::Internet,
        AppCategory::Games,
        AppCategory::Other
    ]
}

impl AppCategory {
    /// The category's display name.
    pub fn to_string(&self) -> (r: String)
        ensures
            r@ == category_name(*self),
    {
        match self {
            AppCategory::Development => String::from_str("Development"),
            AppCategory::System => String::from_str("System"),
            AppCategory::Utilities => String::from_str("Utilities"),
            AppCategory::Office => String::from_str("Office"),
            AppCategory::Media => String::from_str("Media"),
            AppCategory::Internet => String::from_str("Internet"),
            AppCategory::Games => String::from_str("Games"),
            AppCategory::Other => String::from_str("Other"),
        }
    }
}

/// A program that the launchpad offers.
#[derive(Clone, Debug)]
pub struct LaunchpadApp {
    pub name: String,
    pub icon_path: Option<String>,
    pub command: String,
    pub category: AppCategory,
}

/// What a launchpad entry holds, as plain values.
pub struct LaunchEntry {
    pub name: Seq<char>,
    pub icon_path: Option<Seq<char>>,
    pub command: Seq<char>,
    pub category: AppCategory,
}

impl View for LaunchpadApp {
    type V = LaunchEntry;

    open spec fn view(&self) -> LaunchEntry {
        LaunchEntry {
            name: self.name@,
            icon_path: match self.icon_path {
                Some(p) => Some(p@),
                None => None,
            },
            command: self.command@,
            category: self.category,
        }
    }
}

pub open spec fn launch_entry(name: Seq<char>, command: Seq<char>, category: AppCategory) -> LaunchEntry {
    LaunchEntry { name, icon_path: None, command, category }
}

pub open spec fn names_unique(apps: Seq<LaunchEntry>) -> bool {
    forall|i: int, j: int| 0 <= i < j < apps.len() ==> apps[i].name != apps[j].name
}

pub open spec fn has_name(apps: Seq<LaunchEntry>, name: Seq<char>) -> bool {
    exists|i: int| 0 <= i < apps.len() && apps[i].name == name
}

/// Adding an entry whose name is already present changes nothing.
pub open spec fn with_app(apps: Seq<LaunchEntry>, app: LaunchEntry) -> Seq<LaunchEntry> {
    if has_name(apps, app.name) { apps } else { apps.push(app) }
}

/// Adds each of `new` in order, skipping names already present.
pub open spec fn with_apps(apps: Seq<LaunchEntry>, new: Seq<LaunchEntry>) -> Seq<LaunchEntry>
    decreases new.len(),
{
    if new.len() == 0 { apps } else { with_app(with_apps(apps, new.drop_last()), new.last()) }
}

/// The entries that do not carry `name`, in their order.
pub open spec fn without_name(apps: Seq<LaunchEntry>, name: Seq<char>) -> Seq<LaunchEntry>
    decreases apps.len(),
{
    if apps.len() == 0 {
        apps
    } else {
        let rest = without_name(apps.drop_first(), name);
        if apps[0].name == name { rest } else { seq![apps[0]] + rest }
    }
}

/// The programs that a fresh launchpad offers, in order.
pub open spec fn default_launch_entries() -> Seq<LaunchEntry> {
    seq![
        launch_entry("VS Code"@, "code"@, AppCategory::Development),
        launch_entry("Settings"@, "gnome-control-center"@, AppCategory::System),
        launch_entry("Terminal"@, "kitty"@, AppCategory::System),
        launch_entry("Files"@, "nautilus"@, AppCategory::Utilities),
        launch_entry("GIMP"@, "gimp"@, AppCategory::Media),
        launch_entry("Firefox"@, "firefox"@, AppCategory::Internet),
        launch_entry("Text Editor"@, "gedit"@, AppCategory::Office),
        launch_entry("VLC"@, "vlc"@, AppCategory::Media)
    ]
}

/// What `str::to_lowercase` gives for `s`.
pub uninterp spec fn lower_of(s: Seq<char>) -> Seq<char>;

/// `needle` occurs as a contiguous run inside `hay` (the empty run occurs everywhere).
pub open spec fn occurs_in(needle: Seq<char>, hay: Seq<char>) -> bool {
    exists|i: int| 0 <= i && i + needle.len() <= hay.len() && #[trigger] hay.subrange(i, i + needle.len()) == needle
}

/// Relies on `str::to_lowercase`: the result depends on the characters
/// alone, and the empty string stays empty.
#[verifier::external_body]
fn lowercase(s: &str) -> (r: String)
    ensures
        r@ == lower_of(s@),
        s@.len() == 0 ==> r@.len() == 0,
{
    s.to_lowercase()
}

/// Whether `needle` occurs in `hay` as a substring.
pub fn contains_str(hay: &str, needle: &str) -> (r: bool)
    ensures
        r == occurs_in(needle@, hay@),
{
    let h = hay.unicode_len();
    let n = needle.unicode_len();
    if n > h {
        return false;
    }
    let last = h - n;
    let mut i: usize = 0;
    while i <= last
        invariant
            h == hay@.len(),
            n == needle@.len(),
            last == h - n,
            forall|k: int| 0 <= k < i ==> #[trigger] hay@.subrange(k, k + n) != needle@,
        decreases last + 1 - i,
    {
        let mut j: usize = 0;
        let mut same = true;
        while same && j < n
            invariant
                h == hay@.len(),
                n == needle@.len(),
                i <= last,
                last == h - n,
                j <= n,
                same ==> forall|t: int| 0 <= t < j ==> hay@[i + t] == needle@[t],
                !same ==> j < n && hay@[i + j] != needle@[j as int],
            decreases n - j + (if same { 1int } else { 0int }),
        {
            if hay.get_char(i + j) != needle.get_char(j) {
                same = false;
            } else {
                j = j + 1;
            }
        }
        if same {
            proof {
                assert(hay@.subrange(i as int, i + n) =~= needle@);
            }
            return true;
        }
        proof {
            assert(hay@.subrange(i as int, i + n)[j as int] == hay@[i + j]);
        }
        i = i + 1;
    }
    proof {
        assert forall|k: int| 0 <= k && k + needle@.len() <= hay@.len() implies #[trigger] hay@.subrange(k, k + needle@.len()) != needle@ by {
            assert(k < i);
        }
    }
    false
}

/// Whether an app whose lowercased name is `folded_name` matches the
/// (already lowercased) search `query`: an empty query matches everything.
pub fn matches_query(folded_name: &str, query: &str) -> (r: bool)
    ensures
        r == (query@.len() == 0 || occurs_in(query@, folded_name@)),
{
    if query.is_empty() {
        return true;
    }
    contains_str(folded_name, query)
}

/// The entries whose name matches `query` after lowercasing, in order.
pub open spec fn filter_by_query(apps: Seq<LaunchEntry>, query: Seq<char>) -> Seq<LaunchEntry>
    decreases apps.len(),
{
    if apps.len() == 0 {
        apps
    } else {
        let rest = filter_by_query(apps.drop_last(), query);
        if query.len() == 0 || occurs_in(query, lower_of(apps.last().name)) { rest.push(apps.last()) } else { rest }
    }
}

/// The entries of `category`, in order.
pub open spec fn filter_by_category(apps: Seq<LaunchEntry>, category: AppCategory) -> Seq<LaunchEntry>
    decreases apps.len(),
{
    if apps.len() == 0 {
        apps
    } else {
        let rest = filter_by_category(apps.drop_last(), category);
        if apps.last().category == category { rest.push(apps.last()) } else { rest }
    }
}

pub open spec fn has_category(apps: Seq<LaunchEntry>, c: AppCategory) -> bool {
    exists|i: int| 0 <= i < apps.len() && apps[i].category == c
}

/// Of the first `k` categories in display order, those some app carries.
pub open spec fn present_categories(apps: Seq<LaunchEntry>, k: nat) -> Seq<AppCategory>
    decreases k,
{
    if k == 0 {
        Seq::empty()
    } else {
        let rest = present_categories(apps, (k - 1) as nat);
        let c = all_categories()[k - 1];
        if has_category(apps, c) { rest.push(c) } else { rest }
    }
}

fn launchpad_app(name: &str, command: &str, category: AppCategory) -> (r: LaunchpadApp)
    ensures
        r@ == launch_entry(name@, command@, category),
{
    LaunchpadApp { name: String::from_str(name), icon_path: None, command: String::from_str(command), category }
}

/// A full-screen grid of launchable programs with a search filter and an
/// open/close animation measured in percent.
pub struct Launchpad {
    pub apps: Vec<LaunchpadApp>,
    pub is_visible: bool,
    pub is_animating: bool,
    /// Progress of the open animation, 0 to 100.
    pub animation_progress: u32,
    pub grid_cols: usize,
    pub grid_rows: usize,
    pub icon_size: i32,
    pub icon_spacing: i32,
    pub margin: i32,
    pub search_query: String,
}

impl Launchpad {
    pub open spec fn entries(&self) -> Seq<LaunchEntry> {
        self.apps@.map_values(|a: LaunchpadApp| a@)
    }

    pub open spec fn wf(&self) -> bool {
        &&& names_unique(self.entries())
        &&& self.animation_progress <= 100
    }

    /// Everything but the app list is as in `other`.
    pub open spec fn same_settings(&self, other: &Launchpad) -> bool {
        &&& self.is_visible == other.is_visible
        &&& self.is_animating == other.is_animating
        &&& self.animation_progress == other.animation_progress
        &&& self.grid_cols == other.grid_cols
        &&& self.grid_rows == other.grid_rows
        &&& self.icon_size == other.icon_size
        &&& self.icon_spacing == other.icon_spacing
        &&& self.margin == other.margin
        &&& self.search_query@ == other.search_query@
    }

    pub open spec fn standard_settings(&self) -> bool {
        &&& !self.is_visible
        &&& !self.is_animating
        &&& self.animation_progress == 0
        &&& self.grid_cols == 5
        &&& self.grid_rows == 4
        &&& self.icon_size == 64
        &&& self.icon_spacing == 20
        &&& self.margin == 40
        &&& self.search_query@.len() == 0
    }

    /// The entries that the current search shows.
    pub open spec fn filtered(&self) -> Seq<LaunchEntry> {
        filter_by_query(self.entries(), self.search_query@)
    }

    /// A hidden launchpad with the standard grid and the default programs.
    pub fn new() -> (r: Launchpad)
        ensures
            r.wf(),
            r.entries() == with_apps(Seq::empty(), default_launch_entries()),
            r.standard_settings(),
    {
        let mut launchpad = Launchpad::default();
        proof {
            assert(launchpad.entries() =~= Seq::<LaunchEntry>::empty());
        }
        launchpad.add_default_apps();
        launchpad
    }

    /// Adds the default programs, skipping names already present.
    pub fn add_default_apps(&mut self)
        requires
            old(self).wf(),
        ensures
            final(self).wf(),
            final(self).entries() == with_apps(old(self).entries(), default_launch_entries()),
            final(self).same_settings(old(self)),
    {
        let ghost d = default_launch_entries();
        let ghost start = self.entries();
        self.add_app(launchpad_app("VS Code", "code", AppCategory::Development));
        proof { lemma_with_apps_step(start, d, 0); }
        self.add_app(launchpad_app("Settings", "gnome-control-center", AppCategory::System));
        proof { lemma_with_apps_step(start, d, 1); }
        self.add_app(launchpad_app("Terminal", "kitty", AppCategory::System));
        proof { lemma_with_apps_step(start, d, 2); }
        self.add_app(launchpad_app("Files", "nautilus", AppCategory::Utilities));
        proof { lemma_with_apps_step(start, d, 3); }
        self.add_app(launchpad_app("GIMP", "gimp", AppCategory::Media));
        proof { lemma_with_apps_step(start, d, 4); }
        self.add_app(launchpad_app("Firefox", "firefox", AppCategory::Internet));
        proof { lemma_with_apps_step(start, d, 5); }
        self.add_app(launchpad_app("Text Editor", "gedit", AppCategory::Office));
        proof { lemma_with_apps_step(start, d, 6); }
        self.add_app(launchpad_app("VLC", "vlc", AppCategory::Media));
        proof {
            lemma_with_apps_step(start, d, 7);
            assert(d.take(8) =~= d);
        }
    }

    /// Adds `app` unless an app of the same name is already present.
    pub fn add_app(&mut self, app: LaunchpadApp)
        requires
            old(self).wf(),
        ensures
            final(self).wf(),
            final(self).entries() == with_app(old(self).entries(), app@),
            final(self).same_settings(old(self)),
    {
        let n = self.apps.len();
        let mut i: usize = 0;
        while i < n
            invariant
                i <= n,
                n == self.apps@.len(),
                forall|j: int| 0 <= j < i ==> self.apps@[j].name@ != app.name@,
                self.wf(),
                self.same_settings(old(self)),
                self.entries() == old(self).entries(),
            decreases n - i,
        {
            if self.apps[i].name == app.name {
                proof {
                    assert(self.entries()[i as int].name == app@.name);
                }
                return;
            }
            i = i + 1;
        }
        proof {
            assert(!has_name(self.entries(), app@.name)) by {
                assert forall|j: int| 0 <= j < self.entries().len() implies self.entries()[j].name != app@.name by {
                    assert(self.entries()[j] == self.apps@[j]@);
                }
            }
        }
        self.apps.push(app);
        proof {
            assert(self.entries() =~= old(self).entries().push(app@));
        }
    }

    /// Removes every app called `name`.
    pub fn remove_app(&mut self, name: &str)
        requires
            old(self).wf(),
        ensures
            final(self).wf(),
            final(self).entries() == without_name(old(self).entries(), name@),
            final(self).same_settings(old(self)),
    {
        let key = String::from_str(name);
        let ghost orig = self.entries();
        let mut i: usize = self.apps.len();
        while i > 0
            invariant
                i <= orig.len(),
                orig == old(self).entries(),
                key@ == name@,
                names_unique(orig),
                self.same_settings(old(self)),
                self.entries() == orig.take(i as int) + without_name(orig.skip(i as int), name@),
                i <= self.apps@.len(),
            decreases i,
        {
            let j = i - 1;
            proof {
                assert(self.entries().len() == self.apps@.len());
                assert(orig.skip(j as int).drop_first() =~= orig.skip(i as int));
                assert(orig.skip(j as int)[0] == orig[j as int]);
                assert(self.entries()[j as int] == orig[j as int]);
                assert(self.entries()[j as int] == self.apps@[j as int]@);
            }
            let ghost pre = self.entries();
            if self.apps[j].name == key {
                self.apps.remove(j);
                proof {
                    assert(self.entries() =~= pre.remove(j as int));
                    assert(orig[j as int].name == name@);
                    assert(without_name(orig.skip(j as int), name@) == without_name(orig.skip(i as int), name@));
                    assert(self.entries() =~= orig.take(j as int) + without_name(orig.skip(j as int), name@));
                }
            } else {
                proof {
                    assert(orig[j as int].name != name@);
                    assert(without_name(orig.skip(j as int), name@) == seq![orig[j as int]] + without_name(orig.skip(i as int), name@));
                    assert(orig.take(i as int) =~= orig.take(j as int).push(orig[j as int]));
                    assert(self.entries() =~= orig.take(j as int) + without_name(orig.skip(j as int), name@));
                }
            }
            i = j;
        }
        proof {
            assert(orig.skip(0) =~= orig);
            assert(orig.take(0) + without_name(orig, name@) =~= without_name(orig, name@));
            lemma_without_name_sub(orig, name@);
        }
    }

    /// Shows or hides the launchpad and starts the animation from the
    /// matching end.
    pub fn toggle_visibility(&mut self)
        requires
            old(self).wf(),
        ensures
            final(self).wf(),
            final(self).is_visible == !old(self).is_visible,
            final(self).is_animating,
            final(self).animation_progress == (if final(self).is_visible { 0u32 } else { 100u32 }),
            final(self).entries() == old(self).entries(),
            final(self).search_query@ == old(self).search_query@,
    {
        self.is_visible = !self.is_visible;
        self.is_animating = true;
        self.animation_progress = if self.is_visible { 0 } else { 100 };
    }

    /// Advances the animation one step towards its end (100 when visible,
    /// 0 when hidden) and stops it on arrival.
    pub fn update_animation(&mut self)
        requires
            old(self).wf(),
        ensures
            final(self).wf(),
            final(self).entries() == old(self).entries(),
            final(self).is_visible == old(self).is_visible,
            !old(self).is_animating ==> final(self).animation_progress == old(self).animation_progress
                && !final(self).is_animating,
            old(self).is_animating ==> {
                let p = if old(self).is_visible {
                    if old(self).animation_progress + ANIMATION_STEP > 100 { 100 } else { old(self).animation_progress + ANIMATION_STEP }
                } else {
                    if old(self).animation_progress < ANIMATION_STEP { 0 } else { old(self).animation_progress - ANIMATION_STEP }
                };
                &&& final(self).animation_progress == p
                &&& final(self).is_animating == (0 < p < 100)
            },
    {
        if self.is_animating {
            if self.is_visible {
                let p = self.animation_progress + ANIMATION_STEP;
                self.animation_progress = if p > 100 { 100 } else { p };
            } else {
                self.animation_progress = if self.animation_progress < ANIMATION_STEP { 0 } else { self.animation_progress - ANIMATION_STEP };
            }
            if self.animation_progress >= 100 || self.animation_progress == 0 {
                self.is_animating = false;
            }
        }
    }

    /// Stores the lowercased `query` as the search.
    pub fn set_search_query(&mut self, query: String)
        requires
            old(self).wf(),
        ensures
            final(self).wf(),
            final(self).search_query@ == lower_of(query@),
            final(self).entries() == old(self).entries(),
            final(self).is_visible == old(self).is_visible,
    {
        self.search_query = lowercase(query.as_str());
    }

    pub fn clear_search(&mut self)
        requires
            old(self).wf(),
        ensures
            final(self).wf(),
            final(self).search_query@.len() == 0,
            final(self).entries() == old(self).entries(),
            final(self).is_visible == old(self).is_visible,
    {
        self.search_query = String::new();
    }

    /// The apps whose lowercased name contains the search, in order; all of
    /// them while the search is empty.
    pub fn get_filtered_apps(&self) -> (r: Vec<&LaunchpadApp>)
        ensures
            r@.map_values(|a: &LaunchpadApp| a@) == self.filtered(),
    {
        let mut out: Vec<&LaunchpadApp> = Vec::new();
        let n = self.apps.len();
        let mut i: usize = 0;
        while i < n
            invariant
                i <= n,
                n == self.apps@.len(),
                out@.map_values(|a: &LaunchpadApp| a@) == filter_by_query(self.entries().take(i as int), self.search_query@),
            decreases n - i,
        {
            let folded = lowercase(self.apps[i].name.as_str());
            let keep = matches_query(folded.as_str(), self.search_query.as_str());
            proof {
                assert(self.entries().take(i as int + 1).drop_last() =~= self.entries().take(i as int));
                assert(self.entries().take(i as int + 1).last() == self.apps@[i as int]@);
            }
            if keep {
                out.push(&self.apps[i]);
            }
            proof {
                assert(out@.map_values(|a: &LaunchpadApp| a@) =~= filter_by_query(self.entries().take(i as int + 1), self.search_query@));
            }
            i = i + 1;
        }
        proof {
            assert(self.entries().take(n as int) =~= self.entries());
        }
        out
    }

    /// The apps of `category`, in order.
    pub fn get_apps_by_category(&self, category: AppCategory) -> (r: Vec<&LaunchpadApp>)
        ensures
            r@.map_values(|a: &LaunchpadApp| a@) == filter_by_category(self.entries(), category),
    {
        let mut out: Vec<&LaunchpadApp> = Vec::new();
        let n = self.apps.len();
        let mut i: usize = 0;
        while i < n
            invariant
                i <= n,
                n == self.apps@.len(),
                out@.map_values(|a: &LaunchpadApp| a@) == filter_by_category(self.entries().take(i as int), category),
            decreases n - i,
        {
            proof {
                assert(self.entries().take(i as int + 1).drop_last() =~= self.entries().take(i as int));
                assert(self.entries().take(i as int + 1).last() == self.apps@[i as int]@);
            }
            if self.apps[i].category == category {
                out.push(&self.apps[i]);
            }
            proof {
                assert(out@.map_values(|a: &LaunchpadApp| a@) =~= filter_by_category(self.entries().take(i as int + 1), category));
            }
            i = i + 1;
        }
        proof {
            assert(self.entries().take(n as int) =~= self.entries());
        }
        out
    }

    fn has_app_in(&self, category: AppCategory) -> (r: bool)
        ensures
            r == has_category(self.entries(), category),
    {
        let n = self.apps.len();
        let mut i: usize = 0;
        while i < n
            invariant
                i <= n,
                n == self.apps@.len(),
                forall|j: int| 0 <= j < i ==> self.apps@[j].category != category,
            decreases n - i,
        {
            if self.apps[i].category == category {
                proof {
                    assert(self.entries()[i as int].category == category);
                }
                return true;
            }
            i = i + 1;
        }
        proof {
            assert forall|j: int| 0 <= j < self.entries().len() implies self.entries()[j].category != category by {
                assert(self.entries()[j] == self.apps@[j]@);
            }
        }
        false
    }

    /// The categories that some app carries, each once, in display order.
    pub fn get_categories(&self) -> (r: Vec<AppCategory>)
        ensures
            r@ == present_categories(self.entries(), 8),
    {
        let order: Vec<AppCategory> = vec![
            AppCategory::Development,
            AppCategory::System,
            AppCategory::Utilities,
            AppCategory::Office,
            AppCategory::Media,
            AppCategory::Internet,
            AppCategory::Games,
            AppCategory::Other,
        ];
        assert(order@ =~= all_categories());
        let mut out: Vec<AppCategory> = Vec::new();
        let mut k: usize = 0;
        while k < order.len()
            invariant
                k <= 8,
                order@ == all_categories(),
                out@ == present_categories(self.entries(), k as nat),
            decreases 8 - k,
        {
            let c = order[k];
            if self.has_app_in(c) {
                out.push(c);
            }
            k = k + 1;
        }
        out
    }

    /// Whether the grid's geometry fits `i32` and its divisions are defined.
    pub open spec fn grid_fits(&self, sw: int, sh: int) -> bool {
        &&& 0 < self.grid_cols <= i32::MAX
        &&& 0 < self.grid_rows <= i32::MAX
        &&& fits_i32(self.margin * 2)
        &&& fits_i32(sw - self.margin * 2)
        &&& fits_i32(sh - self.margin * 2)
    }

    pub open spec fn col_width(&self, sw: int) -> int {
        trunc_div(sw - self.margin * 2, self.grid_cols as int)
    }

    pub open spec fn row_height(&self, sh: int) -> int {
        trunc_div(sh - self.margin * 2, self.grid_rows as int)
    }

    pub open spec fn app_x(&self, index: int, sw: int) -> int {
        self.margin + (index % self.grid_cols as int) * self.col_width(sw) + trunc_div(self.col_width(sw) - self.icon_size, 2)
    }

    pub open spec fn app_y(&self, index: int, sh: int) -> int {
        self.margin + (index / self.grid_cols as int) * self.row_height(sh) + trunc_div(self.row_height(sh) - self.icon_size, 2)
    }

    /// Every icon position that the grid can hold for these apps fits `i32`.
    pub open spec fn icons_fit(&self, sw: int, sh: int) -> bool {
        &&& self.grid_fits(sw, sh)
        &&& self.apps@.len() <= i32::MAX
        &&& forall|i: int| 0 <= i < self.apps@.len() ==> fits_i32(#[trigger] self.app_x(i, sw)) && fits_i32(self.app_y(i, sh))
    }

    /// The whole screen.
    pub fn get_launchpad_rect(&self, screen_width: i32, screen_height: i32) -> (r: Rect)
        ensures
            r == Rect::new_spec(0, 0, screen_width, screen_height),
    {
        Rect::new(0, 0, screen_width, screen_height)
    }

    /// The screen less a margin on every side.
    pub fn get_grid_rect(&self, screen_width: i32, screen_height: i32) -> (r: Rect)
        requires
            self.grid_fits(screen_width as int, screen_height as int),
        ensures
            r == Rect::new_spec(
                self.margin,
                self.margin,
                (screen_width - self.margin * 2) as i32,
                (screen_height - self.margin * 2) as i32,
            ),
    {
        let twice: i32 = self.margin * 2;
        Rect::new(self.margin, self.margin, screen_width - twice, screen_height - twice)
    }
}

/// Rust's `a / d` for a positive divisor, rounding towards zero.
fn div_toward_zero(a: i64, d: i64) -> (r: i64)
    requires
        d > 0,
        -0x1_0000_0000 <= a <= 0x1_0000_0000,
    ensures
        r == trunc_div(a as int, d as int),
        a >= 0 ==> 0 <= r <= a,
        a < 0 ==> a <= r <= 0,
{
    let m: i64 = if a >= 0 { a } else { -a };
    proof {
        lemma_div_is_ordered_by_denominator(m as int, 1, d as int);
        lemma_div_pos_is_pos(m as int, d as int);
    }
    if a >= 0 {
        m / d
    } else {
        -(m / d)
    }
}

impl Launchpad {
    /// The icon square of the shown app at `app_index`: the grid is split
    /// into `grid_cols` by `grid_rows` cells, filled row by row, and the
    /// icon is centred in its cell.
    pub fn get_app_rect(&self, app_index: usize, screen_width: i32, screen_height: i32) -> (r: Option<Rect>)
        requires
            self.icons_fit(screen_width as int, screen_height as int),
        ensures
            match r {
                Some(rect) => app_index < self.filtered().len()
                    && rect.loc.x == self.app_x(app_index as int, screen_width as int)
                    && rect.loc.y == self.app_y(app_index as int, screen_height as int)
                    && rect.size.w == self.icon_size
                    && rect.size.h == self.icon_size,
                None => app_index >= self.filtered().len(),
            },
    {
        let shown = self.get_filtered_apps();
        proof {
            assert(shown@.len() == self.filtered().len());
            lemma_filter_shorter(self.entries(), self.search_query@);
        }
        if app_index >= shown.len() {
            return None;
        }
        let cols = self.grid_cols;
        let col: usize = app_index % cols;
        let row: usize = app_index / cols;
        let twice: i64 = self.margin as i64 * 2;
        let col_width = div_toward_zero(screen_width as i64 - twice, cols as i64);
        let row_height = div_toward_zero(screen_height as i64 - twice, self.grid_rows as i64);
        proof {
            assert(fits_i32(self.app_x(app_index as int, screen_width as int)));
            assert(row <= app_index) by (nonlinear_arith)
                requires
                    row == app_index as int / cols as int,
                    cols >= 1,
            ;
            let c = col as int;
            let rr = row as int;
            assert(-0x4000_0000_0000_0000 <= c * col_width <= 0x4000_0000_0000_0000) by (nonlinear_arith)
                requires
                    0 <= c <= 0x7fff_ffff,
                    -0x8000_0000 <= col_width <= 0x8000_0000,
            ;
            assert(-0x4000_0000_0000_0000 <= rr * row_height <= 0x4000_0000_0000_0000) by (nonlinear_arith)
                requires
                    0 <= rr <= 0x7fff_ffff,
                    -0x8000_0000 <= row_height <= 0x8000_0000,
            ;
        }
        let x: i64 = self.margin as i64 + (col as i64) * col_width + div_toward_zero(col_width - self.icon_size as i64, 2);
        let y: i64 = self.margin as i64 + (row as i64) * row_height + div_toward_zero(row_height - self.icon_size as i64, 2);
        Some(Rect::new(x as i32, y as i32, self.icon_size, self.icon_size))
    }

    /// Whether the icon of shown app `i` contains `p`.
    pub open spec fn app_contains(&self, i: int, sw: int, sh: int, p: Point) -> bool {
        in_rect(self.app_x(i, sw), self.app_y(i, sh), self.icon_size as int, self.icon_size as int, p.x as int, p.y as int)
    }

    /// The first shown app from `k` on whose icon contains `p`.
    pub open spec fn app_hit_from(&self, k: int, sw: int, sh: int, p: Point) -> Option<usize>
        decreases self.filtered().len() - k,
    {
        if k < 0 || k >= self.filtered().len() {
            None
        } else if self.app_contains(k, sw, sh, p) {
            Some(k as usize)
        } else {
            self.app_hit_from(k + 1, sw, sh, p)
        }
    }

    /// The first shown app whose icon contains `p`.
    pub fn app_at_point(&self, p: Point, screen_width: i32, screen_height: i32) -> (r: Option<usize>)
        requires
            self.icons_fit(screen_width as int, screen_height as int),
        ensures
            r == self.app_hit_from(0, screen_width as int, screen_height as int, p),
    {
        let n = self.get_filtered_apps().len();
        let mut i: usize = 0;
        while i < n
            invariant
                i <= n,
                n == self.filtered().len(),
                self.icons_fit(screen_width as int, screen_height as int),
                self.app_hit_from(0, screen_width as int, screen_height as int, p)
                    == self.app_hit_from(i as int, screen_width as int, screen_height as int, p),
            decreases n - i,
        {
            match self.get_app_rect(i, screen_width, screen_height) {
                Some(rect) => {
                    if rect.contains(p) {
                        return Some(i);
                    }
                },
                None => {},
            }
            i = i + 1;
        }
        None
    }

    /// The command that launches the shown app at `index`, if there is one.
    pub fn launch_command(&self, index: usize) -> (r: Option<String>)
        ensures
            match r {
                Some(c) => index < self.filtered().len() && c@ == self.filtered()[index as int].command,
                None => index >= self.filtered().len(),
            },
    {
        let shown = self.get_filtered_apps();
        if index < shown.len() {
            proof {
                assert(shown@.map_values(|a: &LaunchpadApp| a@)[index as int] == shown@[index as int]@);
            }
            Some(shown[index].command.clone())
        } else {
            None
        }
    }

    pub fn get_background_color(&self) -> (r: Paint)
        ensures
            r == Paint::LaunchpadBackground,
    {
        Paint::LaunchpadBackground
    }

    pub fn get_icon_color(&self) -> (r: Paint)
        ensures
            r == Paint::LaunchpadIcon,
    {
        Paint::LaunchpadIcon
    }

    pub fn get_search_bar_color(&self) -> (r: Paint)
        ensures
            r == Paint::SearchBar,
    {
        Paint::SearchBar
    }
}

impl Default for Launchpad {
    /// A hidden, empty launchpad with the standard grid.
    fn default() -> (r: Launchpad)
        ensures
            r.wf(),
            r.entries().len() == 0,
            r.standard_settings(),
    {
        Launchpad {
            apps: Vec::new(),
            is_visible: false,
            is_animating: false,
            animation_progress: 0,
            grid_cols: 5,
            grid_rows: 4,
            icon_size: 64,
            icon_spacing: 20,
            margin: 40,
            search_query: String::new(),
        }
    }
}

proof fn lemma_filter_shorter(apps: Seq<LaunchEntry>, query: Seq<char>)
    ensures
        filter_by_query(apps, query).len() <= apps.len(),
    decreases apps.len(),
{
    if apps.len() > 0 {
        lemma_filter_shorter(apps.drop_last(), query);
    }
}

proof fn lemma_with_apps_step(start: Seq<LaunchEntry>, d: Seq<LaunchEntry>, k: int)
    requires
        0 <= k < d.len(),
    ensures
        with_apps(start, d.take(k + 1)) == with_app(with_apps(start, d.take(k)), d[k]),
{
    assert(d.take(k + 1).drop_last() =~= d.take(k));
}

proof fn lemma_without_name_sub(s: Seq<LaunchEntry>, name: Seq<char>)
    requires
        names_unique(s),
    ensures
        names_unique(without_name(s, name)),
        forall|k: int| 0 <= k < without_name(s, name).len() ==> exists|m: int| 0 <= m < s.len() && s[m] == #[trigger] without_name(s, name)[k],
    decreases s.len(),
{
    if s.len() > 0 {
        let t = s.drop_first();
        assert(names_unique(t)) by {
            assert forall|i: int, j: int| 0 <= i < j < t.len() implies t[i].name != t[j].name by {
                assert(t[i] == s[i + 1] && t[j] == s[j + 1]);
            }
        }
        lemma_without_name_sub(t, name);
        let rest = without_name(t, name);
        assert forall|k: int| 0 <= k < rest.len() implies exists|m: int| 0 <= m < s.len() && s[m] == #[trigger] rest[k] by {
            let m = choose|m: int| 0 <= m < t.len() && t[m] == rest[k];
            assert(s[m + 1] == rest[k]);
        }
        if s[0].name != name {
            let w = seq![s[0]] + rest;
            assert forall|k: int| 0 <= k < rest.len() implies rest[k].name != s[0].name by {
                let m = choose|m: int| 0 <= m < t.len() && t[m] == rest[k];
                assert(t[m] == s[m + 1]);
            }
            assert forall|i: int, j: int| 0 <= i < j < w.len() implies w[i].name != w[j].name by {
                if i > 0 {
                    assert(w[i] == rest[i - 1] && w[j] == rest[j - 1]);
                } else {
                    assert(w[j] == rest[j - 1]);
                }
            }
            assert forall|k: int| 0 <= k < w.len() implies exists|m: int| 0 <= m < s.len() && s[m] == #[trigger] w[k] by {
                if k == 0 {
                    assert(s[0] == w[0]);
                } else {
                    assert(w[k] == rest[k - 1]);
                }
            }
        }
    }
}

} // verus!
