use vstd::prelude::*;
use vstd::string::StringExecFns;

verus! {

/// Where the default wallpaper image is looked for.
pub const DEFAULT_WALLPAPER_PATH: &'static str = "/home/aditya/Projects/mirage-wm/Mirage-Default.jpg";

/// Wallpaper configuration: an image path, enabled when the image existed
/// at configuration time. Whether a file exists is asked of the file
/// system by the caller and handed in.
pub struct Wallpaper {
    pub path: String,
    pub is_enabled: bool,
}

impl Wallpaper {
    /// A wallpaper for `path`, enabled exactly when the file exists.
    pub fn new(path: &str, exists: bool) -> (r: Wallpaper)
        ensures
            r.path@ == path@,
            r.is_enabled == exists,
    {
        Wallpaper { path: String::from_str(path), is_enabled: exists }
    }

    /// The wallpaper at `DEFAULT_WALLPAPER_PATH`.
    pub fn default(exists: bool) -> (r: Wallpaper)
        ensures
            r.path@ == DEFAULT_WALLPAPER_PATH@,
            r.is_enabled == exists,
    {
        Wallpaper::new(DEFAULT_WALLPAPER_PATH, exists)
    }

    /// Usable: enabled, and the file still exists now.
    pub fn is_valid(&self, exists_now: bool) -> (r: bool)
        ensures
            r == (self.is_enabled && exists_now),
    {
        self.is_enabled && exists_now
    }
}

} // verus!
