//! The settings screen: the setting each control writes, restoring the defaults (which keeps
//! the history of folders and the dialogs' last options), and leaving the screen. Every
//! change made with a control is saved at once (the application writes the file); the
//! ones that can change nothing say whether they did.

use crate::color::{parse_hex_rgb, rgb_of};
use crate::folder::SortOrder;
use crate::i18n::Lang;
use crate::session::ViewCarry;
use crate::text::{chars_of, trim, trim_range};
use crate::transfer::{DefaultsModel, OrganizeDefaults, TransferDefaults};
use vstd::prelude::*;

verus! {

/// Where the transfer dialog proposes to send photos.
#[derive(Clone, Copy, Debug, PartialEq, Eq, Structural)]
pub enum DestMode {
    /// A folder under the open folder.
    CurrentFolder,
    /// The folder set in the settings.
    Fixed,
}

/// The settings shown on the settings screen, with the history that restoring the
/// defaults keeps.
pub struct Settings {
    pub auto_advance: bool,
    pub recursive: bool,
    pub show_exif: bool,
    pub show_histogram: bool,
    pub check_updates: bool,
    /// Previews decoded ahead of the current photo.
    pub preload: i32,
    pub grid_cols: usize,
    pub large_badges: bool,
    pub sort: SortOrder,
    pub view_carry: ViewCarry,
    pub dest_mode: DestMode,
    pub dest_folder: String,
    /// `None`: follow the system.
    pub lang: Option<Lang>,
    /// `None`: the application's own background.
    pub photo_bg: Option<[u8; 3]>,
    /// Names of the colour tags.
    pub tag_names: Vec<String>,
    /// Disk cache limit in MiB (0: none).
    pub cache_limit_mb: u64,
    pub last_folder: Option<String>,
    pub recent_folders: Vec<String>,
    pub transfer_defaults: TransferDefaults,
    pub organize_defaults: OrganizeDefaults,
}

/// Mathematical form of [`Settings`].
pub struct SettingsModel {
    pub auto_advance: bool,
    pub recursive: bool,
    pub show_exif: bool,
    pub show_histogram: bool,
    pub check_updates: bool,
    pub preload: i32,
    pub grid_cols: usize,
    pub large_badges: bool,
    pub sort: SortOrder,
    pub view_carry: ViewCarry,
    pub dest_mode: DestMode,
    pub dest_folder: Seq<char>,
    pub lang: Option<Lang>,
    pub photo_bg: Option<Seq<u8>>,
    pub tag_names: Seq<Seq<char>>,
    pub cache_limit_mb: u64,
    pub last_folder: Option<Seq<char>>,
    pub recent_folders: Seq<Seq<char>>,
    pub transfer_defaults: DefaultsModel,
    pub organize_defaults: OrganizeDefaults,
}

/// The characters of each string of `v`.
pub open spec fn texts_of(v: Seq<String>) -> Seq<Seq<char>> {
    Seq::new(v.len(), |k: int| v[k]@)
}

impl View for Settings {
    type V = SettingsModel;

    open spec fn view(&self) -> SettingsModel {
        SettingsModel {
            auto_advance: self.auto_advance,
            recursive: self.recursive,
            show_exif: self.show_exif,
            show_histogram: self.show_histogram,
            check_updates: self.check_updates,
            preload: self.preload,
            grid_cols: self.grid_cols,
            large_badges: self.large_badges,
            sort: self.sort,
            view_carry: self.view_carry,
            dest_mode: self.dest_mode,
            dest_folder: self.dest_folder@,
            lang: self.lang,
            photo_bg: match self.photo_bg {
                Some(a) => Some(a@),
                None => None,
            },
            tag_names: texts_of(self.tag_names@),
            cache_limit_mb: self.cache_limit_mb,
            last_folder: match self.last_folder {
                Some(s) => Some(s@),
                None => None,
            },
            recent_folders: texts_of(self.recent_folders@),
            transfer_defaults: self.transfer_defaults@,
            organize_defaults: self.organize_defaults,
        }
    }
}

/// Restores the defaults `defaults` but keeps, from `old`, the last folder, the recent
/// folders and the last options of the transfer and organize dialogs.
pub fn reset_settings(defaults: Settings, old: Settings) -> (r: Settings)
    ensures
        r@ == (SettingsModel {
            last_folder: old@.last_folder,
            recent_folders: old@.recent_folders,
            transfer_defaults: old@.transfer_defaults,
            organize_defaults: old@.organize_defaults,
            ..defaults@
        }),
{
    Settings {
        last_folder: old.last_folder,
        recent_folders: old.recent_folders,
        transfer_defaults: old.transfer_defaults,
        organize_defaults: old.organize_defaults,
        ..defaults
    }
}

/// `v` held to `lo..=hi`.
pub open spec fn held(v: int, lo: int, hi: int) -> int {
    if v < lo {
        lo
    } else if v > hi {
        hi
    } else {
        v
    }
}

/// Whether `s` is blank once trimmed.
fn is_blank(s: &str) -> (r: bool)
    ensures
        r == (trim(s@).len() == 0),
{
    let c = chars_of(s);
    let (lo, hi) = trim_range(&c, 0, c.len());
    proof {
        assert(c@.subrange(0, c@.len() as int) =~= c@);
    }
    lo == hi
}

impl Settings {
    /// "Auto advance after rating" switched.
    pub fn set_auto_advance(&mut self, b: bool)
        ensures
            final(self)@ == (SettingsModel { auto_advance: b, ..old(self)@ }),
    {
        self.auto_advance = b;
    }

    /// "Include sub-folders" switched.
    pub fn set_recursive(&mut self, b: bool)
        ensures
            final(self)@ == (SettingsModel { recursive: b, ..old(self)@ }),
    {
        self.recursive = b;
    }

    /// "Show EXIF" switched.
    pub fn set_show_exif(&mut self, b: bool)
        ensures
            final(self)@ == (SettingsModel { show_exif: b, ..old(self)@ }),
    {
        self.show_exif = b;
    }

    /// "Show histogram" switched.
    pub fn set_show_histogram(&mut self, b: bool)
        ensures
            final(self)@ == (SettingsModel { show_histogram: b, ..old(self)@ }),
    {
        self.show_histogram = b;
    }

    /// "Check for updates" switched.
    pub fn set_check_updates(&mut self, b: bool)
        ensures
            final(self)@ == (SettingsModel { check_updates: b, ..old(self)@ }),
    {
        self.check_updates = b;
    }

    /// The preload value dragged to `v`, held to `0..=10`.
    pub fn set_preload(&mut self, v: i32)
        ensures
            final(self)@ == (SettingsModel { preload: held(v as int, 0, 10) as i32, ..old(self)@ }),
    {
        self.preload = if v < 0 {
            0
        } else if v > 10 {
            10
        } else {
            v
        };
    }

    /// The grid columns dragged to `v`, held to `4..=12`.
    pub fn set_grid_cols(&mut self, v: usize)
        ensures
            final(self)@ == (SettingsModel { grid_cols: held(v as int, 4, 12) as usize, ..old(self)@ }),
    {
        self.grid_cols = if v < 4 {
            4
        } else if v > 12 {
            12
        } else {
            v
        };
    }

    /// Large or small badges chosen.
    pub fn set_large_badges(&mut self, b: bool)
        ensures
            final(self)@ == (SettingsModel { large_badges: b, ..old(self)@ }),
    {
        self.large_badges = b;
    }

    /// The sort order chosen (the photos are then re-sorted: see `folder::sort_step`).
    pub fn set_sort(&mut self, o: SortOrder)
        ensures
            final(self)@ == (SettingsModel { sort: o, ..old(self)@ }),
    {
        self.sort = o;
    }

    /// What moving to another photo does to ORIG, chosen.
    pub fn set_view_carry(&mut self, v: ViewCarry)
        ensures
            final(self)@ == (SettingsModel { view_carry: v, ..old(self)@ }),
    {
        self.view_carry = v;
    }

    /// "Under the open folder" chosen as the transfer destination.
    pub fn choose_current_folder_dest(&mut self)
        ensures
            final(self)@ == (SettingsModel { dest_mode: DestMode::CurrentFolder, ..old(self)@ }),
    {
        self.dest_mode = DestMode::CurrentFolder;
    }

    /// "Set folder" chosen; the system's pictures folder `pictures` is proposed when no
    /// folder is set yet.
    pub fn choose_fixed_dest(&mut self, pictures: String)
        ensures
            final(self)@ == (SettingsModel {
                dest_mode: DestMode::Fixed,
                dest_folder: if trim(old(self)@.dest_folder).len() == 0 {
                    pictures@
                } else {
                    old(self)@.dest_folder
                },
                ..old(self)@
            }),
    {
        self.dest_mode = DestMode::Fixed;
        if is_blank(self.dest_folder.as_str()) {
            self.dest_folder = pictures;
        }
    }

    /// The destination folder typed as `t`; a folder that is not blank also selects "set
    /// folder".
    pub fn type_dest_folder(&mut self, t: String)
        ensures
            final(self)@ == (SettingsModel {
                dest_folder: t@,
                dest_mode: if trim(t@).len() > 0 {
                    DestMode::Fixed
                } else {
                    old(self)@.dest_mode
                },
                ..old(self)@
            }),
    {
        if !is_blank(t.as_str()) {
            self.dest_mode = DestMode::Fixed;
        }
        self.dest_folder = t;
    }

    /// A destination folder `p` picked in the file dialog: it is set and selected.
    pub fn pick_dest_folder(&mut self, p: String)
        ensures
            final(self)@ == (SettingsModel { dest_folder: p@, dest_mode: DestMode::Fixed, ..old(self)@ }),
    {
        self.dest_folder = p;
        self.dest_mode = DestMode::Fixed;
    }

    /// A language chosen (`None`: the system's). Returns whether it changed; choosing the
    /// language already set changes (and saves) nothing.
    pub fn choose_lang(&mut self, l: Option<Lang>) -> (changed: bool)
        ensures
            changed == (l != old(self)@.lang),
            final(self)@ == (SettingsModel { lang: l, ..old(self)@ }),
    {
        let same = match (l, self.lang) {
            (None, None) => true,
            (Some(a), Some(b)) => a == b,
            _ => false,
        };
        if !same {
            self.lang = l;
        }
        !same
    }

    /// A preset background chosen, or one set with the R, G, B values (`None`: the
    /// application's own).
    pub fn set_photo_bg(&mut self, bg: Option<[u8; 3]>)
        ensures
            final(self)@ == (SettingsModel {
                photo_bg: match bg {
                    Some(a) => Some(a@),
                    None => None,
                },
                ..old(self)@
            }),
    {
        self.photo_bg = bg;
    }

    /// The background's hexadecimal text edited to `t`: used when it is a colour (see
    /// `color::parse_hex_rgb`). Returns whether it was.
    pub fn type_photo_bg_hex(&mut self, t: &str) -> (changed: bool)
        ensures
            changed == (rgb_of(t@) is Some),
            final(self)@ == (match rgb_of(t@) {
                Some(v) => SettingsModel { photo_bg: Some(v), ..old(self)@ },
                None => old(self)@,
            }),
    {
        match parse_hex_rgb(t) {
            Some(rgb) => {
                self.photo_bg = Some(rgb);
                true
            },
            None => false,
        }
    }

    /// The name of colour tag `i` edited to `t`.
    pub fn set_tag_name(&mut self, i: usize, t: String)
        requires
            i < old(self).tag_names@.len(),
        ensures
            final(self)@ == (SettingsModel {
                tag_names: old(self)@.tag_names.update(i as int, t@),
                ..old(self)@
            }),
    {
        let ghost before = self.tag_names@;
        let ghost tv = t@;
        self.tag_names.set(i, t);
        proof {
            assert(texts_of(self.tag_names@) =~= texts_of(before).update(i as int, tv));
        }
    }

    /// The cache limit dragged to `v` MiB, held to `0..=1048576`.
    pub fn set_cache_limit(&mut self, v: u64)
        ensures
            final(self)@ == (SettingsModel { cache_limit_mb: held(v as int, 0, 1048576) as u64, ..old(self)@ }),
    {
        self.cache_limit_mb = if v > 1048576 {
            1048576
        } else {
            v
        };
    }
}

/// The settings screen closes (saving the settings and trimming the cache to the limit)
/// when "back" is clicked, or on Esc unless the license page is open over it.
pub fn settings_close(back_clicked: bool, esc: bool, licenses_open: bool) -> (r: bool)
    ensures
        r == (back_clicked || (esc && !licenses_open)),
{
    back_clicked || (esc && !licenses_open)
}

/// Restoring the defaults never loses history: the last folder, the recent folders and
/// the dialogs' last options are those from before, whatever the defaults hold.
pub proof fn law_reset_keeps_history(defaults: SettingsModel, old: SettingsModel)
    ensures
        ({
            let r = SettingsModel {
                last_folder: old.last_folder,
                recent_folders: old.recent_folders,
                transfer_defaults: old.transfer_defaults,
                organize_defaults: old.organize_defaults,
                ..defaults
            };
            &&& r.last_folder == old.last_folder
            &&& r.recent_folders == old.recent_folders
            &&& r.transfer_defaults == old.transfer_defaults
            &&& r.organize_defaults == old.organize_defaults
            &&& r.auto_advance == defaults.auto_advance
            &&& r.sort == defaults.sort
        }),
{
}

} // verus!
