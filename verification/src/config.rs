use vstd::prelude::*;
use vstd::string::StringExecFns;

use crate::entry::SortBy;
use crate::theme::ThemeName;

verus! {

/// The colors a configuration can name for each kind of entry.
pub struct ColorConfig {
    pub directory: String,
    pub file: String,
    pub symlink: String,
    pub selected: String,
}

impl Clone for ColorConfig {
    fn clone(&self) -> (r: Self)
        ensures
            r == *self,
    {
        ColorConfig {
            directory: self.directory.clone(),
            file: self.file.clone(),
            symlink: self.symlink.clone(),
            selected: self.selected.clone(),
        }
    }
}

impl Default for ColorConfig {
    fn default() -> (r: Self)
        ensures
            r.directory@ == ("blue")@,
            r.file@ == ("white")@,
            r.symlink@ == ("cyan")@,
            r.selected@ == ("yellow")@,
    {
        ColorConfig {
            directory: String::from_str("blue"),
            file: String::from_str("white"),
            symlink: String::from_str("cyan"),
            selected: String::from_str("yellow"),
        }
    }
}

/// What the user chose at startup, treated as immutable input.
pub struct Config {
    pub show_hidden: bool,
    pub sort_by: SortBy,
    pub colors: ColorConfig,
    pub keybinds: Vec<(String, String)>,
    pub theme: ThemeName,
}

impl Default for Config {
    fn default() -> (r: Self)
        ensures
            r.show_hidden == false,
            r.sort_by == SortBy::Name,
            r.keybinds@.len() == 0,
            r.theme == ThemeName::Default,
            r.colors.directory@ == ("blue")@,
            r.colors.file@ == ("white")@,
            r.colors.symlink@ == ("cyan")@,
            r.colors.selected@ == ("yellow")@,
    {
        Config {
            show_hidden: false,
            sort_by: SortBy::Name,
            colors: ColorConfig::default(),
            keybinds: Vec::new(),
            theme: ThemeName::Default,
        }
    }
}

} // verus!
