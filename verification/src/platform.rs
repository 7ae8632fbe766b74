//! The installation variants and the default path template of each platform.

use vstd::prelude::*;
use crate::model::texts;

verus! {

/// The platforms whose browser installations are known.
#[derive(Debug, Clone, Copy, PartialEq, Eq)]
pub enum Platform {
    Linux,
    MacOs,
    Windows,
}

/// The names of a platform's installation variants, the preferred one first.
pub open spec fn variant_names(platform: Platform) -> Seq<Seq<char>> {
    match platform {
        Platform::Linux => seq![
            "google-chrome"@,
            "google-chrome-beta"@,
            "google-chrome-unstable"@,
            "chromium"@,
        ],
        Platform::MacOs => seq!["Chrome"@, "Chrome Beta"@, "Chromium"@, "Chrome Canary"@],
        Platform::Windows => seq!["Chrome"@, "Chrome Beta"@, "Chromium"@, "Chrome SxS"@],
    }
}

/// The path template of a platform's store, with the placeholder where the
/// variant's name belongs.
pub open spec fn template_text(platform: Platform) -> Seq<char> {
    match platform {
        Platform::Linux => "$HOME/.config/{edition}/Default/Bookmarks"@,
        Platform::MacOs => "$HOME/Library/Application Support/Google/{edition}/Default/Bookmarks"@,
        Platform::Windows => "%LOCALAPPDATA%\\Google\\{edition}\\Default\\Bookmarks"@,
    }
}

impl Platform {
    /// The installation variants to try, in order of priority.
    pub fn variants(self) -> (names: Vec<String>)
        ensures
            texts(names@) == variant_names(self),
    {
        let mut names: Vec<String> = Vec::new();
        match self {
            Platform::Linux => {
                names.push("google-chrome".to_owned());
                names.push("google-chrome-beta".to_owned());
                names.push("google-chrome-unstable".to_owned());
                names.push("chromium".to_owned());
            },
            Platform::MacOs => {
                names.push("Chrome".to_owned());
                names.push("Chrome Beta".to_owned());
                names.push("Chromium".to_owned());
                names.push("Chrome Canary".to_owned());
            },
            Platform::Windows => {
                names.push("Chrome".to_owned());
                names.push("Chrome Beta".to_owned());
                names.push("Chromium".to_owned());
                names.push("Chrome SxS".to_owned());
            },
        }
        proof {
            assert(texts(names@) =~= variant_names(self));
        }
        names
    }

    /// The default path template of the store.
    pub fn default_template(self) -> (template: String)
        ensures
            template@ == template_text(self),
    {
        match self {
            Platform::Linux => "$HOME/.config/{edition}/Default/Bookmarks".to_owned(),
            Platform::MacOs => "$HOME/Library/Application Support/Google/{edition}/Default/Bookmarks".to_owned(),
            Platform::Windows => "%LOCALAPPDATA%\\Google\\{edition}\\Default\\Bookmarks".to_owned(),
        }
    }
}

} // verus!
