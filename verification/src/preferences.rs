//! The application preferences that are kept between runs.

use vstd::prelude::*;
use vstd::string::*;

verus! {

/// The shortcut for the quick pane where the preferences name none.
pub const DEFAULT_QUICK_PANE_SHORTCUT: &'static str = "CommandOrControl+Shift+.";

/// The preferences that are saved between runs.
#[derive(Debug, Clone)]
pub struct AppPreferences {
    /// The theme's name: `light`, `dark` or `system`.
    pub theme: String,
    /// The global shortcut for the quick pane; when absent, the default one.
    pub quick_pane_shortcut: Option<String>,
    /// The user's language; when absent, the system's locale decides.
    pub language: Option<String>,
}

impl Default for AppPreferences {
    /// The preferences of a first run: the system's theme, the default
    /// shortcut and the system's language.
    fn default() -> (prefs: Self)
        ensures
            prefs.theme@ == "system"@,
            prefs.quick_pane_shortcut is None,
            prefs.language is None,
    {
        AppPreferences { theme: "system".to_owned(), quick_pane_shortcut: None, language: None }
    }
}

} // verus!
