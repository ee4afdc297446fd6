//! The application settings and their defaults.

use vstd::prelude::*;

verus! {

/// The application settings.
#[derive(Debug, Clone)]
pub struct AppSettings {
    pub app_name: String,
    /// `daily`, `weekly` or `monthly`.
    pub period: String,
    pub work_dir: String,
    /// `dark` or `light`.
    pub theme: String,
    pub file_pattern: String,
}

/// Default app name.
pub fn default_app_name() -> (s: String)
    ensures
        s@ == "通览"@,
{
    "通览".to_string()
}

/// Default period.
pub fn default_period() -> (s: String)
    ensures
        s@ == "weekly"@,
{
    "weekly".to_string()
}

/// Default working directory: none.
pub fn default_work_dir() -> (s: String)
    ensures
        s@ == Seq::<char>::empty(),
{
    String::new()
}

/// Default theme.
pub fn default_theme() -> (s: String)
    ensures
        s@ == "dark"@,
{
    "dark".to_string()
}

/// Default report file name pattern.
pub fn default_file_pattern() -> (s: String)
    ensures
        s@ == "report_{YYYY}{MM}{DD}.html"@,
{
    "report_{YYYY}{MM}{DD}.html".to_string()
}

impl Default for AppSettings {
    fn default() -> (s: AppSettings)
        ensures
            s.app_name@ == "通览"@,
            s.period@ == "weekly"@,
            s.work_dir@ == Seq::<char>::empty(),
            s.theme@ == "dark"@,
            s.file_pattern@ == "report_{YYYY}{MM}{DD}.html"@,
    {
        AppSettings {
            app_name: default_app_name(),
            period: default_period(),
            work_dir: default_work_dir(),
            theme: default_theme(),
            file_pattern: default_file_pattern(),
        }
    }
}

} // verus!
