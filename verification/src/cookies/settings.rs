//! The visitor's choice of theme and language.

use vstd::prelude::*;
use crate::text::str_eq;

verus! {

/// The colours of the pages.
#[derive(Clone, Copy, Debug, PartialEq, Eq, Structural)]
pub enum Theme {
    Light,
    Dark,
    System,
}

/// The language of the pages.
#[derive(Clone, Copy, Debug, PartialEq, Eq, Structural)]
pub enum Language {
    English,
    Tagalog,
}

/// What a visitor has chosen.
pub struct Settings {
    pub theme: Theme,
    pub custom_theme: String,
    pub language: Language,
}

impl Theme {
    /// The name of the theme.
    pub open spec fn name(self) -> Seq<char> {
        match self {
            Theme::Light => "light"@,
            Theme::Dark => "dark"@,
            Theme::System => "system"@,
        }
    }

    /// The theme that a name stands for; `Light` for a text that names
    /// none.
    pub open spec fn of_name(name: Seq<char>) -> Theme {
        if name == "dark"@ {
            Theme::Dark
        } else if name == "system"@ {
            Theme::System
        } else {
            Theme::Light
        }
    }

    /// The name of the theme.
    pub fn as_str(&self) -> (name: &'static str)
        ensures
            name@ == self.name(),
    {
        match self {
            Theme::Light => "light",
            Theme::Dark => "dark",
            Theme::System => "system",
        }
    }

    /// The theme that a name stands for; `Light` for a text that names
    /// none.
    pub fn from_str(str: &str) -> (theme: Theme)
        ensures
            theme == Theme::of_name(str@),
    {
        if str_eq(str, "dark") {
            Theme::Dark
        } else if str_eq(str, "system") {
            Theme::System
        } else {
            Theme::Light
        }
    }
}

impl Language {
    /// The code of the language.
    pub open spec fn name(self) -> Seq<char> {
        match self {
            Language::English => "en"@,
            Language::Tagalog => "ph"@,
        }
    }

    /// The language that a code stands for; `English` for a text that is
    /// no code.
    pub open spec fn of_name(name: Seq<char>) -> Language {
        if name == "ph"@ {
            Language::Tagalog
        } else {
            Language::English
        }
    }

    /// The code of the language.
    pub fn as_str(&self) -> (name: &'static str)
        ensures
            name@ == self.name(),
    {
        match self {
            Language::English => "en",
            Language::Tagalog => "ph",
        }
    }

    /// The language that a code stands for; `English` for a text that is
    /// no code.
    pub fn from_str(str: &str) -> (language: Language)
        ensures
            language == Language::of_name(str@),
    {
        if str_eq(str, "ph") {
            Language::Tagalog
        } else {
            Language::English
        }
    }
}

/// The theme that a visitor gets: the one named by the value of the theme
/// cookie, trimmed, and `Light` where there is no such cookie.
pub open spec fn default_theme(cookie: Option<&str>) -> Theme {
    match cookie {
        Some(value) => Theme::of_name(value@),
        None => Theme::Light,
    }
}

/// The language that a visitor gets: the one named by the value of the
/// language cookie, trimmed, and `English` where there is no such cookie.
pub open spec fn default_language(cookie: Option<&str>) -> Language {
    match cookie {
        Some(value) => Language::of_name(value@),
        None => Language::English,
    }
}

/// The theme that a visitor gets, given the trimmed value of the theme
/// cookie where there is one.
pub fn get_default_theme(cookie: Option<&str>) -> (theme: Theme)
    ensures
        theme == default_theme(cookie),
{
    if let Some(theme) = cookie {
        Theme::from_str(theme)
    } else {
        Theme::Light
    }
}

/// The language that a visitor gets, given the trimmed value of the
/// language cookie where there is one.
pub fn get_default_language(cookie: Option<&str>) -> (language: Language)
    ensures
        language == default_language(cookie),
{
    if let Some(lang) = cookie {
        Language::from_str(lang)
    } else {
        Language::English
    }
}

/// The theme and the language that a page is rendered with.
pub struct PageContext {
    pub theme: &'static str,
    pub lang: &'static str,
}

/// The theme and the language that a visitor's cookies ask for.
pub fn page_context(theme_cookie: Option<&str>, lang_cookie: Option<&str>) -> (context: PageContext)
    ensures
        context.theme@ == default_theme(theme_cookie).name(),
        context.lang@ == default_language(lang_cookie).name(),
{
    PageContext {
        theme: get_default_theme(theme_cookie).as_str(),
        lang: get_default_language(lang_cookie).as_str(),
    }
}

/// Every theme is read back from its own name.
pub proof fn lemma_theme_round_trip(theme: Theme)
    ensures
        Theme::of_name(theme.name()) == theme,
{
    reveal_strlit("light");
    reveal_strlit("dark");
    reveal_strlit("system");
    assert("light"@.len() == 5);
    assert("dark"@.len() == 4);
    assert("system"@.len() == 6);
}

/// Every language is read back from its own code.
pub proof fn lemma_language_round_trip(language: Language)
    ensures
        Language::of_name(language.name()) == language,
{
    reveal_strlit("en");
    reveal_strlit("ph");
    assert("en"@[0] == 'e');
    assert("ph"@[0] == 'p');
}

} // verus!
