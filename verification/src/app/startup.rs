//! What the application looks like at the start.

use vstd::prelude::*;

use crate::app::state::{App, AppView};
use crate::text::{trimmed, Duplicate};
use crate::theme::detect::ColorMode;
use crate::theme::{Config, ConfigView, ThemeView};

verus! {

/// The theme that is asked for by name: the one given, unless it is blank, else the one of the
/// configuration.
pub open spec fn asked_theme(given: Option<Seq<char>>, config: Option<Seq<char>>) -> Option<
    Seq<char>,
> {
    match given {
        Some(name) => if crate::text::trim(name).len() > 0 {
            Some(name)
        } else {
            config
        },
        None => config,
    }
}

/// The theme to look for: the one asked for, else the one of the terminal's scheme, which is
/// dark where it is not known.
pub open spec fn wanted_theme(asked: Option<Seq<char>>, scheme: Option<ColorMode>) -> Seq<char> {
    match asked {
        Some(name) => name,
        None => if scheme == Some(ColorMode::Light) {
            "dsh-light"@
        } else {
            "dsh-dark"@
        },
    }
}

/// The theme of a name, where there is one.
pub open spec fn theme_named(themes: Seq<ThemeView>, name: Seq<char>) -> Option<ThemeView> {
    let at = crate::seqs::first_index(themes, crate::theme::called(name));
    if at < themes.len() {
        Some(themes[at])
    } else {
        None
    }
}

impl AppView {
    /// With a configuration, and the theme that it, the name given or the terminal's scheme
    /// ask for. A theme that is not known changes nothing, nor does any on a terminal without
    /// colors.
    pub open spec fn themed(
        self,
        config: ConfigView,
        given: Option<Seq<char>>,
        colors: bool,
        scheme: Option<ColorMode>,
    ) -> AppView {
        let there = self.with_config(config);
        match theme_named(self.themes, wanted_theme(asked_theme(given, config.theme), scheme)) {
            Some(theme) => if colors {
                there.with_theme(theme)
            } else {
                there
            },
            None => there,
        }
    }
}

impl App {
    /// Take a configuration, and the theme that follows from it. `given` is a name that goes
    /// before that of the configuration, `colors` whether the terminal shows themes, and
    /// `scheme` what is known of its background.
    pub fn load_theme_config(
        &mut self,
        config: Config,
        given: Option<String>,
        colors: bool,
        scheme: Option<ColorMode>,
    )
        ensures
            final(self)@ == old(self)@.themed(
                config@,
                crate::text::opt_view(given),
                colors,
                scheme,
            ),
    {
        let asked: Option<String> = match given {
            Some(name) => if !trimmed(name.as_str()).as_str().is_empty() {
                Some(name)
            } else {
                crate::text::duplicate_opt(&config.theme)
            },
            None => crate::text::duplicate_opt(&config.theme),
        };
        let wanted: String = match asked {
            Some(name) => name,
            None => match scheme {
                Some(ColorMode::Light) => "dsh-light".to_owned(),
                _ => "dsh-dark".to_owned(),
            },
        };
        let themes = self.themes();
        let ghost all = self@.themes;
        let found = match themes.find(wanted.as_str()) {
            Some(theme) => Some(theme.duplicate()),
            None => {
                proof {
                    crate::seqs::lemma_first_index_holds(all, crate::theme::called(wanted@));
                }
                None
            },
        };
        self.set_config(config);
        match found {
            Some(theme) => {
                if colors {
                    self.set_theme(theme);
                }
            },
            None => {},
        }
    }
}

/// Where no theme is asked for, a terminal with colors has the dark theme, unless its
/// background is known to be light: it never stays without a theme.
pub proof fn law_default_theme(app: AppView, config: ConfigView, scheme: Option<ColorMode>, theme: ThemeView)
    requires
        config.theme is None,
        theme_named(
            app.themes,
            if scheme == Some(ColorMode::Light) {
                "dsh-light"@
            } else {
                "dsh-dark"@
            },
        ) == Some(theme),
    ensures
        app.themed(config, None, true, scheme).theme == theme,
{
    reveal(AppView::with_config);
    reveal(AppView::with_theme);
}

/// A terminal without colors keeps the look it has, whatever is asked for.
pub proof fn law_no_colors_no_theme(
    app: AppView,
    config: ConfigView,
    given: Option<Seq<char>>,
    scheme: Option<ColorMode>,
)
    ensures
        app.themed(config, given, false, scheme).theme == app.theme,
{
    reveal(AppView::with_config);
}

} // verus!
