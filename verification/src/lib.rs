//! Weather report pipeline: a typed domain model for current and forecast
//! weather data, a client layer that builds request URLs and decodes JSON
//! response bodies, and a fixed-width, localized box renderer.

pub mod catalog;
pub mod client;
pub mod codec;
pub mod errors;
pub mod json;
pub mod laws;
pub mod model;
pub mod render;
pub mod text;

use vstd::prelude::*;

verus! {

/// Width of the interior of every rendered report box, in display columns.
pub const PRINT_WIDTH: usize = 70;

/// Command-line arguments: one weather command.
#[derive(Debug, Clone, PartialEq, Eq)]
pub struct Cli {
    pub commands: WeatherCommand,
}

/// The commands the weather program accepts: current conditions, a
/// forecast, language configuration, or serving the reports over HTTP.
#[derive(Debug, Clone, PartialEq, Eq)]
pub enum WeatherCommand {
    Current { city: String },
    Forecast { city: String, days: usize },
    Language { commands: LanguageCommand },
    Web { port: u16 },
    Serve,
}

/// The language subcommands: set the language, list the available ones,
/// or show the current one.
#[derive(Debug, Clone, PartialEq, Eq)]
pub enum LanguageCommand {
    SetLang { lang: String },
    List,
    Get,
}

/// The configuration-file line that stores the chosen language.
pub fn language_config_line(lang: &str) -> (r: String)
    ensures
        r@ == "language="@ + lang@,
{
    let mut r = String::from_str("language=");
    r.append(lang);
    r
}

} // verus!
