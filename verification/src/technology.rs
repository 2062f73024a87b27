//! The technologies that a project card can show an icon for.

use crate::text::same_text;
use vstd::prelude::*;

verus! {

/// The icon of a technology, named as in the icon set that draws it.
#[derive(Clone, Copy, Debug, PartialEq, Eq, Hash, Structural)]
pub enum Icon {
    SiPython,
    SiRust,
    SiFlask,
    SiLeptos,
    SiFlutter,
    SiDart,
    SiDiscord,
    SiPostgresql,
    SiSocketdotio,
    SiOpengl,
    SiJavascript,
    BsRocketTakeoffFill,
    SiFirebase,
    SiSwift,
    SiRedis,
}

/// The icon of the technology called `name`, if it has one. Names are matched
/// letter for letter, in lower case.
pub open spec fn icon_for(name: Seq<char>) -> Option<Icon> {
    if name == "python"@ {
        Some(Icon::SiPython)
    } else if name == "rust"@ {
        Some(Icon::SiRust)
    } else if name == "flask"@ {
        Some(Icon::SiFlask)
    } else if name == "leptos"@ {
        Some(Icon::SiLeptos)
    } else if name == "flutter"@ {
        Some(Icon::SiFlutter)
    } else if name == "dart"@ {
        Some(Icon::SiDart)
    } else if name == "discord"@ {
        Some(Icon::SiDiscord)
    } else if name == "postgres"@ {
        Some(Icon::SiPostgresql)
    } else if name == "socketio"@ {
        Some(Icon::SiSocketdotio)
    } else if name == "opengl"@ {
        Some(Icon::SiOpengl)
    } else if name == "javascript"@ {
        Some(Icon::SiJavascript)
    } else if name == "rocket"@ {
        Some(Icon::BsRocketTakeoffFill)
    } else if name == "firebase"@ {
        Some(Icon::SiFirebase)
    } else if name == "swift"@ {
        Some(Icon::SiSwift)
    } else if name == "redis"@ {
        Some(Icon::SiRedis)
    } else {
        None
    }
}

/// The icon of the technology called `tech_str`; `None` for a name that is not known.
pub fn tech_str_to_icon(tech_str: &str) -> (icon: Option<Icon>)
    ensures
        icon == icon_for(tech_str@),
{
    if same_text(tech_str, "python") {
        Some(Icon::SiPython)
    } else if same_text(tech_str, "rust") {
        Some(Icon::SiRust)
    } else if same_text(tech_str, "flask") {
        Some(Icon::SiFlask)
    } else if same_text(tech_str, "leptos") {
        Some(Icon::SiLeptos)
    } else if same_text(tech_str, "flutter") {
        Some(Icon::SiFlutter)
    } else if same_text(tech_str, "dart") {
        Some(Icon::SiDart)
    } else if same_text(tech_str, "discord") {
        Some(Icon::SiDiscord)
    } else if same_text(tech_str, "postgres") {
        Some(Icon::SiPostgresql)
    } else if same_text(tech_str, "socketio") {
        Some(Icon::SiSocketdotio)
    } else if same_text(tech_str, "opengl") {
        Some(Icon::SiOpengl)
    } else if same_text(tech_str, "javascript") {
        Some(Icon::SiJavascript)
    } else if same_text(tech_str, "rocket") {
        Some(Icon::BsRocketTakeoffFill)
    } else if same_text(tech_str, "firebase") {
        Some(Icon::SiFirebase)
    } else if same_text(tech_str, "swift") {
        Some(Icon::SiSwift)
    } else if same_text(tech_str, "redis") {
        Some(Icon::SiRedis)
    } else {
        None
    }
}

} // verus!
