use portfolio::technology::{tech_str_to_icon, Icon};

#[test]
fn every_known_technology_has_its_icon() {
    let table = [
        ("python", Icon::SiPython),
        ("rust", Icon::SiRust),
        ("flask", Icon::SiFlask),
        ("leptos", Icon::SiLeptos),
        ("flutter", Icon::SiFlutter),
        ("dart", Icon::SiDart),
        ("discord", Icon::SiDiscord),
        ("postgres", Icon::SiPostgresql),
        ("socketio", Icon::SiSocketdotio),
        ("opengl", Icon::SiOpengl),
        ("javascript", Icon::SiJavascript),
        ("rocket", Icon::BsRocketTakeoffFill),
        ("firebase", Icon::SiFirebase),
        ("swift", Icon::SiSwift),
        ("redis", Icon::SiRedis),
    ];
    for (name, icon) in table {
        assert_eq!(tech_str_to_icon(name), Some(icon), "{name}");
    }
}

#[test]
fn unknown_technologies_have_no_icon() {
    for name in ["", "Rust", "RUST", " rust", "rust ", "cobol", "pythons", "pytho"] {
        assert_eq!(tech_str_to_icon(name), None, "{name:?}");
    }
}
