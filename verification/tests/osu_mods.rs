use fibers::osu_mods::{OsuModLazer, OsuModLazerSettings, OsuModsLazer};

fn plain(acronym: &str) -> OsuModLazer {
    OsuModLazer { acronym: acronym.to_string(), settings: None }
}

fn sped(acronym: &str, speed: Option<f32>) -> OsuModLazer {
    OsuModLazer {
        acronym: acronym.to_string(),
        settings: Some(OsuModLazerSettings { speed_change: speed.map(f32::to_bits) }),
    }
}

#[test]
fn mods_from_str_takes_two_characters_at_a_time() {
    assert_eq!(OsuModsLazer::from_str(""), OsuModsLazer { mods: vec![] });
    assert_eq!(OsuModsLazer::from_str("HD"), OsuModsLazer { mods: vec![plain("HD")] });
    assert_eq!(
        OsuModsLazer::from_str("HDDTHR"),
        OsuModsLazer { mods: vec![plain("HD"), plain("DT"), plain("HR")] }
    );
}

#[test]
fn mods_from_str_keeps_a_character_that_is_left_over() {
    assert_eq!(OsuModsLazer::from_str("H"), OsuModsLazer { mods: vec![plain("H")] });
    assert_eq!(
        OsuModsLazer::from_str("HDD"),
        OsuModsLazer { mods: vec![plain("HD"), plain("D")] }
    );
}

#[test]
fn mods_from_str_counts_characters_not_bytes() {
    assert_eq!(
        OsuModsLazer::from_str("\u{e9}a\u{4e2d}"),
        OsuModsLazer { mods: vec![plain("\u{e9}a"), plain("\u{4e2d}")] }
    );
}

#[test]
fn mods_to_string_joins_the_acronyms() {
    let mods = OsuModsLazer { mods: vec![plain("HD"), sped("DT", Some(1.5)), plain("X")] };
    assert_eq!(mods.to_string(), "HDDTX");
    assert_eq!(OsuModsLazer { mods: vec![] }.to_string(), "");
    assert_eq!(plain("NC").to_string(), "NC");
}

#[test]
fn mods_text_round_trip() {
    for text in ["", "N", "NM", "HDD", "HDDTHRFL", "\u{e9}\u{e9}\u{e9}"] {
        assert_eq!(OsuModsLazer::from_str(text).to_string(), text);
    }
}

#[test]
fn mods_contains_an_acronym() {
    let mods = OsuModsLazer::from_str("HDDT");
    assert!(mods.contains("HD"));
    assert!(mods.contains("DT"));
    assert!(!mods.contains("HR"));
    assert!(!mods.contains("D"));
    assert!(!mods.contains("hd"));
    assert!(!OsuModsLazer { mods: vec![] }.contains("HD"));
}

#[test]
fn mods_speed_change_is_that_of_the_first_mod_that_has_one() {
    let none = OsuModsLazer { mods: vec![plain("HD"), sped("DT", None)] };
    assert_eq!(none.speed_changes(), None);
    let mods = OsuModsLazer {
        mods: vec![plain("HD"), sped("WU", None), sped("DT", Some(1.5)), sped("HT", Some(0.75))],
    };
    assert_eq!(mods.speed_changes(), Some(1.5f32.to_bits()));
    assert_eq!(mods.speed_changes().map(f32::from_bits), Some(1.5));
    assert_eq!(OsuModsLazer { mods: vec![] }.speed_changes(), None);
}

#[test]
fn mods_default_is_no_mod() {
    assert_eq!(OsuModsLazer::default(), OsuModsLazer { mods: vec![plain("NM")] });
    assert_eq!(OsuModsLazer::default().to_string(), "NM");
}
