use passcurses::configs::{match_border_type, match_modifier, BorderKind, CursesConfigs, FileType, RawConfigs, StyleModifier};

#[test]
fn config_names_ignore_ascii_case() {
    assert_eq!(match_border_type("Rounded"), BorderKind::Rounded);
    assert_eq!(match_border_type("DOUBLE"), BorderKind::Double);
    assert_eq!(match_border_type("thick"), BorderKind::Thick);
    assert_eq!(match_border_type("wavy"), BorderKind::Plain);
    assert_eq!(match_modifier("Slow_Blink"), StyleModifier::SlowBlink);
    assert_eq!(match_modifier("CROSSED_OUT"), StyleModifier::CrossedOut);
    assert_eq!(match_modifier("shiny"), StyleModifier::Bold);
}

#[test]
fn default_configs_match_their_raw_text() {
    let raw = RawConfigs::default();
    let cfg = CursesConfigs::new(raw.border_type, raw.border_style, raw.title_style);
    assert_eq!(cfg, CursesConfigs::default());
    assert_eq!(cfg.title_style, StyleModifier::Italic);
}

#[test]
fn file_names() {
    assert_eq!(FileType::Passwords.name(), "passwords");
    assert_eq!(FileType::Config.name(), "config");
    assert_eq!(FileType::Passrc.name(), "passrc");
}
