use cellsight::theme::Theme;
use cellsight::theme_ctl::{color_line, parse_args, usage};

#[test]
fn theme_ctl_reads_its_arguments() {
    assert_eq!(usage(), "usage: theme-ctl <theme.json> [color-name]");
    assert_eq!(parse_args(&vec![]).err(), Some(usage().to_string()));
    let one = parse_args(&vec!["t.json".to_string()]).ok().unwrap();
    assert_eq!(one.path, "t.json");
    assert_eq!(one.key, None);
    let two = parse_args(&vec!["t.json".to_string(), "panel".to_string()]).ok().unwrap();
    assert_eq!(two.key, Some("panel".to_string()));
    let three = vec!["a".to_string(), "b".to_string(), "c".to_string()];
    assert_eq!(parse_args(&three).err(), Some(usage().to_string()));
}

#[test]
fn theme_ctl_prints_a_color_or_names_the_unknown_value() {
    let theme = Theme::default();
    assert_eq!(color_line(&theme, "canvas"), Ok("#0e0f0e".to_string()));
    assert_eq!(color_line(&theme, "glow"), Err("unknown theme value `glow`".to_string()));
}
