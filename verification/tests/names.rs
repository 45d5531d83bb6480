use fmu_runner::library::InstanceNameFactory;
use fmu_runner::text::{decimal_text, holds_nul, same_text};

#[test]
fn names_count_up_from_zero() {
    let mut factory = InstanceNameFactory::new("bouncing_ball".to_string());
    assert_eq!(factory.next(), "bouncing_ball_0");
    assert_eq!(factory.next(), "bouncing_ball_1");
    assert_eq!(factory.next(), "bouncing_ball_2");
}

#[test]
fn names_are_unique() {
    let mut factory = InstanceNameFactory::new("m_1".to_string());
    let mut seen: Vec<String> = Vec::new();
    for _ in 0..1200 {
        let name = factory.next();
        assert!(!seen.contains(&name));
        seen.push(name);
    }
    assert_eq!(seen[1199], "m_1_1199");
}

#[test]
fn names_of_an_empty_identifier() {
    let mut factory = InstanceNameFactory::new(String::new());
    assert_eq!(factory.next(), "_0");
}

#[test]
fn numbers_are_written_in_decimal() {
    assert_eq!(decimal_text(0), "0");
    assert_eq!(decimal_text(9), "9");
    assert_eq!(decimal_text(10), "10");
    assert_eq!(decimal_text(907), "907");
    assert_eq!(decimal_text(usize::MAX), format!("{}", usize::MAX));
}

#[test]
fn texts_are_compared_by_content() {
    assert!(same_text("linux", "linux"));
    assert!(!same_text("linux", "Linux"));
    assert!(!same_text("linux", ""));
}

#[test]
fn a_nul_is_found_anywhere_in_a_text() {
    assert!(!holds_nul(""));
    assert!(!holds_nul("log0"));
    assert!(!holds_nul("\u{e9}\u{1f600}"));
    assert!(holds_nul("\0"));
    assert!(holds_nul("a\0b"));
    assert!(holds_nul("\u{e9}\0"));
}
