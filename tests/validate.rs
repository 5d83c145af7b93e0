use eha::request::{Args, Subcommand};
use eha::validate::{invalid_dns_name_char, validate_name, validate_ttl, ValidationError};

fn add(name: &str, minutes: usize) -> Args {
    Args {
        subcommand: Subcommand::Add { name: name.to_string(), expire_minutes: minutes },
        input_file: String::new(),
        test: true,
    }
}

#[test]
fn suffix_boundary() {
    assert_eq!(validate_name("a.local"), Ok(()));
    assert_eq!(validate_name("a.localhost"), Ok(()));
    assert_eq!(validate_name("a.com"), Err(ValidationError::InvalidSuffix));
    assert_eq!(validate_name("alocal"), Err(ValidationError::InvalidSuffix));
}

#[test]
fn label_length_boundary() {
    let ok = format!("{}.local", "a".repeat(63));
    assert_eq!(validate_name(&ok), Ok(()));
    let long = format!("{}.local", "a".repeat(64));
    assert_eq!(validate_name(&long), Err(ValidationError::InvalidLabelChar(0, 0, 'a')));
}

#[test]
fn hyphen_at_label_edges() {
    assert_eq!(validate_name("-a.local"), Err(ValidationError::InvalidLabelChar(0, 0, '-')));
    assert_eq!(validate_name("a-.local"), Err(ValidationError::InvalidLabelChar(0, 1, '-')));
    assert_eq!(validate_name("a-b.local"), Ok(()));
}

#[test]
fn invalid_characters_reported_with_position() {
    assert_eq!(validate_name("ok.a_b.local"), Err(ValidationError::InvalidLabelChar(1, 1, '_')));
    assert_eq!(validate_name("é.local"), Err(ValidationError::InvalidLabelChar(0, 0, 'é')));
}

#[test]
fn empty_labels_reported_before_characters() {
    assert_eq!(validate_name(".local"), Err(ValidationError::EmptyLabel(0)));
    assert_eq!(validate_name("a..local"), Err(ValidationError::EmptyLabel(1)));
    assert_eq!(validate_name("a_b..local"), Err(ValidationError::EmptyLabel(1)));
}

#[test]
fn ttl_boundary() {
    assert_eq!(validate_ttl(0), Err(ValidationError::TtlOutOfRange));
    assert_eq!(validate_ttl(525600 + 1), Err(ValidationError::TtlOutOfRange));
    assert_eq!(validate_ttl(1), Ok(()));
    assert_eq!(validate_ttl(525600), Ok(()));
}

#[test]
fn args_validate_checks_name_then_ttl() {
    assert_eq!(add("a.local", 1440).validate(), Ok(()));
    assert_eq!(add("a.local", 525600).validate(), Ok(()));
    assert_eq!(add("a.local", 0).validate(), Err(ValidationError::TtlOutOfRange));
    assert_eq!(add("a.com", 0).validate(), Err(ValidationError::InvalidSuffix));
    let remove = Args { subcommand: Subcommand::Remove { name: "anything".to_string() }, input_file: String::new(), test: false };
    assert_eq!(remove.validate(), Ok(()));
    let prune = Args { subcommand: Subcommand::RemoveExpired, input_file: String::new(), test: false };
    assert_eq!(prune.validate(), Ok(()));
}

#[test]
fn dns_name_char_rules() {
    assert!(!invalid_dns_name_char(&(0, 'a', 5)));
    assert!(invalid_dns_name_char(&(0, 'a', 64)));
    assert!(invalid_dns_name_char(&(0, '-', 5)));
    assert!(invalid_dns_name_char(&(4, '-', 5)));
    assert!(!invalid_dns_name_char(&(2, '-', 5)));
    assert!(invalid_dns_name_char(&(2, '.', 5)));
    assert!(!invalid_dns_name_char(&(2, '9', 5)));
}
