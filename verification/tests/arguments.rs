//! Parameter and differ-command parsing behaviour.

use cliff::differ::parse_differ_command;
use cliff::error::Error;
use cliff::params::parse_key_val;

#[test]
fn key_value_splits_at_first_equals() {
    assert_eq!(
        parse_key_val("name=value"),
        Ok(("name".to_string(), "value".to_string()))
    );
    assert_eq!(
        parse_key_val("k=v=w"),
        Ok(("k".to_string(), "v=w".to_string()))
    );
    assert_eq!(parse_key_val("=v"), Ok((String::new(), "v".to_string())));
    assert_eq!(parse_key_val("k="), Ok(("k".to_string(), String::new())));
}

#[test]
fn missing_equals_is_rejected_with_the_original_message() {
    assert_eq!(
        parse_key_val("nokey"),
        Err("invalid KEY=value: no `=` found in `nokey`".to_string())
    );
}

#[test]
fn differ_command_splits_into_program_and_args() {
    assert_eq!(
        parse_differ_command("diff --label -u"),
        Ok(("diff".to_string(), vec!["--label".to_string(), "-u".to_string()]))
    );
    assert_eq!(parse_differ_command("colordiff"), Ok(("colordiff".to_string(), Vec::new())));
    assert_eq!(
        parse_differ_command("  git \t diff  "),
        Ok(("git".to_string(), vec!["diff".to_string()]))
    );
}

#[test]
fn empty_differ_configuration_is_rejected() {
    assert_eq!(parse_differ_command(""), Err(Error::Differ(String::new())));
    assert_eq!(parse_differ_command("   "), Err(Error::Differ("   ".to_string())));
}
