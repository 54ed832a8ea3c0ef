use rt::envfile::EnvFile;

#[test]
fn test_env_file() {
    let env_file = EnvFile::new("KEY1=value1\nKEY2=value2");

    assert_eq!(env_file.get("KEY1"), Some("value1"));
    assert_eq!(env_file.get("KEY2"), Some("value2"));
    assert_eq!(env_file.get("NONEXISTENT"), None);
}

#[test]
fn test_ignores_exports() {
    let env_file = EnvFile::new("export KEY1=value1\nexport KEY2=value2");

    assert_eq!(env_file.get("KEY1"), Some("value1"));
    assert_eq!(env_file.get("KEY2"), Some("value2"));
}

#[test]
fn test_handles_quotes() {
    let env_file = EnvFile::new("KEY1=\"value1 foo\"\nKEY2='value2 bar'");

    assert_eq!(env_file.get("KEY1"), Some("value1 foo"));
    assert_eq!(env_file.get("KEY2"), Some("value2 bar"));
}

#[test]
fn test_last_binding_wins() {
    let env_file = EnvFile::new("KEY=first\nKEY=second");

    assert_eq!(env_file.get("KEY"), Some("second"));
}

#[test]
fn test_crlf_line_endings() {
    let env_file = EnvFile::new("KEY1=value1\r\nKEY2=value2\r\n");

    assert_eq!(env_file.get("KEY1"), Some("value1"));
    assert_eq!(env_file.get("KEY2"), Some("value2"));
}

#[test]
fn test_line_without_equals_is_skipped() {
    let env_file = EnvFile::new("just a line\nKEY=value");

    assert_eq!(env_file.get("just a line"), None);
    assert_eq!(env_file.get("KEY"), Some("value"));
}

#[test]
fn test_whitespace_is_trimmed() {
    let env_file = EnvFile::new("  KEY  =  value  ");

    assert_eq!(env_file.get("KEY"), Some("value"));
}

#[test]
fn test_empty_contents() {
    let env_file = EnvFile::new("");

    assert_eq!(env_file.get("KEY"), None);
}

#[test]
fn test_single_quote_value_is_kept() {
    let env_file = EnvFile::new("KEY='");

    assert_eq!(env_file.get("KEY"), Some("'"));
}
