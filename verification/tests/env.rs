use omafetch::probe::env::basename;

#[test]
fn extracts_basename() {
    assert_eq!(basename("/usr/bin/zsh"), Some("zsh".to_string()));
    assert_eq!(basename("fish"), Some("fish".to_string()));
}
