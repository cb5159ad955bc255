use omafetch::cli::{Cli, Command};

#[test]
fn parses_default_fetch() {
    assert_eq!(
        Cli::parse(Vec::new()),
        Cli {
            command: None,
            modules: Vec::new()
        }
    );
}

#[test]
fn parses_list_command() {
    assert_eq!(
        Cli::parse(vec!["list".to_string()]),
        Cli {
            command: Some(Command::List),
            modules: Vec::new()
        }
    );
}

#[test]
fn parses_public_command() {
    assert_eq!(
        Cli::parse(vec!["public".to_string()]),
        Cli {
            command: Some(Command::Public),
            modules: Vec::new()
        }
    );
}

#[test]
fn parses_module_list() {
    assert_eq!(
        Cli::parse(vec!["cpu".to_string(), "gpu".to_string(), "memory".to_string()]),
        Cli {
            command: None,
            modules: vec!["cpu".to_string(), "gpu".to_string(), "memory".to_string()]
        }
    );
}

#[test]
fn subcommand_ignores_following_arguments() {
    assert_eq!(
        Cli::parse(vec!["list".to_string(), "cpu".to_string()]),
        Cli {
            command: Some(Command::List),
            modules: Vec::new()
        }
    );
}

#[test]
fn subcommand_only_counts_in_first_place() {
    assert_eq!(
        Cli::parse(vec!["cpu".to_string(), "public".to_string()]),
        Cli {
            command: None,
            modules: vec!["cpu".to_string(), "public".to_string()]
        }
    );
}
