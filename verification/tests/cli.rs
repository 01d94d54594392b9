use sui_id::cli::{find_subcommand, parse_command, parse_config_path, parse_named_path, CliError, Command};

fn args(v: &[&str]) -> Vec<String> {
    v.iter().map(|s| s.to_string()).collect()
}

#[test]
fn subcommand_skips_flag_values() {
    assert_eq!(find_subcommand(&args(&["sui-id", "--config", "backup", "restore"])), Some("restore".to_string()));
    assert_eq!(find_subcommand(&args(&["sui-id", "--config=x", "backup"])), Some("backup".to_string()));
    assert_eq!(find_subcommand(&args(&["sui-id", "--force", "backup"])), Some("backup".to_string()));
    assert_eq!(find_subcommand(&args(&["sui-id", "--to"])), None);
    assert_eq!(find_subcommand(&args(&["sui-id"])), None);
    assert_eq!(find_subcommand(&args(&[])), None);
}

#[test]
fn named_paths() {
    let a = args(&["sui-id", "backup", "--to", "/tmp/b.tar", "--config=/etc/s.toml"]);
    assert_eq!(parse_named_path(&a, "--to"), Some("/tmp/b.tar".to_string()));
    assert_eq!(parse_config_path(&a), Some("/etc/s.toml".to_string()));
    assert_eq!(parse_named_path(&a, "--from"), None);
    assert_eq!(parse_named_path(&args(&["x", "--to"]), "--to"), None);
    assert_eq!(parse_named_path(&args(&["x", "--to=", "--to", "y"]), "--to"), Some(String::new()));
}

#[test]
fn commands() {
    assert_eq!(parse_command(&args(&["sui-id", "backup", "--version"])), Ok(Command::Version));
    assert_eq!(parse_command(&args(&["sui-id", "-h"])), Ok(Command::Help));
    assert_eq!(parse_command(&args(&["sui-id", "--print-sample-config"])), Ok(Command::PrintSampleConfig));
    assert_eq!(
        parse_command(&args(&["sui-id"])),
        Ok(Command::Serve { config: "./sui-id.toml".to_string() })
    );
    assert_eq!(
        parse_command(&args(&["sui-id", "backup", "--to", "out.tar"])),
        Ok(Command::Backup { dest: "out.tar".to_string(), config: "./sui-id.toml".to_string() })
    );
    assert_eq!(parse_command(&args(&["sui-id", "backup"])), Err(CliError::BackupNeedsTo));
    assert_eq!(
        parse_command(&args(&["sui-id", "--config", "c.toml", "restore", "--from=b.tar", "--force"])),
        Ok(Command::Restore { src: "b.tar".to_string(), config: "c.toml".to_string(), force: true })
    );
    assert_eq!(parse_command(&args(&["sui-id", "restore"])), Err(CliError::RestoreNeedsFrom));
    assert_eq!(
        parse_command(&args(&["sui-id", "frobnicate"])),
        Err(CliError::UnknownSubcommand("frobnicate".to_string()))
    );
}
