use clap::{Arg, Command};
use kube_tag_radar::settings::default_database;

/// The command line of the program: one optional configuration file.
fn command() -> Command {
    Command::new("kube-tag-radar")
        .version("0.1.0")
        .propagate_version(true)
        .arg(Arg::new("config_file").default_value("config.yaml"))
}

#[test]
fn verify_cli() {
    command().debug_assert();
    let m = command().try_get_matches_from(["kube-tag-radar"]).unwrap();
    assert_eq!(m.get_one::<String>("config_file").map(String::as_str), Some("config.yaml"));
    assert!(!default_database().is_empty());
}
