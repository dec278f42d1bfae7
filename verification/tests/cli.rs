use analog_library::cli::{abstract_output, available_commands, command, unknown_command_message, Command};

#[test]
fn subcommands() {
    assert!(matches!(command(None), Command::Serve));
    assert!(matches!(command(Some("serve")), Command::Serve));
    assert!(matches!(command(Some("json")), Command::Json));
    assert!(matches!(command(Some("html")), Command::Html));
    assert!(matches!(command(Some("bib")), Command::Bib));
    assert!(matches!(command(Some("abs")), Command::Abs));
    assert!(matches!(command(Some("cache")), Command::Cache));
    assert!(matches!(command(Some("frob")), Command::Unknown(c) if c == "frob"));
    assert_eq!(unknown_command_message("frob"), "unknown command frob");
    assert_eq!(available_commands(), "available commands are: serve, json, html, bib, abs, cache");
    assert_eq!(abstract_output(None), "No abstract found.");
    assert_eq!(abstract_output(Some("x".to_string())), "x");
}
