use clad::chat::ChatArgs;
use clad::cli::{should_route_to_chat, Cli, CliDispatch, Commands};

fn args_vec(args: &[&str]) -> Vec<String> {
    args.iter().map(|s| s.to_string()).collect()
}

#[test]
fn test_no_args_shows_help() {
    let args = args_vec(&["c"]);
    assert!(!should_route_to_chat(&args));
}

#[test]
fn test_explicit_chat_subcommand() {
    let args = args_vec(&["c", "chat", "hello"]);
    assert!(!should_route_to_chat(&args));
}

#[test]
fn test_explicit_history_subcommand_no_args() {
    let args = args_vec(&["c", "history"]);
    assert!(!should_route_to_chat(&args));
}

#[test]
fn test_explicit_shell_subcommand_no_args() {
    let args = args_vec(&["c", "shell"]);
    assert!(!should_route_to_chat(&args));
}

#[test]
fn test_history_with_args_routes_to_chat() {
    let args = args_vec(&["c", "history", "from", "yesterday"]);
    assert!(
        should_route_to_chat(&args),
        "Expected 'c history from yesterday' to route to chat"
    );
}

#[test]
fn test_shell_with_args_routes_to_chat() {
    let args = args_vec(&["c", "shell", "is", "broken"]);
    assert!(
        should_route_to_chat(&args),
        "Expected 'c shell is broken' to route to chat"
    );
}

#[test]
fn test_simple_query_routes_to_chat() {
    let args = args_vec(&["c", "hello"]);
    assert!(should_route_to_chat(&args));
}

#[test]
fn test_multi_word_query_routes_to_chat() {
    let args = args_vec(&["c", "hello", "world"]);
    assert!(should_route_to_chat(&args));
}

#[test]
fn test_interactive_flag_routes_to_chat() {
    let args = args_vec(&["c", "-i"]);
    assert!(should_route_to_chat(&args));
}

#[test]
fn test_help_flag_does_not_route_to_chat() {
    let args = args_vec(&["c", "--help"]);
    assert!(!should_route_to_chat(&args));
}

#[test]
fn test_version_flag_does_not_route_to_chat() {
    let args = args_vec(&["c", "--version"]);
    assert!(!should_route_to_chat(&args));
}

#[test]
fn test_query_starting_with_dash_routes_to_chat() {
    let args = args_vec(&["c", "-x"]);
    assert!(should_route_to_chat(&args));
}

#[test]
fn test_chat_subcommand_with_no_args() {
    let args = args_vec(&["c", "chat"]);
    assert!(!should_route_to_chat(&args));
}

#[test]
fn test_history_with_short_flag_goes_to_subcommand() {
    let args = args_vec(&["c", "history", "-l"]);
    assert!(
        !should_route_to_chat(&args),
        "Expected 'c history -l' to go to history subcommand"
    );
}

#[test]
fn test_history_with_long_flag_goes_to_subcommand() {
    let args = args_vec(&["c", "history", "--list"]);
    assert!(
        !should_route_to_chat(&args),
        "Expected 'c history --list' to go to history subcommand"
    );
}

#[test]
fn test_history_with_help_flag_goes_to_subcommand() {
    let args = args_vec(&["c", "history", "--help"]);
    assert!(
        !should_route_to_chat(&args),
        "Expected 'c history --help' to go to history subcommand"
    );
}

#[test]
fn test_shell_with_short_flag_goes_to_subcommand() {
    let args = args_vec(&["c", "shell", "-i"]);
    assert!(
        !should_route_to_chat(&args),
        "Expected 'c shell -i' to go to shell subcommand"
    );
}

#[test]
fn test_shell_with_long_flag_goes_to_subcommand() {
    let args = args_vec(&["c", "shell", "--install"]);
    assert!(
        !should_route_to_chat(&args),
        "Expected 'c shell --install' to go to shell subcommand"
    );
}

#[test]
fn test_shell_with_status_flag_goes_to_subcommand() {
    let args = args_vec(&["c", "shell", "--status"]);
    assert!(
        !should_route_to_chat(&args),
        "Expected 'c shell --status' to go to shell subcommand"
    );
}

#[test]
fn test_internals_does_not_route_to_chat() {
    let args = args_vec(&["c", "internals", "dump-cli-json"]);
    assert!(!should_route_to_chat(&args));
}

#[test]
fn test_cli_dispatch_none_shows_help() {
    let cli = Cli { command: None };
    assert!(matches!(cli.execute(), CliDispatch::ShowHelp));
}

#[test]
fn test_cli_dispatch_chat() {
    let cli = Cli {
        command: Some(Commands::Chat(ChatArgs {
            interactive: false,
            query: vec!["hello".to_string()],
        })),
    };
    match cli.execute() {
        CliDispatch::Chat(args) => {
            assert!(!args.interactive);
            assert_eq!(args.query, vec!["hello"]);
        }
        other => panic!("Expected Chat dispatch, got {:?}", other),
    }
}
