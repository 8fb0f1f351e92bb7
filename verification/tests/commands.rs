use bunnypmsl::bindings::BindingsCommand;
use bunnypmsl::command::{BunnypmslCommand, BunnypmslCommandInfo};
use bunnypmsl::github::GitHubCommand;
use bunnypmsl::godocs::GodocsCommand;
use bunnypmsl::googlechat::GoogleChatCommand;
use bunnypmsl::googlesheets::GoogleSheetsCommand;
use bunnypmsl::googleslides::GoogleSlidesCommand;
use bunnypmsl::perplexity::PerplexityCommand;

// Mock command used by the trait-level tests.
struct TestCommand;

impl BunnypmslCommand for TestCommand {
    fn bindings() -> Vec<String> {
        vec!["test".to_string(), "t".to_string()]
    }

    fn process_args(args: &str) -> String {
        let query = Self::get_command_args(args);
        if query.is_empty() {
            "https://test.com".to_string()
        } else {
            format!("https://test.com/search?q={}", query)
        }
    }

    fn get_info() -> BunnypmslCommandInfo {
        BunnypmslCommandInfo {
            bindings: Self::bindings(),
            description: "Test command".to_string(),
            example: "test query".to_string(),
        }
    }
}

#[test]
fn test_bindings_command() {
    assert_eq!(BindingsCommand::process_args("bindings"), "/bindings");
}

#[test]
fn test_commands_command() {
    assert_eq!(BindingsCommand::process_args("commands"), "/bindings");
}

#[test]
fn test_bunny_command() {
    assert_eq!(BindingsCommand::process_args("bunny"), "/bindings");
}

#[test]
fn test_cmd_command() {
    assert_eq!(BindingsCommand::process_args("cmd"), "/bindings");
}

#[test]
fn test_cmds_command() {
    assert_eq!(BindingsCommand::process_args("cmds"), "/bindings");
}

#[test]
fn test_help_command() {
    assert_eq!(BindingsCommand::process_args("help"), "/bindings");
}

#[test]
fn test_bunnypmsl_command_get_command_args() {
    assert_eq!(TestCommand::get_command_args("test"), "");
    assert_eq!(TestCommand::get_command_args("test hello"), "hello");
    assert_eq!(TestCommand::get_command_args("test hello world"), "hello world");
}

#[test]
fn test_bunnypmsl_command_matches_command() {
    assert!(TestCommand::matches_command("test"));
    assert!(TestCommand::matches_command("t"));
    assert!(!TestCommand::matches_command("other"));
}

#[test]
fn test_bunnypmsl_command_process_args() {
    assert_eq!(TestCommand::process_args("test"), "https://test.com");
    assert_eq!(TestCommand::process_args("t"), "https://test.com");
    assert_eq!(TestCommand::process_args("test hello"), "https://test.com/search?q=hello");
    assert_eq!(TestCommand::process_args("t hello"), "https://test.com/search?q=hello");
}

#[test]
fn test_github_command_base() {
    assert_eq!(GitHubCommand::process_args("gh"), "https://github.com");
}

#[test]
fn test_github_command_user() {
    assert_eq!(GitHubCommand::process_args("gh daveio"), "https://github.com/daveio");
}

#[test]
fn test_github_command_repo() {
    assert_eq!(
        GitHubCommand::process_args("gh daveio/bunnypmsl"),
        "https://github.com/daveio/bunnypmsl"
    );
}

#[test]
fn test_godocs_command() {
    assert_eq!(GodocsCommand::process_args("godocs"), "https://go.dev/doc/");
    assert_eq!(GodocsCommand::process_args("godocs anything"), "https://go.dev/doc/");
}

#[test]
fn test_google_chat_command() {
    assert_eq!(GoogleChatCommand::process_args("gchat"), "https://chat.google.com/");
}

#[test]
fn test_google_chat_command_with_args() {
    assert_eq!(GoogleChatCommand::process_args("gchat some args"), "https://chat.google.com/");
}

#[test]
fn test_google_sheets_command() {
    assert_eq!(
        GoogleSheetsCommand::process_args("gsheets"),
        "https://docs.google.com/spreadsheets/u/0/"
    );
}

#[test]
fn test_google_sheets_command_with_args() {
    assert_eq!(
        GoogleSheetsCommand::process_args("gsheets some args"),
        "https://docs.google.com/spreadsheets/u/0/"
    );
}

#[test]
fn test_google_slides_command() {
    assert_eq!(
        GoogleSlidesCommand::process_args("gslides"),
        "https://docs.google.com/presentation/u/0/"
    );
}

#[test]
fn test_google_slides_command_with_args() {
    assert_eq!(
        GoogleSlidesCommand::process_args("gslides some args"),
        "https://docs.google.com/presentation/u/0/"
    );
}

#[test]
fn test_perplexity_command_base() {
    assert_eq!(PerplexityCommand::process_args("p"), "https://perplexity.ai");
}

#[test]
fn test_perplexity_command_query() {
    assert_eq!(
        PerplexityCommand::process_args("p why is the sky blue"),
        "https://perplexity.ai/search?q=why%20is%20the%20sky%20blue"
    );
}

#[test]
fn test_get_command_args_extra_whitespace() {
    assert_eq!(TestCommand::get_command_args("test   hello"), "hello");
    assert_eq!(TestCommand::get_command_args("other hello"), "other hello");
    assert_eq!(TestCommand::get_command_args(""), "");
    assert_eq!(TestCommand::get_command_args("   "), "   ");
}

#[test]
fn test_get_command_args_leading_whitespace() {
    assert_eq!(TestCommand::get_command_args("  test x"), "x");
    assert_eq!(TestCommand::get_command_args(" test"), "");
    assert_eq!(TestCommand::get_command_args("\u{2000}test hello"), "hello");
}

#[test]
fn test_matches_command_empty_and_whitespace() {
    assert!(!TestCommand::matches_command(""));
    assert!(!TestCommand::matches_command(" "));
    assert!(!TestCommand::matches_command("tes"));
    assert!(!TestCommand::matches_command("TEST"));
}

#[test]
fn test_get_info_fields() {
    let info = GitHubCommand::get_info();
    assert_eq!(info.bindings, vec!["gh".to_string()]);
    assert_eq!(info.description, "Navigate to GitHub repositories");
    assert_eq!(info.example, "gh daveio/bunnypmsl");
}
