//! The command registry: the fixed catalog of all commands, alias resolution,
//! dispatch of a raw command string to a destination URL, and enumeration of
//! metadata for presentation.

use vstd::prelude::*;
use crate::bindings::BindingsCommand;
use crate::command::{BunnypmslCommand, BunnypmslCommandInfo};
use crate::github::GitHubCommand;
use crate::godocs::GodocsCommand;
use crate::googlechat::GoogleChatCommand;
use crate::googlesheets::GoogleSheetsCommand;
use crate::googleslides::GoogleSlidesCommand;
use crate::perplexity::PerplexityCommand;
use crate::text::{extract_args, first_token, first_token_of};

verus! {

/// One tag per registered command.
#[derive(Clone, Copy, PartialEq, Eq, Structural, Debug)]
pub enum RegisteredCommand {
    Bindings,
    GitHub,
    Godocs,
    GoogleChat,
    GoogleSheets,
    GoogleSlides,
    Perplexity,
}

/// Every registered command, in registration order.
pub open spec fn registered_commands() -> Seq<RegisteredCommand> {
    seq![
        RegisteredCommand::Bindings,
        RegisteredCommand::GitHub,
        RegisteredCommand::Godocs,
        RegisteredCommand::GoogleChat,
        RegisteredCommand::GoogleSheets,
        RegisteredCommand::GoogleSlides,
        RegisteredCommand::Perplexity,
    ]
}

/// The alias set a command declares.
pub open spec fn command_bindings(c: RegisteredCommand) -> Seq<Seq<char>> {
    match c {
        RegisteredCommand::Bindings => BindingsCommand::spec_bindings(),
        RegisteredCommand::GitHub => GitHubCommand::spec_bindings(),
        RegisteredCommand::Godocs => GodocsCommand::spec_bindings(),
        RegisteredCommand::GoogleChat => GoogleChatCommand::spec_bindings(),
        RegisteredCommand::GoogleSheets => GoogleSheetsCommand::spec_bindings(),
        RegisteredCommand::GoogleSlides => GoogleSlidesCommand::spec_bindings(),
        RegisteredCommand::Perplexity => PerplexityCommand::spec_bindings(),
    }
}

/// The destination URL a command yields for given extracted arguments.
pub open spec fn command_resolve(c: RegisteredCommand, args: Seq<char>) -> Seq<char> {
    match c {
        RegisteredCommand::Bindings => BindingsCommand::spec_resolve(args),
        RegisteredCommand::GitHub => GitHubCommand::spec_resolve(args),
        RegisteredCommand::Godocs => GodocsCommand::spec_resolve(args),
        RegisteredCommand::GoogleChat => GoogleChatCommand::spec_resolve(args),
        RegisteredCommand::GoogleSheets => GoogleSheetsCommand::spec_resolve(args),
        RegisteredCommand::GoogleSlides => GoogleSlidesCommand::spec_resolve(args),
        RegisteredCommand::Perplexity => PerplexityCommand::spec_resolve(args),
    }
}

/// The description a command declares.
pub open spec fn command_description(c: RegisteredCommand) -> Seq<char> {
    match c {
        RegisteredCommand::Bindings => BindingsCommand::spec_description(),
        RegisteredCommand::GitHub => GitHubCommand::spec_description(),
        RegisteredCommand::Godocs => GodocsCommand::spec_description(),
        RegisteredCommand::GoogleChat => GoogleChatCommand::spec_description(),
        RegisteredCommand::GoogleSheets => GoogleSheetsCommand::spec_description(),
        RegisteredCommand::GoogleSlides => GoogleSlidesCommand::spec_description(),
        RegisteredCommand::Perplexity => PerplexityCommand::spec_description(),
    }
}

/// The example invocation a command declares.
pub open spec fn command_example(c: RegisteredCommand) -> Seq<char> {
    match c {
        RegisteredCommand::Bindings => BindingsCommand::spec_example(),
        RegisteredCommand::GitHub => GitHubCommand::spec_example(),
        RegisteredCommand::Godocs => GodocsCommand::spec_example(),
        RegisteredCommand::GoogleChat => GoogleChatCommand::spec_example(),
        RegisteredCommand::GoogleSheets => GoogleSheetsCommand::spec_example(),
        RegisteredCommand::GoogleSlides => GoogleSlidesCommand::spec_example(),
        RegisteredCommand::Perplexity => PerplexityCommand::spec_example(),
    }
}

/// The command owning an alias, scanning the catalog in registration order.
pub open spec fn find_command(t: Seq<char>) -> Option<RegisteredCommand> {
    if BindingsCommand::spec_bindings().contains(t) {
        Some(RegisteredCommand::Bindings)
    } else if GitHubCommand::spec_bindings().contains(t) {
        Some(RegisteredCommand::GitHub)
    } else if GodocsCommand::spec_bindings().contains(t) {
        Some(RegisteredCommand::Godocs)
    } else if GoogleChatCommand::spec_bindings().contains(t) {
        Some(RegisteredCommand::GoogleChat)
    } else if GoogleSheetsCommand::spec_bindings().contains(t) {
        Some(RegisteredCommand::GoogleSheets)
    } else if GoogleSlidesCommand::spec_bindings().contains(t) {
        Some(RegisteredCommand::GoogleSlides)
    } else if PerplexityCommand::spec_bindings().contains(t) {
        Some(RegisteredCommand::Perplexity)
    } else {
        None
    }
}

/// What dispatching a raw command string yields: the owning command's URL for
/// the extracted arguments, or nothing when no command claims the first token.
pub open spec fn dispatch_spec(raw: Seq<char>) -> Option<Seq<char>> {
    match find_command(first_token(raw)) {
        Some(c) => Some(command_resolve(c, extract_args(command_bindings(c), raw))),
        None => None,
    }
}

/// Every registered command's alias list is non-empty and holds no alias
/// twice.
pub proof fn lemma_command_bindings_wf(c: RegisteredCommand)
    ensures
        command_bindings(c).len() > 0,
        forall|i: int, j: int|
            0 <= i < j < command_bindings(c).len() ==> command_bindings(c)[i]
                != command_bindings(c)[j],
{
    if c is Bindings {
        reveal_strlit("bindings");
        reveal_strlit("commands");
        reveal_strlit("list");
        reveal_strlit("bunny");
        reveal_strlit("cmd");
        reveal_strlit("cmds");
        reveal_strlit("help");
        assert forall|i: int, j: int|
            0 <= i < j < command_bindings(c).len() implies command_bindings(c)[i]
            != command_bindings(c)[j] by {
            let s = command_bindings(c);
            assert(s[0][0] == 'b' && s[1][0] == 'c' && s[2][0] == 'l' && s[3][0] == 'b'
                && s[4][0] == 'c' && s[5][0] == 'c' && s[6][0] == 'h');
            assert(s[0].len() == 8 && s[1].len() == 8 && s[2].len() == 4 && s[3].len() == 5
                && s[4].len() == 3 && s[5].len() == 4 && s[6].len() == 4);
        }
    }
}

proof fn lemma_not_a_bindings_alias(t: Seq<char>)
    requires
        t != "bindings"@,
        t != "commands"@,
        t != "list"@,
        t != "bunny"@,
        t != "cmd"@,
        t != "cmds"@,
        t != "help"@,
    ensures
        !BindingsCommand::spec_bindings().contains(t),
{
    let s = BindingsCommand::spec_bindings();
    if s.contains(t) {
        let i = choose|i: int| 0 <= i < s.len() && s[i] == t;
        assert(i == 0 || i == 1 || i == 2 || i == 3 || i == 4 || i == 5 || i == 6);
    }
}

/// Every declared alias resolves to its owning command: the registry's index
/// is complete and unambiguous.
pub proof fn lemma_resolve_finds_owner(t: Seq<char>, c: RegisteredCommand)
    requires
        command_bindings(c).contains(t),
    ensures
        find_command(t) == Some(c),
{
    reveal_strlit("bindings");
    reveal_strlit("commands");
    reveal_strlit("list");
    reveal_strlit("bunny");
    reveal_strlit("cmd");
    reveal_strlit("cmds");
    reveal_strlit("help");
    reveal_strlit("gh");
    reveal_strlit("godocs");
    reveal_strlit("gchat");
    reveal_strlit("gsheets");
    reveal_strlit("gslides");
    reveal_strlit("p");
    match c {
        RegisteredCommand::Bindings => {
            assert(BindingsCommand::spec_bindings().contains(t));
            assert(find_command(t) == Some(RegisteredCommand::Bindings));
        },
        RegisteredCommand::GitHub => {
            assert(t == "gh"@);
            lemma_not_a_bindings_alias(t);
        },
        RegisteredCommand::Godocs => {
            assert(t == "godocs"@);
            lemma_not_a_bindings_alias(t);
        },
        RegisteredCommand::GoogleChat => {
            assert(t == "gchat"@);
            assert(t != "bunny"@) by {
                assert(t[0] == 'g' && "bunny"@[0] == 'b');
            }
            lemma_not_a_bindings_alias(t);
        },
        RegisteredCommand::GoogleSheets => {
            assert(t == "gsheets"@);
            lemma_not_a_bindings_alias(t);
        },
        RegisteredCommand::GoogleSlides => {
            assert(t == "gslides"@);
            assert(t != "gsheets"@) by {
                assert(t[2] == 'l' && "gsheets"@[2] == 'h');
            }
            lemma_not_a_bindings_alias(t);
        },
        RegisteredCommand::Perplexity => {
            assert(t == "p"@);
            lemma_not_a_bindings_alias(t);
        },
    }
}

/// Global alias uniqueness: no two distinct registered commands claim the
/// same alias, so an alias resolves to exactly one command.
pub proof fn lemma_alias_uniqueness(t: Seq<char>, c1: RegisteredCommand, c2: RegisteredCommand)
    requires
        command_bindings(c1).contains(t),
        command_bindings(c2).contains(t),
    ensures
        c1 == c2,
{
    lemma_resolve_finds_owner(t, c1);
    lemma_resolve_finds_owner(t, c2);
}

/// A raw string whose first token no registered command claims dispatches to
/// the explicit not-found signal.
pub proof fn lemma_dispatch_unknown(raw: Seq<char>)
    requires
        forall|c: RegisteredCommand|
            !(#[trigger] command_bindings(c)).contains(first_token(raw)),
    ensures
        dispatch_spec(raw) is None,
{
    let t = first_token(raw);
    assert(!command_bindings(RegisteredCommand::Bindings).contains(t));
    assert(!command_bindings(RegisteredCommand::GitHub).contains(t));
    assert(!command_bindings(RegisteredCommand::Godocs).contains(t));
    assert(!command_bindings(RegisteredCommand::GoogleChat).contains(t));
    assert(!command_bindings(RegisteredCommand::GoogleSheets).contains(t));
    assert(!command_bindings(RegisteredCommand::GoogleSlides).contains(t));
    assert(!command_bindings(RegisteredCommand::Perplexity).contains(t));
}

/// The empty string and every whitespace-only string dispatch to the explicit
/// not-found signal: they have no first token, and no alias is empty.
pub proof fn lemma_dispatch_whitespace_only(raw: Seq<char>)
    requires
        forall|j: int| 0 <= j < raw.len() ==> crate::text::is_space(#[trigger] raw[j]),
    ensures
        dispatch_spec(raw) is None,
{
    crate::text::lemma_first_token_all_space(raw);
    let t = first_token(raw);
    reveal_strlit("bindings");
    reveal_strlit("commands");
    reveal_strlit("list");
    reveal_strlit("bunny");
    reveal_strlit("cmd");
    reveal_strlit("cmds");
    reveal_strlit("help");
    reveal_strlit("gh");
    reveal_strlit("godocs");
    reveal_strlit("gchat");
    reveal_strlit("gsheets");
    reveal_strlit("gslides");
    reveal_strlit("p");
    lemma_not_a_bindings_alias(t);
    assert(find_command(t) is None);
}

/// Resolve an alias to the command that claims it by exact string equality.
pub fn resolve(first_token: &str) -> (r: Option<RegisteredCommand>)
    ensures
        r == find_command(first_token@),
{
    if BindingsCommand::matches_command(first_token) {
        Some(RegisteredCommand::Bindings)
    } else if GitHubCommand::matches_command(first_token) {
        Some(RegisteredCommand::GitHub)
    } else if GodocsCommand::matches_command(first_token) {
        Some(RegisteredCommand::Godocs)
    } else if GoogleChatCommand::matches_command(first_token) {
        Some(RegisteredCommand::GoogleChat)
    } else if GoogleSheetsCommand::matches_command(first_token) {
        Some(RegisteredCommand::GoogleSheets)
    } else if GoogleSlidesCommand::matches_command(first_token) {
        Some(RegisteredCommand::GoogleSlides)
    } else if PerplexityCommand::matches_command(first_token) {
        Some(RegisteredCommand::Perplexity)
    } else {
        None
    }
}

/// Dispatch a raw command string: resolve its first whitespace-delimited
/// token and let the owning command turn the remaining arguments into a
/// destination URL; `None` when no command claims the token.
pub fn dispatch(raw_input: &str) -> (r: Option<String>)
    ensures
        r.deep_view() == dispatch_spec(raw_input@),
{
    let token = first_token_of(raw_input);
    match resolve(token) {
        Some(c) => {
            let url = match c {
                RegisteredCommand::Bindings => BindingsCommand::process_args(raw_input),
                RegisteredCommand::GitHub => GitHubCommand::process_args(raw_input),
                RegisteredCommand::Godocs => GodocsCommand::process_args(raw_input),
                RegisteredCommand::GoogleChat => GoogleChatCommand::process_args(raw_input),
                RegisteredCommand::GoogleSheets => GoogleSheetsCommand::process_args(raw_input),
                RegisteredCommand::GoogleSlides => GoogleSlidesCommand::process_args(raw_input),
                RegisteredCommand::Perplexity => PerplexityCommand::process_args(raw_input),
            };
            Some(url)
        },
        None => None,
    }
}

/// Whether an info record carries exactly a command's declared metadata.
pub open spec fn info_matches(info: BunnypmslCommandInfo, c: RegisteredCommand) -> bool {
    &&& info.bindings.deep_view() == command_bindings(c)
    &&& info.description@ == command_description(c)
    &&& info.example@ == command_example(c)
}

/// One metadata record per registered command, in registration order.
pub fn list_all_metadata() -> (r: Vec<BunnypmslCommandInfo>)
    ensures
        r@.len() == registered_commands().len(),
        forall|i: int|
            0 <= i < r@.len() ==> #[trigger] info_matches(r@[i], registered_commands()[i]),
{
    let mut v: Vec<BunnypmslCommandInfo> = Vec::new();
    v.push(BindingsCommand::get_info());
    v.push(GitHubCommand::get_info());
    v.push(GodocsCommand::get_info());
    v.push(GoogleChatCommand::get_info());
    v.push(GoogleSheetsCommand::get_info());
    v.push(GoogleSlidesCommand::get_info());
    v.push(PerplexityCommand::get_info());
    proof {
        assert forall|i: int| 0 <= i < v@.len() implies #[trigger] info_matches(
            v@[i],
            registered_commands()[i],
        ) by {
            assert(registered_commands()[0] == RegisteredCommand::Bindings);
            assert(registered_commands()[1] == RegisteredCommand::GitHub);
            assert(registered_commands()[2] == RegisteredCommand::Godocs);
            assert(registered_commands()[3] == RegisteredCommand::GoogleChat);
            assert(registered_commands()[4] == RegisteredCommand::GoogleSheets);
            assert(registered_commands()[5] == RegisteredCommand::GoogleSlides);
            assert(registered_commands()[6] == RegisteredCommand::Perplexity);
        }
    }
    v
}

} // verus!
