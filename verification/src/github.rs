//! GitHub command handler: `gh`, `gh user`, `gh user/repo`.

use vstd::prelude::*;
use vstd::string::StringExecFns;
use crate::command::{BunnypmslCommand, BunnypmslCommandInfo};
use crate::url_encoding::{build_path_url, path_url_spec};

verus! {

pub struct GitHubCommand;

impl BunnypmslCommand for GitHubCommand {
    open spec fn spec_bindings() -> Seq<Seq<char>> {
        seq!["gh"@]
    }

    open spec fn spec_resolve(args: Seq<char>) -> Seq<char> {
        if args.len() == 0 {
            "https://github.com"@
        } else {
            path_url_spec("https://github.com"@, args)
        }
    }

    open spec fn spec_description() -> Seq<char> {
        "Navigate to GitHub repositories"@
    }

    open spec fn spec_example() -> Seq<char> {
        "gh daveio/bunnypmsl"@
    }

    fn bindings() -> (r: Vec<String>) {
        let mut v: Vec<String> = Vec::new();
        v.push(String::from_str("gh"));
        proof {
            assert(v.deep_view() =~= seq!["gh"@]);
        }
        v
    }

    fn process_args(args: &str) -> (r: String) {
        let query = Self::get_command_args(args);
        if query.is_empty() {
            "https://github.com".to_owned()
        } else {
            build_path_url("https://github.com", query)
        }
    }

    fn get_info() -> (r: BunnypmslCommandInfo) {
        BunnypmslCommandInfo {
            bindings: Self::bindings(),
            description: String::from_str("Navigate to GitHub repositories"),
            example: String::from_str("gh daveio/bunnypmsl"),
        }
    }
}

} // verus!
