//! Perplexity command handler: `p`, `p query`.

use vstd::prelude::*;
use vstd::string::StringExecFns;
use crate::command::{BunnypmslCommand, BunnypmslCommandInfo};
use crate::url_encoding::{build_search_url, search_url_spec};

verus! {

pub struct PerplexityCommand;

impl BunnypmslCommand for PerplexityCommand {
    open spec fn spec_bindings() -> Seq<Seq<char>> {
        seq!["p"@]
    }

    open spec fn spec_resolve(args: Seq<char>) -> Seq<char> {
        if args.len() == 0 {
            "https://perplexity.ai"@
        } else {
            search_url_spec("https://perplexity.ai/search"@, "q"@, args)
        }
    }

    open spec fn spec_description() -> Seq<char> {
        "Ask Perplexity"@
    }

    open spec fn spec_example() -> Seq<char> {
        "p why is the sky blue"@
    }

    fn bindings() -> (r: Vec<String>) {
        let mut v: Vec<String> = Vec::new();
        v.push(String::from_str("p"));
        proof {
            assert(v.deep_view() =~= seq!["p"@]);
        }
        v
    }

    fn process_args(args: &str) -> (r: String) {
        let query = Self::get_command_args(args);
        if query.is_empty() {
            "https://perplexity.ai".to_owned()
        } else {
            build_search_url("https://perplexity.ai/search", "q", query)
        }
    }

    fn get_info() -> (r: BunnypmslCommandInfo) {
        BunnypmslCommandInfo {
            bindings: Self::bindings(),
            description: String::from_str("Ask Perplexity"),
            example: String::from_str("p why is the sky blue"),
        }
    }
}

} // verus!
