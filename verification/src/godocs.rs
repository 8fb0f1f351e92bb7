//! Go documentation command handler: `godocs` always redirects to the Go docs.

use vstd::prelude::*;
use vstd::string::StringExecFns;
use crate::command::{BunnypmslCommand, BunnypmslCommandInfo};

verus! {

pub struct GodocsCommand;

impl BunnypmslCommand for GodocsCommand {
    open spec fn spec_bindings() -> Seq<Seq<char>> {
        seq!["godocs"@]
    }

    open spec fn spec_resolve(args: Seq<char>) -> Seq<char> {
        "https://go.dev/doc/"@
    }

    open spec fn spec_description() -> Seq<char> {
        "Navigate to Go language documentation"@
    }

    open spec fn spec_example() -> Seq<char> {
        "godocs"@
    }

    fn bindings() -> (r: Vec<String>) {
        let mut v: Vec<String> = Vec::new();
        v.push(String::from_str("godocs"));
        proof {
            assert(v.deep_view() =~= seq!["godocs"@]);
        }
        v
    }

    fn process_args(_args: &str) -> (r: String) {
        "https://go.dev/doc/".to_owned()
    }

    fn get_info() -> (r: BunnypmslCommandInfo) {
        BunnypmslCommandInfo {
            bindings: Self::bindings(),
            description: String::from_str("Navigate to Go language documentation"),
            example: String::from_str("godocs"),
        }
    }
}

} // verus!
