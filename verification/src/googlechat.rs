//! Google Chat command handler: `gchat` always redirects to Google Chat.

use vstd::prelude::*;
use vstd::string::StringExecFns;
use crate::command::{BunnypmslCommand, BunnypmslCommandInfo};

verus! {

pub struct GoogleChatCommand;

impl BunnypmslCommand for GoogleChatCommand {
    open spec fn spec_bindings() -> Seq<Seq<char>> {
        seq!["gchat"@]
    }

    open spec fn spec_resolve(args: Seq<char>) -> Seq<char> {
        "https://chat.google.com/"@
    }

    open spec fn spec_description() -> Seq<char> {
        "Navigate to Google Chat"@
    }

    open spec fn spec_example() -> Seq<char> {
        "gchat"@
    }

    fn bindings() -> (r: Vec<String>) {
        let mut v: Vec<String> = Vec::new();
        v.push(String::from_str("gchat"));
        proof {
            assert(v.deep_view() =~= seq!["gchat"@]);
        }
        v
    }

    fn process_args(_args: &str) -> (r: String) {
        "https://chat.google.com/".to_owned()
    }

    fn get_info() -> (r: BunnypmslCommandInfo) {
        BunnypmslCommandInfo {
            bindings: Self::bindings(),
            description: String::from_str("Navigate to Google Chat"),
            example: String::from_str("gchat"),
        }
    }
}

} // verus!
