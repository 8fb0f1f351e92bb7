//! Bindings command handler: several aliases all lead to the command portal.

use vstd::prelude::*;
use vstd::string::StringExecFns;
use crate::command::{BunnypmslCommand, BunnypmslCommandInfo};

verus! {

pub struct BindingsCommand;

impl BunnypmslCommand for BindingsCommand {
    open spec fn spec_bindings() -> Seq<Seq<char>> {
        seq!["bindings"@, "commands"@, "list"@, "bunny"@, "cmd"@, "cmds"@, "help"@]
    }

    open spec fn spec_resolve(args: Seq<char>) -> Seq<char> {
        "/bindings"@
    }

    open spec fn spec_description() -> Seq<char> {
        "View all Bunnypmsl command bindings in a web portal"@
    }

    open spec fn spec_example() -> Seq<char> {
        "bindings"@
    }

    fn bindings() -> (r: Vec<String>) {
        let mut v: Vec<String> = Vec::new();
        v.push(String::from_str("bindings"));
        v.push(String::from_str("commands"));
        v.push(String::from_str("list"));
        v.push(String::from_str("bunny"));
        v.push(String::from_str("cmd"));
        v.push(String::from_str("cmds"));
        v.push(String::from_str("help"));
        proof {
            assert(v.deep_view() =~= Self::spec_bindings());
        }
        v
    }

    fn process_args(_args: &str) -> (r: String) {
        "/bindings".to_owned()
    }

    fn get_info() -> (r: BunnypmslCommandInfo) {
        BunnypmslCommandInfo {
            bindings: Self::bindings(),
            description: String::from_str(
                "View all Bunnypmsl command bindings in a web portal",
            ),
            example: String::from_str("bindings"),
        }
    }
}

} // verus!
