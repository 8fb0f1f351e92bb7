//! Google Sheets command handler: `gsheets` always redirects to Google Sheets.

use vstd::prelude::*;
use vstd::string::StringExecFns;
use crate::command::{BunnypmslCommand, BunnypmslCommandInfo};

verus! {

pub struct GoogleSheetsCommand;

impl BunnypmslCommand for GoogleSheetsCommand {
    open spec fn spec_bindings() -> Seq<Seq<char>> {
        seq!["gsheets"@]
    }

    open spec fn spec_resolve(args: Seq<char>) -> Seq<char> {
        "https://docs.google.com/spreadsheets/u/0/"@
    }

    open spec fn spec_description() -> Seq<char> {
        "Navigate to Google Sheets"@
    }

    open spec fn spec_example() -> Seq<char> {
        "gsheets"@
    }

    fn bindings() -> (r: Vec<String>) {
        let mut v: Vec<String> = Vec::new();
        v.push(String::from_str("gsheets"));
        proof {
            assert(v.deep_view() =~= seq!["gsheets"@]);
        }
        v
    }

    fn process_args(_args: &str) -> (r: String) {
        "https://docs.google.com/spreadsheets/u/0/".to_owned()
    }

    fn get_info() -> (r: BunnypmslCommandInfo) {
        BunnypmslCommandInfo {
            bindings: Self::bindings(),
            description: String::from_str("Navigate to Google Sheets"),
            example: String::from_str("gsheets"),
        }
    }
}

} // verus!
