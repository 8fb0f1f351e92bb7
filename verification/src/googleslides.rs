//! Google Slides command handler: `gslides` always redirects to Google Slides.

use vstd::prelude::*;
use vstd::string::StringExecFns;
use crate::command::{BunnypmslCommand, BunnypmslCommandInfo};

verus! {

pub struct GoogleSlidesCommand;

impl BunnypmslCommand for GoogleSlidesCommand {
    open spec fn spec_bindings() -> Seq<Seq<char>> {
        seq!["gslides"@]
    }

    open spec fn spec_resolve(args: Seq<char>) -> Seq<char> {
        "https://docs.google.com/presentation/u/0/"@
    }

    open spec fn spec_description() -> Seq<char> {
        "Navigate to Google Slides"@
    }

    open spec fn spec_example() -> Seq<char> {
        "gslides"@
    }

    fn bindings() -> (r: Vec<String>) {
        let mut v: Vec<String> = Vec::new();
        v.push(String::from_str("gslides"));
        proof {
            assert(v.deep_view() =~= seq!["gslides"@]);
        }
        v
    }

    fn process_args(_args: &str) -> (r: String) {
        "https://docs.google.com/presentation/u/0/".to_owned()
    }

    fn get_info() -> (r: BunnypmslCommandInfo) {
        BunnypmslCommandInfo {
            bindings: Self::bindings(),
            description: String::from_str("Navigate to Google Slides"),
            example: String::from_str("gslides"),
        }
    }
}

} // verus!
