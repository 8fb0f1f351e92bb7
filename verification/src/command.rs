//! The contract every command satisfies: a fixed non-empty set of trigger
//! aliases, the shared argument-extraction rule, and a total resolve function
//! from extracted arguments to a destination URL.

use vstd::prelude::*;
use crate::text::{contains_string, extract_args, extract_command_args};

verus! {

/// Information about a registered command binding, for human consumption.
pub struct BunnypmslCommandInfo {
    pub bindings: Vec<String>,
    pub description: String,
    pub example: String,
}

/// The command contract. A command is stateless: its aliases, description and
/// example are constants, and its resolve function is total over all text.
pub trait BunnypmslCommand {
    /// The command's trigger aliases, in declaration order.
    open spec fn spec_bindings() -> Seq<Seq<char>> {
        Seq::empty()
    }

    /// The destination URL for given (already extracted) arguments.
    open spec fn spec_resolve(args: Seq<char>) -> Seq<char> {
        Seq::empty()
    }

    /// The command's human-readable description.
    open spec fn spec_description() -> Seq<char> {
        Seq::empty()
    }

    /// The command's example invocation.
    open spec fn spec_example() -> Seq<char> {
        Seq::empty()
    }

    /// All command strings that trigger this binding.
    fn bindings() -> (r: Vec<String>)
        ensures
            r.deep_view() == Self::spec_bindings(),
    ;

    /// Process the raw command string and return the destination URL.
    fn process_args(args: &str) -> (r: String)
        ensures
            r@ == Self::spec_resolve(extract_args(Self::spec_bindings(), args@)),
    ;

    /// Get the argument portion from the full raw command string.
    fn get_command_args<'a>(args: &'a str) -> (r: &'a str)
        ensures
            r@ == extract_args(Self::spec_bindings(), args@),
    {
        let bs = Self::bindings();
        extract_command_args(&bs, args)
    }

    /// Whether this command claims the given alias, by exact equality.
    fn matches_command(command: &str) -> (r: bool)
        ensures
            r == Self::spec_bindings().contains(command@),
    {
        let bs = Self::bindings();
        contains_string(&bs, command)
    }

    /// Information about this command: aliases, description and one example.
    fn get_info() -> (r: BunnypmslCommandInfo)
        ensures
            r.bindings.deep_view() == Self::spec_bindings(),
            r.description@ == Self::spec_description(),
            r.example@ == Self::spec_example(),
    ;
}

} // verus!
