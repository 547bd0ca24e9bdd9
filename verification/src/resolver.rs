//! Resolution of an inbound invocation against the command tree: walks at
//! most three levels (command, optional group, optional subcommand) and
//! rewrites the option list to the selected leaf's local arguments. Any
//! mismatch or missing key is "not found" — a normal outcome, never a panic.

use vstd::prelude::*;

use crate::options::{CommandDataOption, OptionValue};
use crate::tree::{lookup_pair, CommandTree, Group, Leaf, Node};

verus! {

/// What resolution returns for a command `name` with option list `options`:
/// the handler reference of the selected leaf together with the innermost
/// option list, or nothing when any lookup step fails.
pub open spec fn spec_resolve(
    tree: &CommandTree,
    name: Seq<char>,
    options: Seq<CommandDataOption>,
) -> Option<(u64, Seq<CommandDataOption>)> {
    if options.len() == 0 || !options[0].is_nested() {
        match lookup_pair(tree.entries@, name) {
            Some(Node::Leaf(leaf)) => Some((leaf.handler, options)),
            _ => None,
        }
    } else {
        let first = options[0];
        match lookup_pair(tree.entries@, name) {
            Some(Node::Group(group)) => match first.value {
                OptionValue::SubCommand(nested) => match group {
                    Group::Simple(subs) => match lookup_pair(subs@, first.name@) {
                        Some(leaf) => Some((leaf.handler, nested@)),
                        None => None,
                    },
                    Group::Nested(_) => None,
                },
                OptionValue::SubCommandGroup(outer) => {
                    if outer@.len() > 0 && outer@[0].value is SubCommand {
                        let inner = outer@[0];
                        match group {
                            Group::Nested(groups) => match lookup_pair(groups@, first.name@) {
                                Some(subs) => match lookup_pair(subs@, inner.name@) {
                                    Some(leaf) => Some((leaf.handler, inner.value->SubCommand_0@)),
                                    None => None,
                                },
                                None => None,
                            },
                            Group::Simple(_) => None,
                        }
                    } else {
                        None
                    }
                },
                OptionValue::Arg(_) => None,
            },
            _ => None,
        }
    }
}

/// Pops the leading option when it is tagged as a subcommand or a subcommand
/// group; otherwise leaves the list untouched.
pub fn get_next(options: &mut Vec<CommandDataOption>) -> (r: Option<CommandDataOption>)
    ensures
        match r {
            Some(first) => old(options)@.len() > 0 && old(options)@[0].is_nested()
                && first == old(options)@[0]
                && final(options)@ == old(options)@.skip(1),
            None => (old(options)@.len() == 0 || !old(options)@[0].is_nested())
                && final(options)@ == old(options)@,
        },
{
    if options.len() > 0 && options[0].has_nested_tag() {
        let first = options.remove(0);
        proof {
            assert(old(options)@.remove(0) =~= old(options)@.skip(1));
        }
        Some(first)
    } else {
        None
    }
}

/// Walks the tree for `name` with `options`, per the platform's schema:
/// no leading tagged option resolves at top level; a leading `SubCommand`
/// resolves inside a flat group; a leading `SubCommandGroup` resolves through
/// a nested group and requires an inner `SubCommand`. On success the returned
/// option list is the innermost one, which becomes the leaf's arguments.
pub fn resolve(
    tree: &CommandTree,
    name: &String,
    options: Vec<CommandDataOption>,
) -> (r: Option<(u64, Vec<CommandDataOption>)>)
    ensures
        match r {
            Some(found) => spec_resolve(tree, name@, options@) == Some((found.0, found.1@)),
            None => spec_resolve(tree, name@, options@) is None,
        },
{
    let mut rest = options;
    match get_next(&mut rest) {
        None => match find_node(tree, name) {
            Some(Node::Leaf(leaf)) => Some((leaf.handler, rest)),
            _ => None,
        },
        Some(first) => {
            let group = match find_node(tree, name) {
                Some(Node::Group(g)) => g,
                _ => {
                    return None;
                },
            };
            let CommandDataOption { name: first_name, value: first_value } = first;
            match first_value {
                OptionValue::SubCommand(nested) => match group {
                    Group::Simple(subs) => match crate::tree::find_pair(subs, &first_name) {
                        Some(leaf) => Some((leaf.handler, nested)),
                        None => None,
                    },
                    Group::Nested(_) => None,
                },
                OptionValue::SubCommandGroup(outer) => {
                    let mut outer = outer;
                    let inner = match get_next(&mut outer) {
                        Some(o) => o,
                        None => {
                            return None;
                        },
                    };
                    let CommandDataOption { name: inner_name, value: inner_value } = inner;
                    let inner_opts = match inner_value {
                        OptionValue::SubCommand(v) => v,
                        _ => {
                            return None;
                        },
                    };
                    match group {
                        Group::Nested(groups) => match crate::tree::find_pair(groups, &first_name) {
                            Some(subs) => match crate::tree::find_pair(subs, &inner_name) {
                                Some(leaf) => Some((leaf.handler, inner_opts)),
                                None => None,
                            },
                            None => None,
                        },
                        Group::Simple(_) => None,
                    }
                },
                OptionValue::Arg(_) => None,
            }
        },
    }
}

/// Looks `name` up among the tree's top-level entries.
fn find_node<'a>(tree: &'a CommandTree, name: &String) -> (r: Option<&'a Node>)
    ensures
        match r {
            Some(node) => lookup_pair(tree.entries@, name@) == Some(*node),
            None => lookup_pair(tree.entries@, name@) is None,
        },
{
    crate::tree::find_pair(&tree.entries, name)
}

/// When the option list has no leading `SubCommand`/`SubCommandGroup` tag,
/// resolution consults only the top-level map: it succeeds exactly on a
/// top-level leaf, with the option list left as the leaf's arguments.
pub proof fn lemma_top_level_only(
    tree: &CommandTree,
    name: Seq<char>,
    options: Seq<CommandDataOption>,
)
    requires
        options.len() == 0 || !options[0].is_nested(),
    ensures
        spec_resolve(tree, name, options) == (match lookup_pair(tree.entries@, name) {
            Some(Node::Leaf(leaf)) => Some((leaf.handler, options)),
            _ => None,
        }),
{
}

/// A valid two-level path (command, then a registered subcommand in a flat
/// group) resolves to the exact registered leaf, and the leaf's arguments are
/// the subcommand's nested option list.
pub proof fn lemma_two_level_path(
    tree: &CommandTree,
    name: Seq<char>,
    first: CommandDataOption,
    rest: Seq<CommandDataOption>,
    subs: Vec<(String, Leaf)>,
    leaf: Leaf,
)
    requires
        lookup_pair(tree.entries@, name) == Some(Node::Group(Group::Simple(subs))),
        lookup_pair(subs@, first.name@) == Some(leaf),
        first.value is SubCommand,
    ensures
        spec_resolve(tree, name, seq![first] + rest) == Some(
            (leaf.handler, first.value->SubCommand_0@),
        ),
{
    assert((seq![first] + rest)[0] == first);
}

/// A valid three-level path (command, then a registered subcommand-group,
/// then a registered subcommand) resolves to the exact registered leaf, and
/// the leaf's arguments are the innermost option list.
pub proof fn lemma_three_level_path(
    tree: &CommandTree,
    name: Seq<char>,
    first: CommandDataOption,
    rest: Seq<CommandDataOption>,
    inner: CommandDataOption,
    inner_rest: Seq<CommandDataOption>,
    groups: Vec<(String, Vec<(String, Leaf)>)>,
    subs: Vec<(String, Leaf)>,
    leaf: Leaf,
)
    requires
        lookup_pair(tree.entries@, name) == Some(Node::Group(Group::Nested(groups))),
        lookup_pair(groups@, first.name@) == Some(subs),
        lookup_pair(subs@, inner.name@) == Some(leaf),
        first.value == OptionValue::SubCommandGroup(first.value->SubCommandGroup_0),
        first.value->SubCommandGroup_0@ == seq![inner] + inner_rest,
        inner.value is SubCommand,
    ensures
        spec_resolve(tree, name, seq![first] + rest) == Some(
            (leaf.handler, inner.value->SubCommand_0@),
        ),
{
    assert((seq![first] + rest)[0] == first);
    assert((seq![inner] + inner_rest)[0] == inner);
}

/// An unregistered top-level name yields "not found", whatever the options.
pub proof fn lemma_unknown_top_level(
    tree: &CommandTree,
    name: Seq<char>,
    options: Seq<CommandDataOption>,
)
    requires
        lookup_pair(tree.entries@, name) is None,
    ensures
        spec_resolve(tree, name, options) is None,
{
}

/// An unregistered subcommand name inside a flat group yields "not found".
pub proof fn lemma_unknown_subcommand(
    tree: &CommandTree,
    name: Seq<char>,
    first: CommandDataOption,
    rest: Seq<CommandDataOption>,
    subs: Vec<(String, Leaf)>,
)
    requires
        lookup_pair(tree.entries@, name) == Some(Node::Group(Group::Simple(subs))),
        first.value is SubCommand,
        lookup_pair(subs@, first.name@) is None,
    ensures
        spec_resolve(tree, name, seq![first] + rest) is None,
{
    assert((seq![first] + rest)[0] == first);
}

/// An unregistered subcommand-group name inside a nested group yields
/// "not found", whatever stands inside the group option.
pub proof fn lemma_unknown_group_name(
    tree: &CommandTree,
    name: Seq<char>,
    first: CommandDataOption,
    rest: Seq<CommandDataOption>,
    groups: Vec<(String, Vec<(String, Leaf)>)>,
)
    requires
        lookup_pair(tree.entries@, name) == Some(Node::Group(Group::Nested(groups))),
        first.value is SubCommandGroup,
        lookup_pair(groups@, first.name@) is None,
    ensures
        spec_resolve(tree, name, seq![first] + rest) is None,
{
    assert((seq![first] + rest)[0] == first);
}

/// An inner subcommand name absent from the selected subcommand-group's map
/// yields "not found".
pub proof fn lemma_unknown_inner_subcommand(
    tree: &CommandTree,
    name: Seq<char>,
    first: CommandDataOption,
    rest: Seq<CommandDataOption>,
    inner: CommandDataOption,
    inner_rest: Seq<CommandDataOption>,
    groups: Vec<(String, Vec<(String, Leaf)>)>,
    subs: Vec<(String, Leaf)>,
)
    requires
        lookup_pair(tree.entries@, name) == Some(Node::Group(Group::Nested(groups))),
        lookup_pair(groups@, first.name@) == Some(subs),
        first.value == OptionValue::SubCommandGroup(first.value->SubCommandGroup_0),
        first.value->SubCommandGroup_0@ == seq![inner] + inner_rest,
        inner.value is SubCommand,
        lookup_pair(subs@, inner.name@) is None,
    ensures
        spec_resolve(tree, name, seq![first] + rest) is None,
{
    assert((seq![first] + rest)[0] == first);
    assert((seq![inner] + inner_rest)[0] == inner);
}

} // verus!
