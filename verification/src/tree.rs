//! The registered command tree: top-level commands and groups, each group
//! holding either a flat set of subcommands or a nested set of
//! subcommand-groups. Built once at startup and read-only afterwards; the
//! two-shape `Group` type makes depths beyond three unrepresentable.

use vstd::prelude::*;

verus! {

/// The kind of a terminal argument a leaf handler declares.
#[derive(Clone, Copy, PartialEq, Eq, Structural)]
pub enum ArgKind {
    Text,
    Integer,
    Boolean,
    User,
    Channel,
    Role,
}

/// The declaration of one argument of a leaf handler, as registered with the
/// platform.
pub struct ArgSpec {
    pub name: String,
    pub description: String,
    pub kind: ArgKind,
    pub required: bool,
}

/// A registered handler: an opaque handler reference and the arguments the
/// handler declares.
pub struct Leaf {
    pub handler: u64,
    pub args: Vec<ArgSpec>,
}

/// An intermediate node: either a flat set of subcommands or a nested set of
/// subcommand-groups, each of which maps subcommand names to leaves.
pub enum Group {
    Simple(Vec<(String, Leaf)>),
    Nested(Vec<(String, Vec<(String, Leaf)>)>),
}

/// A top-level entry of the tree.
pub enum Node {
    Leaf(Leaf),
    Group(Group),
}

/// The registered set of top-level commands and groups, keyed by name.
pub struct CommandTree {
    pub entries: Vec<(String, Node)>,
}

/// First entry of `entries` whose key reads as `name`, if any.
pub open spec fn lookup_pair<V>(entries: Seq<(String, V)>, name: Seq<char>) -> Option<V>
    decreases entries.len(),
{
    if entries.len() == 0 {
        None
    } else if entries[0].0@ == name {
        Some(entries[0].1)
    } else {
        lookup_pair(entries.skip(1), name)
    }
}

/// Linear search for `name` among the keys of `entries`, returning a
/// reference to the first associated value.
pub fn find_pair<'a, V>(entries: &'a Vec<(String, V)>, name: &String) -> (r: Option<&'a V>)
    ensures
        match r {
            Some(v) => lookup_pair(entries@, name@) == Some(*v),
            None => lookup_pair(entries@, name@) is None,
        },
{
    proof {
        assert(entries@.skip(0) =~= entries@);
    }
    let mut i: usize = 0;
    while i < entries.len()
        invariant
            i <= entries@.len(),
            lookup_pair(entries@, name@) == lookup_pair(entries@.skip(i as int), name@),
        decreases entries@.len() - i,
    {
        let pair = &entries[i];
        if pair.0 == *name {
            return Some(&pair.1);
        }
        proof {
            assert(entries@.skip(i as int).skip(1) =~= entries@.skip(i as int + 1));
        }
        i += 1;
    }
    proof {
        assert(entries@.skip(i as int) =~= Seq::<(String, V)>::empty());
    }
    None
}

} // verus!
