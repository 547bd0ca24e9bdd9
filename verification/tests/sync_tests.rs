use interaction_core::store::ConfigStore;
use interaction_core::sync::{fingerprint, sync};
use interaction_core::tree::{ArgKind, ArgSpec, CommandTree, Group, Leaf, Node};

fn arg(name: &str, description: &str, kind: ArgKind, required: bool) -> ArgSpec {
    ArgSpec {
        name: name.to_string(),
        description: description.to_string(),
        kind,
        required,
    }
}

fn sample_tree() -> CommandTree {
    CommandTree {
        entries: vec![
            ("hello".to_string(), Node::Leaf(Leaf { handler: 1, args: Vec::new() })),
            (
                "logging".to_string(),
                Node::Group(Group::Simple(vec![(
                    "channel".to_string(),
                    Leaf {
                        handler: 2,
                        args: vec![arg("chn", "The channel to log joins to", ArgKind::Channel, false)],
                    },
                )])),
            ),
            (
                "verification".to_string(),
                Node::Group(Group::Nested(vec![(
                    "gate".to_string(),
                    vec![(
                        "type".to_string(),
                        Leaf {
                            handler: 3,
                            args: vec![arg("choice", "the type of join gate", ArgKind::Text, true)],
                        },
                    )],
                )])),
            ),
        ],
    }
}

/// The same definition set registered in another order.
fn reordered_tree() -> CommandTree {
    let mut tree = sample_tree();
    tree.entries.reverse();
    tree
}

#[test]
fn fingerprint_is_deterministic() {
    assert_eq!(fingerprint(&sample_tree()), fingerprint(&sample_tree()));
}

#[test]
fn fingerprint_ignores_registration_order() {
    assert_eq!(fingerprint(&sample_tree()), fingerprint(&reordered_tree()));
}

#[test]
fn fingerprint_has_exact_canonical_form() {
    let tree = sample_tree();
    assert_eq!(
        fingerprint(&tree),
        "channel:0:chn:The channel to log joins to;string:1:choice:the type of join gate"
    );
}

#[test]
fn fingerprint_reflects_argument_changes() {
    let mut changed = sample_tree();
    if let Node::Group(Group::Simple(subs)) = &mut changed.entries[1].1 {
        subs[0].1.args[0].required = true;
    }
    assert_ne!(fingerprint(&sample_tree()), fingerprint(&changed));
}

#[test]
fn sync_registers_once_for_unchanged_tree() {
    let tree = sample_tree();
    let mut store = ConfigStore::new();
    assert!(sync(&tree, &mut store));
    assert_eq!(store.get_fingerprint(), Some(fingerprint(&tree)));
    // Second synchronization of an unchanged tree issues no call.
    assert!(!sync(&tree, &mut store));
    assert_eq!(store.get_fingerprint(), Some(fingerprint(&tree)));
}

#[test]
fn sync_registers_again_after_a_change() {
    let tree = sample_tree();
    let mut store = ConfigStore::new();
    assert!(sync(&tree, &mut store));
    let mut changed = sample_tree();
    if let Node::Group(Group::Simple(subs)) = &mut changed.entries[1].1 {
        subs[0].1.args[0].description = "another description".to_string();
    }
    assert!(sync(&changed, &mut store));
    assert_eq!(store.get_fingerprint(), Some(fingerprint(&changed)));
}

#[test]
fn sync_leaves_guild_fields_alone() {
    let tree = sample_tree();
    let mut store = ConfigStore::new();
    store.set_field(5, "logging:channel".to_string(), "42".to_string());
    sync(&tree, &mut store);
    assert_eq!(
        store.get_field(5, &"logging:channel".to_string()),
        Some("42".to_string())
    );
}
