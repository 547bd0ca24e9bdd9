use interaction_core::options::{ArgValue, CommandDataOption, OptionValue};
use interaction_core::resolver::resolve;
use interaction_core::tree::{CommandTree, Group, Leaf, Node};

fn leaf(handler: u64) -> Leaf {
    Leaf { handler, args: Vec::new() }
}

fn opt(name: &str, value: OptionValue) -> CommandDataOption {
    CommandDataOption { name: name.to_string(), value }
}

fn arg(name: &str, text: &str) -> CommandDataOption {
    opt(name, OptionValue::Arg(ArgValue::Text(text.to_string())))
}

/// A tree with a top-level command, a flat group and a nested group.
fn sample_tree() -> CommandTree {
    CommandTree {
        entries: vec![
            ("hello".to_string(), Node::Leaf(leaf(1))),
            (
                "logging".to_string(),
                Node::Group(Group::Simple(vec![("channel".to_string(), leaf(2))])),
            ),
            (
                "admin".to_string(),
                Node::Group(Group::Nested(vec![(
                    "verification".to_string(),
                    vec![("type".to_string(), leaf(3))],
                )])),
            ),
        ],
    }
}

#[test]
fn top_level_resolution_ignores_groups() {
    let tree = sample_tree();
    let options = vec![arg("who", "world")];
    let (handler, rewritten) = resolve(&tree, &"hello".to_string(), options).unwrap();
    assert_eq!(handler, 1);
    assert_eq!(rewritten.len(), 1);
    assert_eq!(rewritten[0].name, "who");
}

#[test]
fn top_level_name_mapping_to_group_fails() {
    let tree = sample_tree();
    // No leading tag, so only the top-level map is consulted; "logging" is a
    // group there, not a leaf.
    assert!(resolve(&tree, &"logging".to_string(), Vec::new()).is_none());
}

#[test]
fn two_level_resolution_rewrites_options() {
    let tree = sample_tree();
    let options = vec![opt(
        "channel",
        OptionValue::SubCommand(vec![arg("chn", "42")]),
    )];
    let (handler, rewritten) = resolve(&tree, &"logging".to_string(), options).unwrap();
    assert_eq!(handler, 2);
    assert_eq!(rewritten.len(), 1);
    assert_eq!(rewritten[0].name, "chn");
}

#[test]
fn three_level_resolution_rewrites_options() {
    let tree = sample_tree();
    let options = vec![opt(
        "verification",
        OptionValue::SubCommandGroup(vec![opt(
            "type",
            OptionValue::SubCommand(vec![arg("choice", "Captcha")]),
        )]),
    )];
    let (handler, rewritten) = resolve(&tree, &"admin".to_string(), options).unwrap();
    assert_eq!(handler, 3);
    assert_eq!(rewritten.len(), 1);
    assert_eq!(rewritten[0].name, "choice");
}

#[test]
fn unknown_top_level_name_is_not_found() {
    let tree = sample_tree();
    assert!(resolve(&tree, &"missing".to_string(), Vec::new()).is_none());
}

#[test]
fn unknown_subcommand_is_not_found() {
    let tree = sample_tree();
    let options = vec![opt("nope", OptionValue::SubCommand(Vec::new()))];
    assert!(resolve(&tree, &"logging".to_string(), options).is_none());
}

#[test]
fn unknown_group_name_is_not_found() {
    let tree = sample_tree();
    let options = vec![opt(
        "nope",
        OptionValue::SubCommandGroup(vec![opt("type", OptionValue::SubCommand(Vec::new()))]),
    )];
    assert!(resolve(&tree, &"admin".to_string(), options).is_none());
}

#[test]
fn unknown_inner_subcommand_is_not_found() {
    let tree = sample_tree();
    // The group name is registered; the inner subcommand name is not.
    let options = vec![opt(
        "verification",
        OptionValue::SubCommandGroup(vec![opt("nope", OptionValue::SubCommand(Vec::new()))]),
    )];
    assert!(resolve(&tree, &"admin".to_string(), options).is_none());
}

#[test]
fn group_tag_mismatch_is_not_found() {
    let tree = sample_tree();
    // A SubCommandGroup tag against a Simple group fails.
    let options = vec![opt(
        "channel",
        OptionValue::SubCommandGroup(vec![opt("x", OptionValue::SubCommand(Vec::new()))]),
    )];
    assert!(resolve(&tree, &"logging".to_string(), options).is_none());
    // A SubCommand tag against a Nested group fails.
    let options = vec![opt("verification", OptionValue::SubCommand(Vec::new()))];
    assert!(resolve(&tree, &"admin".to_string(), options).is_none());
}

#[test]
fn group_option_without_inner_subcommand_is_not_found() {
    let tree = sample_tree();
    let options = vec![opt("verification", OptionValue::SubCommandGroup(Vec::new()))];
    assert!(resolve(&tree, &"admin".to_string(), options).is_none());
}
