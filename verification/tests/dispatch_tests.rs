use interaction_core::dispatch::{completion, dispatch, gate_response, DispatchStep};
use interaction_core::envelope::{handle, hello, plain_message, ResponseEnvelope};
use interaction_core::options::{CommandDataOption, CommandInvocation, Interaction, OptionValue};
use interaction_core::tree::{CommandTree, Group, Leaf, Node};

fn sample_tree() -> CommandTree {
    CommandTree {
        entries: vec![
            ("hello".to_string(), Node::Leaf(Leaf { handler: 1, args: Vec::new() })),
            (
                "verification".to_string(),
                Node::Group(Group::Nested(vec![(
                    "gate".to_string(),
                    vec![("type".to_string(), Leaf { handler: 3, args: Vec::new() })],
                )])),
            ),
        ],
    }
}

fn plain_content(e: ResponseEnvelope) -> String {
    match e {
        ResponseEnvelope::Message { content, embeds } => {
            assert!(embeds.is_empty());
            content.expect("expected message text")
        }
        _ => panic!("expected a message envelope"),
    }
}

#[test]
fn ping_always_yields_pong_with_no_data() {
    let step = dispatch(Interaction::Ping, &sample_tree());
    assert!(matches!(step, DispatchStep::Respond(ResponseEnvelope::Pong)));
    // Regardless of the tree's contents, an empty tree included.
    let empty = CommandTree { entries: Vec::new() };
    let step = dispatch(Interaction::Ping, &empty);
    assert!(matches!(step, DispatchStep::Respond(ResponseEnvelope::Pong)));
}

#[test]
fn resolved_command_is_invoked_with_rewritten_options() {
    let invocation = CommandInvocation {
        name: "hello".to_string(),
        options: Vec::new(),
    };
    let step = dispatch(Interaction::ApplicationCommand(invocation), &sample_tree());
    match step {
        DispatchStep::Invoke { handler, options } => {
            assert_eq!(handler, 1);
            assert!(options.is_empty());
        }
        _ => panic!("expected an invocation"),
    }
}

#[test]
fn unresolved_command_yields_not_found_message() {
    let invocation = CommandInvocation {
        name: "missing".to_string(),
        options: Vec::new(),
    };
    let step = dispatch(Interaction::ApplicationCommand(invocation), &sample_tree());
    match step {
        DispatchStep::Respond(envelope) => {
            assert_eq!(plain_content(envelope), "Command not found");
        }
        _ => panic!("expected a response"),
    }
}

#[test]
fn group_with_absent_inner_name_yields_not_found() {
    // A registered top-level command, a first option tagged as a subcommand
    // group, and an inner name absent from that group's map.
    let invocation = CommandInvocation {
        name: "verification".to_string(),
        options: vec![CommandDataOption {
            name: "gate".to_string(),
            value: OptionValue::SubCommandGroup(vec![CommandDataOption {
                name: "absent".to_string(),
                value: OptionValue::SubCommand(Vec::new()),
            }]),
        }],
    };
    let step = dispatch(Interaction::ApplicationCommand(invocation), &sample_tree());
    match step {
        DispatchStep::Respond(envelope) => {
            assert_eq!(plain_content(envelope), "Command not found");
        }
        _ => panic!("expected a response"),
    }
}

#[test]
fn declined_gate_yields_disabled_message() {
    assert!(gate_response(true).is_none());
    let envelope = gate_response(false).unwrap();
    assert_eq!(plain_content(envelope), "Command is disabled");
}

#[test]
fn completion_returns_success_verbatim() {
    let envelope = completion(Ok(plain_message("done".to_string())));
    assert_eq!(plain_content(envelope), "done");
}

#[test]
fn completion_maps_error_to_visible_message() {
    let envelope = completion(Err("Failed to deserialize from or serialize to JSON.".to_string()));
    assert_eq!(
        plain_content(envelope),
        "Failed to deserialize from or serialize to JSON."
    );
}

#[test]
fn hello_replies_with_greeting() {
    assert_eq!(plain_content(hello()), "Hello world");
}

#[test]
fn autocomplete_offers_fixed_choices() {
    match handle() {
        ResponseEnvelope::Autocomplete { choices } => {
            let names: Vec<String> = choices.iter().map(|c| c.name.clone()).collect();
            let values: Vec<String> = choices.iter().map(|c| c.value.clone()).collect();
            assert_eq!(names, vec!["A", "B", "C", "D"]);
            assert_eq!(values, vec!["A", "B", "C", "D"]);
        }
        _ => panic!("expected an autocomplete envelope"),
    }
}
