//! Response envelopes returned to the platform: a liveness acknowledgement,
//! a channel message with optional text and embeds, or an autocomplete
//! choice list.

use vstd::prelude::*;

verus! {

/// A rendered embed: a description and an optional footer line.
pub struct Embed {
    pub description: String,
    pub footer: Option<String>,
}

/// One autocomplete choice: a display name and the value it stands for.
pub struct Choice {
    pub name: String,
    pub value: String,
}

/// The response envelope, tagged by kind.
pub enum ResponseEnvelope {
    Pong,
    Message { content: Option<String>, embeds: Vec<Embed> },
    Autocomplete { choices: Vec<Choice> },
}

/// A message envelope that carries exactly the text `text` and no embeds.
pub open spec fn is_plain_message(e: ResponseEnvelope, text: Seq<char>) -> bool {
    &&& e matches ResponseEnvelope::Message { content: Some(c), embeds } && c@ == text
        && embeds@ =~= Seq::<Embed>::empty()
}

/// A message envelope that carries no text and exactly one embed, whose
/// description is `description` and whose footer is `footer` (if any).
pub open spec fn is_embed_message(
    e: ResponseEnvelope,
    description: Seq<char>,
    footer: Option<Seq<char>>,
) -> bool {
    &&& e matches ResponseEnvelope::Message { content: None, embeds } && embeds@.len() == 1
        && embeds@[0].description@ == description && (match (embeds@[0].footer, footer) {
        (Some(f), Some(g)) => f@ == g,
        (None, None) => true,
        _ => false,
    })
}

/// Builds the message envelope `is_plain_message` describes.
pub fn plain_message(text: String) -> (r: ResponseEnvelope)
    ensures
        is_plain_message(r, text@),
{
    ResponseEnvelope::Message { content: Some(text), embeds: Vec::new() }
}

/// Builds the message envelope `is_embed_message` describes.
pub fn embed_message(description: String, footer: Option<String>) -> (r: ResponseEnvelope)
    ensures
        is_embed_message(
            r,
            description@,
            (match footer {
                Some(f) => Some(f@),
                None => None,
            }),
        ),
{
    let mut embeds: Vec<Embed> = Vec::new();
    embeds.push(Embed { description, footer });
    ResponseEnvelope::Message { content: None, embeds }
}

/// The example top-level command body: replies with a fixed greeting.
pub fn hello() -> (r: ResponseEnvelope)
    ensures
        is_plain_message(r, "Hello world"@),
{
    plain_message("Hello world".to_owned())
}

/// The autocomplete handler: whatever the partial input, it offers the fixed
/// choice list A, B, C, D, each choice's value equal to its name.
pub fn handle() -> (r: ResponseEnvelope)
    ensures
        r matches ResponseEnvelope::Autocomplete { choices } && choices@.len() == 4
            && choices@[0].name@ == "A"@ && choices@[0].value@ == "A"@
            && choices@[1].name@ == "B"@ && choices@[1].value@ == "B"@
            && choices@[2].name@ == "C"@ && choices@[2].value@ == "C"@
            && choices@[3].name@ == "D"@ && choices@[3].value@ == "D"@,
{
    let mut choices: Vec<Choice> = Vec::new();
    choices.push(Choice { name: "A".to_owned(), value: "A".to_owned() });
    choices.push(Choice { name: "B".to_owned(), value: "B".to_owned() });
    choices.push(Choice { name: "C".to_owned(), value: "C".to_owned() });
    choices.push(Choice { name: "D".to_owned(), value: "D".to_owned() });
    ResponseEnvelope::Autocomplete { choices }
}

} // verus!
