//! The configuration commands built on the store: the logging channel, the
//! verification role and the verification type. Each compares the stored
//! state with the request and replies with the exact observed message;
//! writes happen only where the policy calls for them.

use vstd::prelude::*;
use vstd::string::StringExecFns;

use crate::envelope::{embed_message, is_embed_message, ResponseEnvelope};
use crate::store::ConfigStore;
use crate::text::{dec_str, u64_to_string};

verus! {

/// The verification gate type. Its platform-facing text for `Off` is
/// "None": no gate is configured.
#[derive(Clone, Copy, PartialEq, Eq, Structural, Debug)]
pub enum VerificationType {
    Off,
    Captcha,
    Audio,
}

/// The platform-facing text of a verification type.
pub open spec fn spec_vt_text(t: VerificationType) -> Seq<char> {
    match t {
        VerificationType::Off => "None"@,
        VerificationType::Captcha => "Captcha"@,
        VerificationType::Audio => "Audio"@,
    }
}

/// The verification type a stored text denotes; unknown texts denote `Off`.
pub open spec fn spec_vt_from(s: Seq<char>) -> VerificationType {
    if s == "None"@ {
        VerificationType::Off
    } else if s == "Captcha"@ {
        VerificationType::Captcha
    } else if s == "Audio"@ {
        VerificationType::Audio
    } else {
        VerificationType::Off
    }
}

impl VerificationType {
    /// Renders the platform-facing text.
    pub fn as_text(&self) -> (r: String)
        ensures
            r@ == spec_vt_text(*self),
    {
        match self {
            VerificationType::Off => String::from_str("None"),
            VerificationType::Captcha => String::from_str("Captcha"),
            VerificationType::Audio => String::from_str("Audio"),
        }
    }

    /// Reads a stored text back into a verification type.
    pub fn from_text(s: &String) -> (r: VerificationType)
        ensures
            r == spec_vt_from(s@),
    {
        if *s == String::from_str("None") {
            VerificationType::Off
        } else if *s == String::from_str("Captcha") {
            VerificationType::Captcha
        } else if *s == String::from_str("Audio") {
            VerificationType::Audio
        } else {
            VerificationType::Off
        }
    }
}

/// The verification type a guild's stored fields denote: the stored text's
/// reading, or `Off` when the field is unset.
pub open spec fn vt_current(m: Map<(u64, Seq<char>), Seq<char>>, guild: u64) -> VerificationType {
    if m.contains_key((guild, "verification:type"@)) {
        spec_vt_from(m[(guild, "verification:type"@)])
    } else {
        VerificationType::Off
    }
}

/// Sets the verification type for a guild. Choosing the type the guild
/// already has replies "already" and performs no write; otherwise the field
/// is written and the reply confirms the new type.
pub fn verification_type_command(
    store: &mut ConfigStore,
    guild: u64,
    choice: VerificationType,
) -> (msg: String)
    requires
        old(store).wf(),
    ensures
        final(store).wf(),
        final(store).spec_fingerprint() == old(store).spec_fingerprint(),
        ({
            let m = old(store).fields_map();
            if vt_current(m, guild) == choice {
                msg@ == "The verification type is already `"@ + spec_vt_text(choice) + "`"@
                    && final(store).fields_map() == m
            } else {
                msg@ == "Set the verification type to `"@ + spec_vt_text(choice) + "`"@
                    && final(store).fields_map() == m.insert(
                    (guild, "verification:type"@),
                    spec_vt_text(choice),
                )
            }
        }),
{
    let field = String::from_str("verification:type");
    let current = match store.get_field(guild, &field) {
        Some(s) => VerificationType::from_text(&s),
        None => VerificationType::Off,
    };
    if current == choice {
        String::from_str("The verification type is already `").concat(
            choice.as_text().as_str(),
        ).concat("`")
    } else {
        store.set_field(guild, field, choice.as_text());
        String::from_str("Set the verification type to `").concat(
            choice.as_text().as_str(),
        ).concat("`")
    }
}

/// Sets or reports the logging channel for a guild.
///
/// With no argument and no stored channel, the reply prompts for one; with
/// an argument equal to the stored channel, the reply reports it already
/// set, without a write; with any other argument the field is written. With
/// no argument while a channel is stored, the reply reports a removal; the
/// stored field itself is left in place — clearing it is not part of this
/// command's observed behaviour.
pub fn logging_channel_command(
    store: &mut ConfigStore,
    guild: u64,
    requested: Option<u64>,
) -> (msg: String)
    requires
        old(store).wf(),
    ensures
        final(store).wf(),
        final(store).spec_fingerprint() == old(store).spec_fingerprint(),
        ({
            let m = old(store).fields_map();
            let k = (guild, "logging:channel"@);
            if requested is None && !m.contains_key(k) {
                msg@ == "There is no logging channel set, specify the channel argument to set one."@
                    && final(store).fields_map() == m
            } else if requested is Some && m.contains_key(k) && m[k] == dec_str(
                requested->Some_0 as nat,
            ) {
                msg@ == "The logging channel is already "@ + m[k] && final(store).fields_map()
                    == m
            } else if requested is Some {
                msg@ == "Set the logging channel to <#"@ + dec_str(requested->Some_0 as nat)
                    + ">"@ && final(store).fields_map() == m.insert(
                    k,
                    dec_str(requested->Some_0 as nat),
                )
            } else {
                msg@ == "Removed the logging channel"@ && final(store).fields_map() == m
            }
        }),
{
    let field = String::from_str("logging:channel");
    let current = store.get_field(guild, &field);
    match requested {
        None => match current {
            None => String::from_str(
                "There is no logging channel set, specify the channel argument to set one.",
            ),
            Some(_) => String::from_str("Removed the logging channel"),
        },
        Some(b) => {
            let dec = u64_to_string(b);
            let already = match &current {
                Some(a) => *a == dec,
                None => false,
            };
            if already {
                String::from_str("The logging channel is already ").concat(dec.as_str())
            } else {
                let msg = String::from_str("Set the logging channel to <#").concat(
                    dec.as_str(),
                ).concat(">");
                store.set_field(guild, field, dec);
                msg
            }
        },
    }
}

/// The help text the verification-role command replies with when nothing is
/// stored and nothing is requested.
pub open spec fn role_help_text() -> Seq<char> {
    "The verification role will be given to users once they have completed verification.\nYou can set any role that is currently below the bot's top role.\n\nYou can set the type of verification with `/verification type`.\nTo setup the verification gate run `/verification setup`."@
}

/// The footer warning shown while no verification message is configured.
pub open spec fn role_footer_text() -> Seq<char> {
    ":warning: No verification message set. Without one, users will not recieve this role. Set one up with /verification setup."@
}

/// The description the verification-role command replies with, and what it
/// does to the stored role field: `None` for no write, `Some(None)` for a
/// removal, `Some(Some(v))` for writing `v`.
pub open spec fn role_outcome(
    cur: Option<Seq<char>>,
    requested: Option<u64>,
    requested_is_default: bool,
) -> (Seq<char>, Option<Option<Seq<char>>>) {
    if cur is None && requested is None {
        (role_help_text(), None)
    } else if cur is Some && requested is Some && cur->Some_0 == dec_str(
        requested->Some_0 as nat,
    ) {
        ("The verification role is already <@&"@ + cur->Some_0 + ">"@, None)
    } else if cur is None && requested is Some && requested_is_default {
        ("There is no verification role set, specify the role argument to set one."@, None)
    } else if requested is Some && requested_is_default {
        ("Removed the verification role"@, Some(None))
    } else if requested is Some {
        (
            "Set the verification role to <@&"@ + dec_str(requested->Some_0 as nat) + ">"@,
            Some(Some(dec_str(requested->Some_0 as nat))),
        )
    } else {
        ("Removed the verification role"@, None)
    }
}

/// Sets, reports or removes the verification role for a guild, replying
/// with an embed. A requested role that is the guild's implicit "everyone"
/// role counts as an explicit removal request. While no verification
/// message is configured the embed carries a warning footer. Replies that
/// report a removal without a requested role leave the stored field in
/// place, as the observed behaviour does.
pub fn verification_role_command(
    store: &mut ConfigStore,
    guild: u64,
    requested: Option<u64>,
    requested_is_default: bool,
) -> (r: ResponseEnvelope)
    requires
        old(store).wf(),
    ensures
        final(store).wf(),
        final(store).spec_fingerprint() == old(store).spec_fingerprint(),
        ({
            let m = old(store).fields_map();
            let k = (guild, "verification:role"@);
            let cur: Option<Seq<char>> = if m.contains_key(k) {
                Some(m[k])
            } else {
                None
            };
            let outcome = role_outcome(cur, requested, requested_is_default);
            let footer: Option<Seq<char>> = if final(store).fields_map().contains_key(
                (guild, "verification:message"@),
            ) {
                None
            } else {
                Some(role_footer_text())
            };
            is_embed_message(r, outcome.0, footer) && final(store).fields_map() == (match outcome.1 {
                None => m,
                Some(None) => m.remove(k),
                Some(Some(v)) => m.insert(k, v),
            })
        }),
{
    let field = String::from_str("verification:role");
    let current = store.get_field(guild, &field);
    let desc: String = match requested {
        None => match current {
            None => String::from_str(
                "The verification role will be given to users once they have completed verification.\nYou can set any role that is currently below the bot's top role.\n\nYou can set the type of verification with `/verification type`.\nTo setup the verification gate run `/verification setup`.",
            ),
            Some(_) => String::from_str("Removed the verification role"),
        },
        Some(b) => {
            let dec = u64_to_string(b);
            let already = match &current {
                Some(a) => *a == dec,
                None => false,
            };
            if already {
                String::from_str("The verification role is already <@&").concat(
                    dec.as_str(),
                ).concat(">")
            } else if requested_is_default {
                match current {
                    None => String::from_str(
                        "There is no verification role set, specify the role argument to set one.",
                    ),
                    Some(_) => {
                        store.delete_field(guild, &field);
                        String::from_str("Removed the verification role")
                    },
                }
            } else {
                let msg = String::from_str("Set the verification role to <@&").concat(
                    dec.as_str(),
                ).concat(">");
                store.set_field(guild, field, dec);
                msg
            }
        },
    };
    let message_field = String::from_str("verification:message");
    let footer: Option<String> = if store.field_exists(guild, &message_field) {
        None
    } else {
        Some(
            String::from_str(
                ":warning: No verification message set. Without one, users will not recieve this role. Set one up with /verification setup.",
            ),
        )
    };
    embed_message(desc, footer)
}

} // verus!
