//! Deciding how to answer an interaction that Discord sends.

use crate::discord_structs::{
    greeting, DiscordInteractionData, DiscordInteractionResponce, DiscordOptions, DiscordPing,
    Member,
};
use crate::rejections::{BadBodyError, Rejection};
use vstd::prelude::*;

verus! {

/// An image to dither, and where and for whom to post the result.
pub struct DitherJob {
    /// Where the image can be downloaded.
    pub url: String,
    /// The interaction token, which lets the bot edit its reply.
    pub token: String,
    /// The name of the user who asked.
    pub username: String,
    /// The id of the user who asked.
    pub user_id: String,
}

/// How to answer an interaction.
pub enum PingOutcome {
    /// Answer a ping with a pong.
    Pong,
    /// Send this reply.
    Reply(DiscordInteractionResponce),
    /// Hand the job to the image worker and send this reply.
    Deferred(DitherJob, DiscordInteractionResponce),
    /// Turn the request away.
    Rejected(Rejection),
}

/// `r` is the reply that shows a greeting of `name` at once.
pub open spec fn is_greeting_reply(r: DiscordInteractionResponce, name: Option<String>) -> bool {
    &&& r.kind == 4
    &&& !r.data.tts
    &&& r.data.content@ == greeting(name)
    &&& r.data.embeds@.len() == 0
    &&& r.data.allowed_mentions.parse@.len() == 0
}

/// `r` is the reply that acknowledges an interaction and promises the message
/// later.
pub open spec fn is_later_reply(r: DiscordInteractionResponce) -> bool {
    &&& r.kind == 5
    &&& !r.data.tts
    &&& r.data.content@ == "test"@
    &&& r.data.embeds@.len() == 0
    &&& r.data.allowed_mentions.parse@.len() == 0
}

/// The value of the first option of a command, if there is one.
pub open spec fn first_option_value(options: Option<Vec<DiscordOptions>>) -> Option<String> {
    match options {
        None => None,
        Some(opts) => if opts@.len() == 0 {
            None
        } else {
            opts@[0].value
        },
    }
}

/// The download URL of the attachment that the first option of a command names,
/// when the command carries the option and the attachment.
pub open spec fn requested_attachment_url(d: DiscordInteractionData) -> Option<Seq<char>> {
    match d.resolved {
        None => None,
        Some(res) => match res.attachments {
            None => None,
            Some(atts) => match first_option_value(d.options) {
                None => None,
                Some(item) => if atts@.contains_key(item@) {
                    Some(atts@[item@].url@)
                } else {
                    None
                },
            },
        },
    }
}

/// `r` answers the `dither` command `d` of an interaction with token `token`
/// sent by `member`: the job points at the requested attachment and at the
/// asking member (a placeholder user when the member has no user), or the
/// request is turned away when something it needs is missing.
pub open spec fn dither_outcome(
    token: Seq<char>,
    member: Option<Member>,
    d: DiscordInteractionData,
    r: PingOutcome,
) -> bool {
    match (requested_attachment_url(d), member) {
        (Some(url), Some(m)) => match r {
            PingOutcome::Deferred(job, reply) => {
                &&& job.url@ == url
                &&& job.token@ == token
                &&& match m.user {
                    Some(u) => job.username@ == u.username@ && job.user_id@ == u.id@,
                    None => job.username@ == "BRO"@ && job.user_id@ == "0"@,
                }
                &&& is_later_reply(reply)
            },
            _ => false,
        },
        _ => r == PingOutcome::Rejected(Rejection::BadBodyError(BadBodyError)),
    }
}

/// The value of the first option of a command, cloned.
fn first_value(options: &Option<Vec<DiscordOptions>>) -> (r: Option<String>)
    ensures
        r == first_option_value(*options),
{
    match options {
        None => None,
        Some(s) => {
            if s.len() == 0 {
                None
            } else {
                match &s[0].value {
                    None => None,
                    Some(v) => Some(v.clone()),
                }
            }
        },
    }
}

/// The outcome of the `dither` command `d` of an interaction with token `token`
/// sent by `member`.
fn dither_request(token: &String, member: &Option<Member>, d: &DiscordInteractionData) -> (r:
    PingOutcome)
    ensures
        dither_outcome(token@, *member, *d, r),
{
    let bad_body = PingOutcome::Rejected(Rejection::BadBodyError(BadBodyError));
    let resolved = match &d.resolved {
        Some(res) => match &res.attachments {
            Some(atts) => atts,
            None => return bad_body,
        },
        None => return bad_body,
    };
    let item = match first_value(&d.options) {
        Some(s) => s,
        None => return bad_body,
    };
    let url = match resolved.get(item.as_str()) {
        Some(attachment) => attachment.url.clone(),
        None => return bad_body,
    };
    let member = match member {
        Some(m) => m,
        None => return bad_body,
    };
    let (username, user_id) = match &member.user {
        Some(u) => (u.username.clone(), u.id.clone()),
        None => ("BRO".to_owned(), "0".to_owned()),
    };
    let job = DitherJob { url, token: token.clone(), username, user_id };
    PingOutcome::Deferred(job, DiscordInteractionResponce::later_responce())
}

/// Decides how to answer the interaction `ping`: a ping (kind 1) gets a pong; an
/// application command (kind 2) named `test` gets a greeting of the value of its
/// first option, one named `dither` hands the attachment it names to the image
/// worker and gets a reply that promises the image; a command without data, or a
/// `dither` command that lacks what it needs, is turned away as a bad body;
/// anything else is not found.
pub fn return_ping(ping: DiscordPing) -> (r: PingOutcome)
    ensures
        ping.kind == 1 ==> r is Pong,
        ping.kind != 1 && ping.kind != 2 ==> r == PingOutcome::Rejected(Rejection::NotFound),
        ping.kind == 2 ==> match ping.data {
            None => r == PingOutcome::Rejected(Rejection::BadBodyError(BadBodyError)),
            Some(d) => if d.name@ == "test"@ {
                r matches PingOutcome::Reply(reply) && is_greeting_reply(
                    reply,
                    first_option_value(d.options),
                )
            } else if d.name@ == "dither"@ {
                dither_outcome(ping.token@, ping.member, d, r)
            } else {
                r == PingOutcome::Rejected(Rejection::NotFound)
            },
        },
{
    if ping.kind == 1 {
        PingOutcome::Pong
    } else if ping.kind == 2 {
        let DiscordPing { token, member, data, .. } = ping;
        let responce = match data {
            None => return PingOutcome::Rejected(Rejection::BadBodyError(BadBodyError)),
            Some(interaction) => interaction,
        };
        if responce.name == "test".to_owned() {
            let name = first_value(&responce.options);
            PingOutcome::Reply(DiscordInteractionResponce::new(name))
        } else if responce.name == "dither".to_owned() {
            dither_request(&token, &member, &responce)
        } else {
            PingOutcome::Rejected(Rejection::NotFound)
        }
    } else {
        PingOutcome::Rejected(Rejection::NotFound)
    }
}

} // verus!
