//! The objects exchanged with Discord: interactions received, replies and
//! follow-up messages sent.

use crate::string_map::StringMap;
use vstd::prelude::*;
use vstd::string::StringExecFns;

verus! {

/// A Discord user.
#[derive(Clone, Debug)]
pub struct User {
    pub id: String,
    pub username: String,
    pub discriminator: String,
    pub global_name: Option<String>,
    pub avatar: Option<String>,
    pub bot: Option<bool>,
    pub system: Option<bool>,
    pub mfa_enabled: Option<bool>,
    pub banner: Option<String>,
    pub accent_color: Option<u32>,
    pub locale: Option<String>,
    pub verified: Option<bool>,
    pub email: Option<String>,
    pub flags: Option<u32>,
    pub premium_type: Option<u32>,
    pub public_flags: Option<u32>,
    pub avatar_decoration_data: Option<String>,
}

/// A permission overwrite of a channel.
#[derive(Clone, Debug)]
pub struct DiscordOverwrites {
    pub id: String,
    /// The kind of object, as Discord numbers them.
    pub kind: u32,
    pub allow: String,
    pub deny: String,
}

/// A message posted in a channel.
#[derive(Debug)]
pub struct Message {
    pub id: String,
    pub channel_id: String,
    pub author: User,
    pub content: Option<String>,
    pub timestamp: String,
    pub edited_timestamp: Option<String>,
    pub tts: bool,
    pub mention_everyone: bool,
    pub mentions: Vec<User>,
    pub mention_roles: Vec<String>,
    pub mention_channels: Option<Vec<String>>,
    pub attachments: Option<Vec<AttachmentObject>>,
    pub embeds: Option<Vec<String>>,
    pub reactions: Option<Vec<String>>,
    pub nonce: Option<u32>,
    pub webhook_id: Option<String>,
    /// The kind of object, as Discord numbers them.
    pub kind: u32,
    pub activity: Option<String>,
    pub application: Option<String>,
    pub application_id: Option<String>,
    pub message_reference: Option<String>,
    pub flags: Option<u32>,
    pub referenced_message: Option<Box<Message>>,
    pub interaction: Option<DiscordInteractionData>,
    pub thread: Option<DiscordChannelObject>,
    pub components: Option<Vec<String>>,
    pub sticker_items: Option<Vec<String>>,
    pub stickers: Option<Vec<String>>,
    pub position: Option<u32>,
    pub role_subscription_data: Option<String>,
    pub resolved: Option<ResolvedData>,
}

/// A channel: a text or voice channel, a thread or a direct message.
#[derive(Clone, Debug)]
pub struct DiscordChannelObject {
    pub id: String,
    /// The kind of object, as Discord numbers them.
    pub kind: u32,
    pub guild_id: Option<String>,
    pub position: Option<u32>,
    pub permission_overwrites: Option<DiscordOverwrites>,
    pub name: Option<String>,
    pub topic: Option<String>,
    pub nsfw: Option<bool>,
    pub last_message_id: Option<String>,
    pub bitrate: Option<u32>,
    pub user_limit: Option<u32>,
    pub rate_limit_per_user: Option<u32>,
    pub recipients: Option<Vec<User>>,
    pub icon: Option<String>,
    pub owner_id: Option<String>,
    pub application_id: Option<String>,
    pub managed: Option<bool>,
    pub parent_id: Option<String>,
    pub last_pin_timestamp: Option<String>,
    pub rtc_region: Option<String>,
    pub video_quality_mode: Option<u32>,
    pub message: Option<u32>,
    pub member_count: Option<u32>,
    pub thread_metadata: Option<String>,
    pub member: Option<String>,
    pub default_auto_archive_duration: Option<u32>,
    pub permissions: Option<String>,
    pub flags: Option<u32>,
    pub total_message_sent: Option<u32>,
    pub available_tags: Option<String>,
    pub applied_tags: Option<Vec<String>>,
    pub default_reaction_emoji: Option<String>,
    pub default_thread_rate_limit_per_user: Option<u32>,
    pub default_sort_order: Option<u32>,
    pub default_forum_layout: Option<u32>,
}

/// A user's membership of a guild.
#[derive(Clone, Debug)]
pub struct Member {
    pub user: Option<User>,
    pub nick: Option<String>,
    pub avatar: Option<String>,
    pub roles: Option<Vec<String>>,
    pub joined_at: Option<String>,
    pub premium_since: Option<String>,
    pub deaf: bool,
    pub mute: bool,
    pub flags: u32,
    pub pending: Option<bool>,
    pub permissions: Option<String>,
    pub communication_disabled_unit: Option<String>,
}

/// An interaction that Discord sends to the bot.
#[derive(Debug)]
pub struct DiscordPing {
    pub id: String,
    pub application_id: String,
    /// The kind of object, as Discord numbers them.
    pub kind: u32,
    pub token: String,
    pub version: Option<u32>,
    pub entitlements: Vec<String>,
    pub user: Option<User>,
    pub member: Option<Member>,
    pub channel_id: Option<String>,
    pub app_permissions: Option<String>,
    pub guild_locale: Option<String>,
    pub guild_id: Option<String>,
    pub message: Option<String>,
    pub channel: Option<DiscordChannelObject>,
    pub data: Option<DiscordInteractionData>,
    pub locale: Option<String>,
}

/// The command data of an application command interaction.
#[derive(Debug)]
pub struct DiscordInteractionData {
    pub id: String,
    pub name: String,
    /// The kind of object, as Discord numbers them.
    pub kind: u32,
    pub options: Option<Vec<DiscordOptions>>,
    pub resolved: Option<ResolvedData>,
}

/// The objects an interaction refers to, each keyed by its id.
#[derive(Clone, Debug)]
pub struct ResolvedData {
    pub users: Option<StringMap<User>>,
    pub members: Option<StringMap<Member>>,
    pub roles: Option<StringMap<String>>,
    pub channels: Option<StringMap<DiscordChannelObject>>,
    pub messages: Option<StringMap<String>>,
    pub attachments: Option<StringMap<AttachmentObject>>,
}

/// A file attached to a message or an interaction.
#[derive(Clone, Debug)]
pub struct AttachmentObject {
    pub id: String,
    pub filename: String,
    pub description: Option<String>,
    pub content_type: Option<String>,
    pub size: u32,
    pub url: String,
    pub proxy_url: String,
    pub height: Option<u32>,
    pub width: Option<u32>,
    pub ephemeral: Option<bool>,
    /// The IEEE 754 bit pattern of the length of an audio file in seconds.
    pub duration_secs_bits: Option<u64>,
    pub waveform: Option<String>,
    pub flags: Option<u32>,
}

/// An option given to an application command.
///
/// Options nest, so this type holds itself through a `Vec`. A derived `clone`
/// for it would call itself through `Vec::clone`, a cyclic definition that
/// cannot be shown to end and is not accepted. The type is therefore not `Clone`, and neither are the types that hold it
/// (`DiscordInteractionData`, `DiscordPing`, `Message`).
#[derive(Debug)]
pub struct DiscordOptions {
    pub name: String,
    /// The kind of object, as Discord numbers them.
    pub kind: u32,
    pub value: Option<String>,
    pub options: Option<Vec<DiscordOptions>>,
    pub focused: Option<bool>,
}

/// The bot's reply to an interaction.
#[derive(Clone, Debug)]
pub struct DiscordInteractionResponce {
    /// The kind of object, as Discord numbers them.
    pub kind: u8,
    pub data: DiscordData,
}

/// The message of an interaction reply.
#[derive(Clone, Debug)]
pub struct DiscordData {
    pub tts: bool,
    pub content: String,
    pub embeds: Vec<String>,
    pub allowed_mentions: Mentions,
}

/// The kinds of mention a reply may ping.
#[derive(Clone, Debug)]
pub struct Mentions {
    pub parse: Vec<String>,
}

/// A follow-up message that carries files.
#[derive(Clone, Debug)]
pub struct MessageWithAttachments {
    pub content: Option<String>,
    pub username: Option<String>,
    pub avatar_url: Option<String>,
    pub tts: Option<bool>,
    pub embeds: Option<Vec<Embeds>>,
    pub allowed_mentions: Option<AllowedMentions>,
    pub attachments: Option<Vec<PartialAttachmentObject>>,
    pub flags: Option<u32>,
    pub thread_name: Option<String>,
    pub applied_tags: Option<Vec<String>>,
}

/// A file of a follow-up message, referred to by its position among the message's files.
#[derive(Clone, Debug)]
pub struct PartialAttachmentObject {
    pub id: u32,
    pub description: String,
    pub filename: String,
}

/// The mentions a message may ping.
#[derive(Clone, Debug)]
pub struct AllowedMentions {
    pub parse: Vec<String>,
    pub roles: Vec<String>,
    pub users: Vec<String>,
}

/// Rich content shown with a message. Its fields are public so that the
/// program can build and read it when it exchanges messages as JSON.
#[derive(Clone, Debug)]
pub struct Embeds {
    pub title: Option<String>,
    /// The kind of object, as Discord numbers them.
    pub kind: Option<String>,
    pub description: Option<String>,
    pub url: Option<String>,
    pub timestamp: Option<String>,
    pub color: Option<u32>,
    pub fotter: Option<String>,
    pub image: Option<EmbedImage>,
    pub thumbnail: Option<EmbedThumbnail>,
    pub video: Option<String>,
    pub provider: Option<String>,
    pub author: Option<EmbedAuthor>,
    pub fields: Option<Vec<String>>,
}

/// The thumbnail of an embed.
#[derive(Clone, Debug)]
pub struct EmbedThumbnail {
    pub url: String,
    pub proxy_url: Option<String>,
    pub height: Option<u32>,
    pub width: Option<u32>,
}

/// The image of an embed.
#[derive(Clone, Debug)]
pub struct EmbedImage {
    pub url: String,
    pub proxy_url: Option<String>,
    pub height: Option<u32>,
    pub width: Option<u32>,
}

/// The author shown on an embed.
#[derive(Clone, Debug)]
pub struct EmbedAuthor {
    pub name: String,
    pub url: Option<String>,
    pub icon_url: Option<String>,
    pub proxy_icon_url: Option<String>,
}
/// The text of the reply to the `test` command: a greeting of `name`, or of the
/// world when no name was given.
pub open spec fn greeting(name: Option<String>) -> Seq<char> {
    match name {
        None => "Hello World!"@,
        Some(s) => "Hello "@ + s@,
    }
}

/// Law: a greeting of a name is the six characters `Hello ` followed by the
/// whole name, character for character, whatever its length.
pub proof fn lemma_greeting_keeps_name(name: String)
    ensures
        greeting(Some(name)).len() == 6 + name@.len(),
        greeting(Some(name)).subrange(0, 6) == "Hello "@,
        greeting(Some(name)).subrange(6, 6 + name@.len() as int) == name@,
        forall|i: int| 0 <= i < name@.len() ==> #[trigger] greeting(Some(name))[6 + i] == name@[i],
{
    reveal_strlit("Hello ");
    let g = greeting(Some(name));
    assert(g.subrange(0, 6) =~= "Hello "@);
    assert(g.subrange(6, 6 + name@.len() as int) =~= name@);
}

impl DiscordInteractionResponce {
    /// A reply that shows a message at once, greeting `name`.
    pub fn new(name: Option<String>) -> (r: Self)
        ensures
            r.kind == 4,
            !r.data.tts,
            r.data.content@ == greeting(name),
            name matches Some(s) ==> {
                &&& r.data.content@.len() == 6 + s@.len()
                &&& r.data.content@.subrange(6, 6 + s@.len() as int) == s@
            },
            r.data.embeds@.len() == 0,
            r.data.allowed_mentions.parse@.len() == 0,
    {
        proof {
            if name is Some {
                lemma_greeting_keeps_name(name->0);
            }
        }
        let content = match name {
            None => "Hello World!".to_owned(),
            Some(s) => "Hello ".to_owned().concat(s.as_str()),
        };
        Self {
            kind: 4,
            data: DiscordData {
                tts: false,
                content,
                embeds: Vec::new(),
                allowed_mentions: Mentions { parse: Vec::new() },
            },
        }
    }

    /// A reply that acknowledges the interaction now and promises the message
    /// later.
    pub fn later_responce() -> (r: Self)
        ensures
            r.kind == 5,
            !r.data.tts,
            r.data.content@ == "test"@,
            r.data.embeds@.len() == 0,
            r.data.allowed_mentions.parse@.len() == 0,
    {
        Self {
            kind: 5,
            data: DiscordData {
                tts: false,
                content: "test".to_owned(),
                embeds: Vec::new(),
                allowed_mentions: Mentions { parse: Vec::new() },
            },
        }
    }
}

/// The text of the follow-up message that hands an image to the user with id
/// `user_snowflake`, mentioning them.
pub open spec fn image_message_content(user_snowflake: Seq<char>) -> Seq<char> {
    "here is your image <@"@ + user_snowflake + ">"@
}

/// The title of the embed that shows the image of `username`.
pub open spec fn image_title(username: Seq<char>) -> Seq<char> {
    username + "'s image"@
}

/// The URL by which an embed refers to the attached file `file_name`.
pub open spec fn attachment_url(file_name: Seq<char>) -> Seq<char> {
    "attachment://"@ + file_name
}

/// The embed built for the image of `username` stored as `file_name`: a title
/// and an image, nothing else.
pub open spec fn is_image_embed(e: Embeds, file_name: Seq<char>, username: Seq<char>) -> bool {
    &&& e.title matches Some(t) && t@ == image_title(username)
    &&& e.kind is None
    &&& e.description is None
    &&& e.url is None
    &&& e.timestamp is None
    &&& e.color is None
    &&& e.fotter is None
    &&& e.image matches Some(img) && img.url@ == attachment_url(file_name) && img.proxy_url is None
        && img.height is None && img.width is None
    &&& e.thumbnail is None
    &&& e.video is None
    &&& e.provider is None
    &&& e.author is None
    &&& e.fields is None
}

/// The first embed of `m` shows the first file that `m` carries.
pub open spec fn embed_shows_attachment(m: MessageWithAttachments) -> bool {
    match (m.embeds, m.attachments) {
        (Some(es), Some(atts)) => es@.len() > 0 && atts@.len() > 0 && match es@[0].image {
            Some(img) => img.url@ == attachment_url(atts@[0].filename@),
            None => false,
        },
        _ => false,
    }
}

/// Law: the follow-up message is the 21 characters `here is your image <@`,
/// then the whole user id, character for character whatever its length, then
/// `>`.
pub proof fn lemma_image_message_keeps_id(user_snowflake: Seq<char>)
    ensures
        image_message_content(user_snowflake).len() == 22 + user_snowflake.len(),
        image_message_content(user_snowflake).subrange(0, 21) == "here is your image <@"@,
        image_message_content(user_snowflake).subrange(21, 21 + user_snowflake.len() as int)
            == user_snowflake,
        image_message_content(user_snowflake)[21 + user_snowflake.len() as int] == '>',
{
    reveal_strlit("here is your image <@");
    reveal_strlit(">");
    let m = image_message_content(user_snowflake);
    assert(m.subrange(0, 21) =~= "here is your image <@"@);
    assert(m.subrange(21, 21 + user_snowflake.len() as int) =~= user_snowflake);
}

impl MessageWithAttachments {
    /// The follow-up message that hands the dithered image, attached as
    /// `file_name`, to the user `username` with id `user_snowflake`.
    pub fn new(file_name: String, username: String, user_snowflake: String) -> (r: Self)
        ensures
            r.content matches Some(c) && c@ == image_message_content(user_snowflake@),
            r.content matches Some(c) && c@.len() == 22 + user_snowflake@.len() && c@.subrange(
                21,
                21 + user_snowflake@.len() as int,
            ) == user_snowflake@,
            r.username is None,
            r.avatar_url is None,
            r.tts == Some(false),
            r.embeds matches Some(es) && es@.len() == 1 && is_image_embed(
                es@[0],
                file_name@,
                username@,
            ),
            r.allowed_mentions is None,
            r.attachments matches Some(atts) && atts@.len() == 1 && atts@[0].id == 0
                && atts@[0].description@ == image_title(username@) && atts@[0].filename@
                == file_name@,
            r.flags is None,
            r.thread_name is None,
            r.applied_tags is None,
            embed_shows_attachment(r),
    {
        proof {
            lemma_image_message_keeps_id(user_snowflake@);
        }
        let content = "here is your image <@".to_owned().concat(user_snowflake.as_str()).concat(
            ">",
        );
        let title = username.concat("'s image");
        let url = "attachment://".to_owned().concat(file_name.as_str());
        Self {
            content: Some(content),
            username: None,
            avatar_url: None,
            tts: Some(false),
            embeds: Some(
                vec![
                    Embeds {
                        title: Some(title.clone()),
                        kind: None,
                        description: None,
                        url: None,
                        timestamp: None,
                        color: None,
                        fotter: None,
                        image: Some(EmbedImage { url, proxy_url: None, height: None, width: None }),
                        thumbnail: None,
                        video: None,
                        provider: None,
                        author: None,
                        fields: None,
                    },
                ],
            ),
            allowed_mentions: None,
            attachments: Some(
                vec![PartialAttachmentObject { id: 0, description: title, filename: file_name }],
            ),
            flags: None,
            thread_name: None,
            applied_tags: None,
        }
    }
}

} // verus!
