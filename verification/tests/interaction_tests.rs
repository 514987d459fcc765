use dither_bot::discord_structs::{
    AttachmentObject, DiscordInteractionData, DiscordOptions, DiscordPing, Member, ResolvedData,
    User,
};
use dither_bot::interaction::{return_ping, PingOutcome};
use dither_bot::rejections::{BadBodyError, Rejection};
use dither_bot::string_map::StringMap;

fn user(id: &str, name: &str) -> User {
    User {
        id: id.to_string(),
        username: name.to_string(),
        discriminator: "0".to_string(),
        global_name: None,
        avatar: None,
        bot: None,
        system: None,
        mfa_enabled: None,
        banner: None,
        accent_color: None,
        locale: None,
        verified: None,
        email: None,
        flags: None,
        premium_type: None,
        public_flags: None,
        avatar_decoration_data: None,
    }
}

fn member(u: Option<User>) -> Member {
    Member {
        user: u,
        nick: None,
        avatar: None,
        roles: None,
        joined_at: None,
        premium_since: None,
        deaf: false,
        mute: false,
        flags: 0,
        pending: None,
        permissions: None,
        communication_disabled_unit: None,
    }
}

fn option(value: Option<&str>) -> DiscordOptions {
    DiscordOptions {
        name: "image".to_string(),
        kind: 11,
        value: value.map(|v| v.to_string()),
        options: None,
        focused: None,
    }
}

fn attachment(id: &str, url: &str) -> AttachmentObject {
    AttachmentObject {
        id: id.to_string(),
        filename: "cat.png".to_string(),
        description: None,
        content_type: Some("image/png".to_string()),
        size: 10,
        url: url.to_string(),
        proxy_url: url.to_string(),
        height: Some(1),
        width: Some(1),
        ephemeral: None,
        duration_secs_bits: None,
        waveform: None,
        flags: None,
    }
}

fn resolved(attachments: Option<StringMap<AttachmentObject>>) -> ResolvedData {
    ResolvedData {
        users: None,
        members: None,
        roles: None,
        channels: None,
        messages: None,
        attachments,
    }
}

fn data(name: &str, options: Option<Vec<DiscordOptions>>, res: Option<ResolvedData>) -> DiscordInteractionData {
    DiscordInteractionData { id: "1".to_string(), name: name.to_string(), kind: 1, options, resolved: res }
}

fn ping(kind: u32, d: Option<DiscordInteractionData>, m: Option<Member>) -> DiscordPing {
    DiscordPing {
        id: "9".to_string(),
        application_id: "app".to_string(),
        kind,
        token: "tok".to_string(),
        version: Some(1),
        entitlements: vec![],
        user: None,
        member: m,
        channel_id: None,
        app_permissions: None,
        guild_locale: None,
        guild_id: None,
        message: None,
        channel: None,
        data: d,
        locale: None,
    }
}

fn attachments_with(id: &str, url: &str) -> StringMap<AttachmentObject> {
    let mut m = StringMap::new();
    m.insert(id.to_string(), attachment(id, url));
    m
}

#[test]
fn ping_gets_pong() {
    assert!(matches!(return_ping(ping(1, None, None)), PingOutcome::Pong));
}

#[test]
fn unknown_interaction_kind_is_not_found() {
    assert!(matches!(return_ping(ping(3, None, None)), PingOutcome::Rejected(Rejection::NotFound)));
}

#[test]
fn command_without_data_is_a_bad_body() {
    assert!(matches!(
        return_ping(ping(2, None, None)),
        PingOutcome::Rejected(Rejection::BadBodyError(BadBodyError))
    ));
}

#[test]
fn unknown_command_is_not_found() {
    let p = ping(2, Some(data("other", None, None)), None);
    assert!(matches!(return_ping(p), PingOutcome::Rejected(Rejection::NotFound)));
}

#[test]
fn test_command_greets_the_first_option() {
    let p = ping(2, Some(data("test", Some(vec![option(Some("Ada")), option(Some("Bob"))]), None)), None);
    match return_ping(p) {
        PingOutcome::Reply(r) => {
            assert_eq!(r.kind, 4);
            assert_eq!(r.data.content, "Hello Ada");
            assert!(!r.data.tts);
        },
        _ => panic!("expected a reply"),
    }
}

#[test]
fn test_command_without_options_greets_the_world() {
    for opts in [None, Some(vec![]), Some(vec![option(None)])] {
        let p = ping(2, Some(data("test", opts, None)), None);
        match return_ping(p) {
            PingOutcome::Reply(r) => assert_eq!(r.data.content, "Hello World!"),
            _ => panic!("expected a reply"),
        }
    }
}

#[test]
fn dither_command_hands_over_the_attachment() {
    let d = data(
        "dither",
        Some(vec![option(Some("42"))]),
        Some(resolved(Some(attachments_with("42", "https://cdn/cat.png")))),
    );
    let p = ping(2, Some(d), Some(member(Some(user("77", "ada")))));
    match return_ping(p) {
        PingOutcome::Deferred(job, reply) => {
            assert_eq!(job.url, "https://cdn/cat.png");
            assert_eq!(job.token, "tok");
            assert_eq!(job.username, "ada");
            assert_eq!(job.user_id, "77");
            assert_eq!(reply.kind, 5);
            assert_eq!(reply.data.content, "test");
        },
        _ => panic!("expected a deferred reply"),
    }
}

#[test]
fn dither_command_without_user_uses_a_placeholder() {
    let d = data(
        "dither",
        Some(vec![option(Some("42"))]),
        Some(resolved(Some(attachments_with("42", "u")))),
    );
    match return_ping(ping(2, Some(d), Some(member(None)))) {
        PingOutcome::Deferred(job, _) => {
            assert_eq!(job.username, "BRO");
            assert_eq!(job.user_id, "0");
        },
        _ => panic!("expected a deferred reply"),
    }
}

#[test]
fn dither_command_missing_pieces_is_a_bad_body() {
    let cases = vec![
        // no resolved data
        ping(2, Some(data("dither", Some(vec![option(Some("42"))]), None)), Some(member(None))),
        // no attachments
        ping(2, Some(data("dither", Some(vec![option(Some("42"))]), Some(resolved(None)))), Some(member(None))),
        // no options
        ping(2, Some(data("dither", None, Some(resolved(Some(attachments_with("42", "u")))))), Some(member(None))),
        // empty options
        ping(2, Some(data("dither", Some(vec![]), Some(resolved(Some(attachments_with("42", "u")))))), Some(member(None))),
        // option without value
        ping(2, Some(data("dither", Some(vec![option(None)]), Some(resolved(Some(attachments_with("42", "u")))))), Some(member(None))),
        // option naming another attachment
        ping(2, Some(data("dither", Some(vec![option(Some("41"))]), Some(resolved(Some(attachments_with("42", "u")))))), Some(member(None))),
        // no member
        ping(2, Some(data("dither", Some(vec![option(Some("42"))]), Some(resolved(Some(attachments_with("42", "u")))))), None),
    ];
    for p in cases {
        assert!(matches!(
            return_ping(p),
            PingOutcome::Rejected(Rejection::BadBodyError(BadBodyError))
        ));
    }
}
