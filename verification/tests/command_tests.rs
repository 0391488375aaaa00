use discord_bot::api::Method;
use discord_bot::commands::{
    answer_listing, answer_long, answer_short, channel_id_of, channel_list, command_of,
    content_of, guild_id_of, is_short_listing, names_channel, react, react_to_frame, test_reply,
    Command, Reaction,
};
use discord_bot::json::Json;

fn obj(entries: Vec<(&str, Json)>) -> Json {
    Json::Object(entries.into_iter().map(|(k, v)| (k.to_string(), v)).collect())
}

fn s(text: &str) -> Json {
    Json::String(text.to_string())
}

fn message(content: &str, author: &str, nick: Option<&str>) -> Json {
    let member = match nick {
        Some(n) => obj(vec![("nick", s(n))]),
        None => obj(vec![("nick", Json::Null)]),
    };
    obj(vec![
        ("t", s("MESSAGE_CREATE")),
        (
            "d",
            obj(vec![
                ("channel_id", s("555")),
                ("guild_id", s("777")),
                ("content", s(content)),
                ("author", obj(vec![("id", s(author))])),
                ("member", member),
            ]),
        ),
    ])
}

fn body_content_raw(body: &str) -> String {
    let start = body.find("\"content\": \"").unwrap() + "\"content\": \"".len();
    let end = body.rfind("\",\n").unwrap();
    body[start..end].to_string()
}

fn body_content(body: &str) -> String {
    let v: serde_json::Value = serde_json::from_str(body).unwrap();
    v["content"].as_str().unwrap().to_string()
}

#[test]
fn commands_are_recognised() {
    assert_eq!(command_of("!get_channels"), Command::GetChannels);
    assert_eq!(command_of("!test"), Command::Test);
    assert_eq!(command_of("\"!test\""), Command::Test);
    assert_eq!(command_of("!te\"st"), Command::Test);
    assert_eq!(command_of("!test "), Command::Other);
    assert_eq!(command_of("hello"), Command::Other);
    assert_eq!(command_of(""), Command::Other);
}

#[test]
fn message_fields() {
    let m = message("hi", "1", None);
    assert_eq!(channel_id_of(&m), "555");
    assert_eq!(content_of(&m), "hi");
    assert_eq!(guild_id_of(&m), "777");
}

#[test]
fn message_fields_default() {
    let m = obj(vec![("d", obj(vec![("channel_id", Json::Number("5".to_string()))]))]);
    assert_eq!(channel_id_of(&m), "");
    assert_eq!(content_of(&m), "");
    assert_eq!(guild_id_of(&m), "Guild ID not found");
    assert_eq!(channel_id_of(&Json::Null), "");
}

#[test]
fn test_replies_depend_on_the_author() {
    assert_eq!(test_reply(&message("!test", "320522831362523137", Some("Bob"))), "TG Bob");
    assert_eq!(test_reply(&message("!test", "320522831362523137", None)), "TG GUAPO");
    assert_eq!(test_reply(&message("!test", "257231064362254336", None)), "Tu veux jouer à R6 ?");
    assert_eq!(
        test_reply(&message("!test", "285213193041608704", None)),
        "Tu dois 30€ à mon créateur petit batard"
    );
    assert_eq!(test_reply(&message("!test", "1", None)), "Bonjour Homme respectable");
    assert_eq!(test_reply(&Json::Null), "Bonjour Homme respectable");
}

#[test]
fn react_ignores_other_messages() {
    assert!(matches!(react(&message("hello", "1", None), "tok"), Reaction::Ignore));
    assert!(matches!(react(&Json::Null, "tok"), Reaction::Ignore));
}

#[test]
fn react_to_get_channels_fetches_the_guild_channels() {
    match react(&message("!get_channels", "1", None), "tok") {
        Reaction::FetchChannels { channel_id, request } => {
            assert_eq!(channel_id, "555");
            assert_eq!(request.method, Method::Get);
            assert_eq!(request.url, "https://discord.com/api/v9/guilds/777/channels");
            assert_eq!(request.headers, vec![("Authorization".to_string(), "Bot tok".to_string())]);
            assert!(request.body.is_none());
        }
        _ => panic!("expected a fetch"),
    }
}

#[test]
fn react_to_test_replies_in_the_channel() {
    match react(&message("\"!test\"", "257231064362254336", None), "tok") {
        Reaction::Reply(request) => {
            assert_eq!(request.method, Method::Post);
            assert_eq!(request.url, "https://discord.com/api/v9/channels/555/messages");
            assert_eq!(request.headers[0], ("Authorization".to_string(), "Bot tok".to_string()));
            assert_eq!(request.headers[1], ("Content-type".to_string(), "application/json".to_string()));
            let expected = r#"{
                            "content": "Tu veux jouer à R6 ?",
                            "tts": false
                        }"#;
            assert_eq!(request.body.as_deref(), Some(expected));
        }
        _ => panic!("expected a reply"),
    }
}

#[test]
fn listing_length_decides() {
    assert!(is_short_listing(&"a".repeat(1999)));
    assert!(!is_short_listing(&"a".repeat(2000)));
    assert!(!is_short_listing(&"é".repeat(1000)));
}

#[test]
fn short_listing_is_posted_as_it_is() {
    let a = answer_short("tok", "555", "[]");
    assert_eq!(a.posts.len(), 1);
    assert_eq!(a.posts[0].url, "https://discord.com/api/v9/channels/555/messages");
    assert_eq!(body_content(a.posts[0].body.as_deref().unwrap()), "[]");
    assert!(a.preview.is_none());
}

#[test]
fn channel_list_names_each_channel() {
    let list = vec![
        obj(vec![("name", s("general"))]),
        obj(vec![("id", s("1"))]),
        obj(vec![("name", s("say \"hi\""))]),
    ];
    assert_eq!(channel_list(&list), "general,Error while getting the name,say \"hi\",");
    assert_eq!(channel_list(&Vec::new()), "");
}

#[test]
fn long_listing_posts_count_and_names() {
    let listing = format!("[{}]", "x".repeat(2100));
    let channels = Json::Array(vec![
        obj(vec![("name", s("general"))]),
        obj(vec![("name", s("say \"hi\""))]),
    ]);
    let a = answer_long("tok", "555", &listing, &channels);
    assert_eq!(a.posts.len(), 2);
    assert_eq!(body_content(a.posts[0].body.as_deref().unwrap()), "Il y a : 2 channels");
    assert_eq!(body_content(a.posts[1].body.as_deref().unwrap()), "general,say \"hi\",");
    let preview = a.preview.unwrap();
    let expected_kept = &listing[..1900];
    assert_eq!(body_content(&preview), format!("```{}```", expected_kept));
    assert!(a.posts[0].body.as_deref().unwrap().contains(&format!("\n{}    \"tts\"", " ".repeat(32))));
    assert!(preview.contains(&format!("\n{}    \"tts\"", " ".repeat(24))));
}

#[test]
fn long_listing_cut_inside_a_character_has_no_preview() {
    let listing = format!("{}é{}", "x".repeat(1899), "y".repeat(200));
    assert!(!listing.is_char_boundary(1900));
    let channels = Json::Array(vec![obj(vec![("name", s("general"))])]);
    let a = answer_long("tok", "555", &listing, &channels);
    assert_eq!(a.posts.len(), 2);
    assert!(a.preview.is_none());
}

#[test]
fn react_to_frame_reads_the_frame() {
    let frame = r#"{"t":"MESSAGE_CREATE","s":3,"op":0,"d":{"channel_id":"555","guild_id":"777","content":"!get_channels","author":{"id":"1"}}}"#;
    match react_to_frame(frame, "tok") {
        Some((msg, Reaction::FetchChannels { channel_id, request })) => {
            assert_eq!(channel_id, "555");
            assert_eq!(request.url, "https://discord.com/api/v9/guilds/777/channels");
            assert_eq!(content_of(&msg), "!get_channels");
            assert!(names_channel(&msg));
        }
        _ => panic!("expected a fetch"),
    }
}

#[test]
fn react_to_frame_of_a_test_command() {
    let frame = r#"{"d":{"channel_id":"9","content":"\"!test\"","author":{"id":"320522831362523137"},"member":{"nick":"Ana"}}}"#;
    match react_to_frame(frame, "tok") {
        Some((_, Reaction::Reply(request))) => {
            assert_eq!(request.url, "https://discord.com/api/v9/channels/9/messages");
            assert_eq!(body_content(request.body.as_deref().unwrap()), "TG Ana");
        }
        _ => panic!("expected a reply"),
    }
}

#[test]
fn react_to_frame_of_no_json_is_none() {
    assert!(react_to_frame("", "tok").is_none());
    assert!(react_to_frame("{not json", "tok").is_none());
}

#[test]
fn react_to_frame_with_duplicate_members_takes_the_last() {
    let frame = r#"{"d":{"content":"hello","content":"!test","channel_id":"1"}}"#;
    assert!(matches!(react_to_frame(frame, "tok"), Some((_, Reaction::Reply(_)))));
}

#[test]
fn names_channel_only_for_a_string_id() {
    assert!(!names_channel(&obj(vec![("d", obj(vec![("channel_id", Json::Number("1".to_string()))]))])));
    assert!(!names_channel(&Json::Null));
    assert!(names_channel(&obj(vec![("d", obj(vec![("channel_id", s(""))]))])));
}

#[test]
fn answer_listing_short_posts_the_text() {
    let a = answer_listing("tok", "555", "not even json").unwrap();
    assert_eq!(a.posts.len(), 1);
    assert_eq!(body_content_raw(a.posts[0].body.as_deref().unwrap()), "not even json");
}

#[test]
fn answer_listing_long_reads_the_json() {
    let channels: Vec<String> = (0..60).map(|i| format!(r#"{{"id":"{i}","name":"channel-{i}","topic":"{}"}}"#, "t".repeat(20))).collect();
    let listing = format!("[{}]", channels.join(","));
    assert!(listing.len() >= 2000);
    let a = answer_listing("tok", "555", &listing).unwrap();
    assert_eq!(a.posts.len(), 2);
    assert_eq!(body_content(a.posts[0].body.as_deref().unwrap()), "Il y a : 60 channels");
    let names = body_content(a.posts[1].body.as_deref().unwrap());
    assert!(names.starts_with("channel-0,channel-1,"));
    assert!(a.preview.is_some());
}

#[test]
fn answer_listing_long_that_is_no_json_is_none() {
    let listing = "z".repeat(2500);
    assert!(answer_listing("tok", "555", &listing).is_none());
}

#[test]
fn long_listing_that_is_no_array_posts_nothing() {
    let listing = "y".repeat(2500);
    let a = answer_long("tok", "555", &listing, &obj(vec![("message", s("error"))]));
    assert!(a.posts.is_empty());
    assert!(a.preview.is_some());
}
