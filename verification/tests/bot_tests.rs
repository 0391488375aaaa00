use discord_bot::api::{
    api_base, authorization, channel_messages_url, gateway_url, guild_channels_url, message_body,
    post_message, Method,
};
use discord_bot::bot::Bot;
use discord_bot::channel::TextChannel;
use discord_bot::gateway::{
    heartbeat_due, heartbeat_interval, heartbeat_payload, hello_interval_text, identify_payload,
    GatewayInfos, SessionStartLimit,
};

const HELLO: &str = "{\"t\":null,\"s\":null,\"op\":10,\"d\":{\"heartbeat_interval\":41250,\"_trace\":[\"[\\\"gateway-prd-main-858d\\\",{\\\"micros\\\":0.0}]\"]}}";

#[test]
fn bot_keeps_its_token() {
    let bot = Bot::new("my-token", || true);
    assert_eq!(bot.get_token(), "my-token");
    bot.connect();
    assert_eq!(bot.get_token(), "my-token");
}

#[test]
fn bot_accepts_a_boxed_handler() {
    let handler: Box<dyn FnMut() -> bool> = Box::new(|| false);
    let bot = Bot::new("t", handler);
    assert_eq!(bot.get_token(), "t");
}

#[test]
fn gateway_request_is_authorized() {
    let bot = Bot::new("abc", || true);
    let r = bot.gateway_request();
    assert_eq!(r.method, Method::Get);
    assert_eq!(r.url, "https://discord.com/api/v9/gateway/bot");
    assert_eq!(r.headers, vec![("Authorization".to_string(), "Bot abc".to_string())]);
    assert!(r.body.is_none());
}

#[test]
fn addresses_of_the_api() {
    assert_eq!(api_base(), "https://discord.com/api/v9");
    assert_eq!(gateway_url(), "https://discord.com/api/v9/gateway/bot");
    assert_eq!(channel_messages_url("42"), "https://discord.com/api/v9/channels/42/messages");
    assert_eq!(guild_channels_url("7"), "https://discord.com/api/v9/guilds/7/channels");
    assert_eq!(authorization("token_artifact"), "Bot token_artifact");
}

#[test]
fn message_body_is_json() {
    let body = message_body("hello", 24);
    let pad = " ".repeat(24);
    assert_eq!(
        body,
        format!("{{\n{pad}    \"content\": \"hello\",\n{pad}    \"tts\": false\n{pad}}}")
    );
    let v: serde_json::Value = serde_json::from_str(&body).unwrap();
    assert_eq!(v["content"], "hello");
    assert_eq!(v["tts"], false);
}

#[test]
fn post_message_headers_and_body() {
    let r = post_message("tok", "99", "hi", 24);
    assert_eq!(r.method, Method::Post);
    assert_eq!(r.url, "https://discord.com/api/v9/channels/99/messages");
    assert_eq!(
        r.headers,
        vec![
            ("Authorization".to_string(), "Bot tok".to_string()),
            ("Content-type".to_string(), "application/json".to_string()),
        ]
    );
    let expected = "{
                            \"content\": \"hi\",
                            \"tts\": false
                        }";
    assert_eq!(r.body.as_deref(), Some(expected));
}

#[test]
fn identify_payload_is_the_original_text() {
    let expected = r#"
        {
            "op": 2,
            "d": {
              "token": "token_artifact",
              "intents": 513,
              "properties": {
                "$os": "linux",
                "$browser": "rust_lib",
                "$device": "rust_lib"
              },
              "presence": {
                "activities": [{
                  "name": "League of Legends",
                  "type": 1
                }],
                "status": "online",
                "since": 91879201,
                "afk": false
              }
            }
          }
        "#;
    assert_eq!(identify_payload("token_artifact"), expected);
}

#[test]
fn heartbeat_interval_of_the_greeting() {
    assert_eq!(heartbeat_interval(HELLO), Some(41250));
    assert_eq!(hello_interval_text(HELLO), "41250");
}

#[test]
fn greeting_interval_reads_back() {
    let rests = ["", ",\"_trace\":[]}}", "é\"t\":null,\"s\":null,}}", "}}}}"];
    for n in [10000u128, 41250, 45000, 99999] {
        for rest in rests {
            let greeting = format!(
                "{{\"t\":null,\"s\":null,\"op\":10,\"d\":{{\"heartbeat_interval\":{}{}",
                n, rest
            );
            assert_eq!(heartbeat_interval(&greeting), Some(n));
        }
    }
}

#[test]
fn heartbeat_interval_of_a_short_greeting_is_none() {
    assert_eq!(heartbeat_interval("{\"op\":10}"), None);
    assert_eq!(heartbeat_interval(""), None);
}

#[test]
fn heartbeat_interval_needs_a_char_boundary() {
    let hello = "{\"op\":10,\"d\":{\"heartbeat_interval\":4125é}}";
    assert!(!hello.is_char_boundary(40));
    assert_eq!(heartbeat_interval(hello), None);
}

#[test]
fn heartbeat_interval_reads_five_digits() {
    let hello = "{\"t\":null,\"s\":null,\"op\":10,\"d\":{\"heartbeat_interval\":412500,\"_trace\":[]}}";
    assert_eq!(heartbeat_interval(hello), Some(41250));
    let short = "{\"t\":null,\"s\":null,\"op\":10,\"d\":{\"heartbeat_interval\":4125,\"_trace\":[]}}";
    assert_eq!(heartbeat_interval(short), None);
}

#[test]
fn heartbeat_due_only_on_the_interval() {
    assert!(heartbeat_due(41250, 41250));
    assert!(!heartbeat_due(41249, 41250));
    assert!(!heartbeat_due(41251, 41250));
}

#[test]
fn payloads_are_json() {
    let h: serde_json::Value = serde_json::from_str(heartbeat_payload()).unwrap();
    assert_eq!(h["op"], 1);
    assert!(h["d"].is_null());
    let i: serde_json::Value = serde_json::from_str(&identify_payload("token_artifact")).unwrap();
    assert_eq!(i["op"], 2);
    assert_eq!(i["d"]["token"], "token_artifact");
    assert_eq!(i["d"]["intents"], 513);
    assert_eq!(i["d"]["presence"]["activities"][0]["name"], "League of Legends");
}

#[test]
fn gateway_infos_url() {
    let infos = GatewayInfos::new(
        "wss://gateway.discord.gg".to_string(),
        1,
        SessionStartLimit::new(1000, 999, 14400000, 1),
    );
    assert_eq!(infos.get_url(), "wss://gateway.discord.gg");
}

#[test]
fn text_channel_getters() {
    let c = TextChannel::new(
        "41771983423143937".to_string(),
        0,
        "41771983423143937".to_string(),
        6,
        Vec::new(),
        "general".to_string(),
        "24/7 chat about how to gank Mike #2".to_string(),
        false,
        "155117677105512449".to_string(),
        2,
        "399942396007890945".to_string(),
        "2020-01-01T00:00:00Z".to_string(),
    );
    assert_eq!(c.get_id(), "41771983423143937");
    assert_eq!(c.get_name(), "general");
    assert_eq!(c.get_topic(), "24/7 chat about how to gank Mike #2");
}
