//! The requests the bot makes to the Discord HTTP API.

use vstd::prelude::*;
use crate::text::push_char;

verus! {

/// The two HTTP methods the bot uses.
#[derive(PartialEq, Eq, Structural, Clone, Copy, Debug)]
pub enum Method {
    Get,
    Post,
}

/// An HTTP request for the bot to send: the method, the address, the
/// headers in the order they are set, and the body, if any.
pub struct Request {
    pub method: Method,
    pub url: String,
    pub headers: Vec<(String, String)>,
    pub body: Option<String>,
}

/// What a request holds, as text.
pub struct RequestView {
    pub method: Method,
    pub url: Seq<char>,
    pub headers: Seq<(Seq<char>, Seq<char>)>,
    pub body: Option<Seq<char>>,
}

/// The text of each header of `headers`.
pub open spec fn headers_view(headers: Seq<(String, String)>) -> Seq<(Seq<char>, Seq<char>)> {
    headers.map_values(|h: (String, String)| (h.0@, h.1@))
}

impl View for Request {
    type V = RequestView;

    open spec fn view(&self) -> RequestView {
        RequestView {
            method: self.method,
            url: self.url@,
            headers: headers_view(self.headers@),
            body: match self.body {
                Some(b) => Some(b@),
                None => None,
            },
        }
    }
}

/// The base of every address of the Discord HTTP API.
pub open spec fn api_base_spec() -> Seq<char> {
    "https://discord.com/api/v9"@
}

/// The base of every address of the Discord HTTP API.
pub fn api_base() -> (res: &'static str)
    ensures
        res@ == api_base_spec(),
{
    "https://discord.com/api/v9"
}

/// The value of the `Authorization` header for a bot with this token.
pub open spec fn authorization_spec(token: Seq<char>) -> Seq<char> {
    "Bot "@ + token
}

/// The value of the `Authorization` header for a bot with this token.
pub fn authorization(token: &str) -> (res: String)
    ensures
        res@ == authorization_spec(token@),
{
    let mut res = "Bot ".to_owned();
    res.append(token);
    res
}

/// The address from which a bot learns where the gateway is.
pub open spec fn gateway_url_spec() -> Seq<char> {
    api_base_spec() + "/gateway/bot"@
}

/// The address of the messages of a channel.
pub open spec fn channel_messages_url_spec(channel_id: Seq<char>) -> Seq<char> {
    api_base_spec() + "/channels/"@ + channel_id + "/messages"@
}

/// The address of the channels of a guild.
pub open spec fn guild_channels_url_spec(guild_id: Seq<char>) -> Seq<char> {
    api_base_spec() + "/guilds/"@ + guild_id + "/channels"@
}

/// Different channels, guilds and tokens never share an address or an
/// `Authorization` header: each of them is read back from what it is put in.
pub proof fn lemma_addresses_distinguish(a: Seq<char>, b: Seq<char>)
    ensures
        channel_messages_url_spec(a) == channel_messages_url_spec(b) ==> a == b,
        guild_channels_url_spec(a) == guild_channels_url_spec(b) ==> a == b,
        authorization_spec(a) == authorization_spec(b) ==> a == b,
{
    reveal_strlit("https://discord.com/api/v9");
    reveal_strlit("/channels/");
    reveal_strlit("/messages");
    reveal_strlit("/guilds/");
    reveal_strlit("/channels");
    reveal_strlit("Bot ");
    if channel_messages_url_spec(a) == channel_messages_url_spec(b) {
        let u = channel_messages_url_spec(a);
        assert(a =~= u.subrange(36, u.len() - 9));
        assert(b =~= channel_messages_url_spec(b).subrange(36, u.len() - 9));
    }
    if guild_channels_url_spec(a) == guild_channels_url_spec(b) {
        let u = guild_channels_url_spec(a);
        assert(a =~= u.subrange(34, u.len() - 9));
        assert(b =~= guild_channels_url_spec(b).subrange(34, u.len() - 9));
    }
    if authorization_spec(a) == authorization_spec(b) {
        assert(a =~= authorization_spec(a).skip(4));
        assert(b =~= authorization_spec(b).skip(4));
    }
}

/// The address from which a bot learns where the gateway is.
pub fn gateway_url() -> (res: String)
    ensures
        res@ == gateway_url_spec(),
{
    let mut res = api_base().to_owned();
    res.append("/gateway/bot");
    res
}

/// The address of the messages of a channel.
pub fn channel_messages_url(channel_id: &str) -> (res: String)
    ensures
        res@ == channel_messages_url_spec(channel_id@),
{
    let mut res = api_base().to_owned();
    res.append("/channels/");
    res.append(channel_id);
    res.append("/messages");
    res
}

/// The address of the channels of a guild.
pub fn guild_channels_url(guild_id: &str) -> (res: String)
    ensures
        res@ == guild_channels_url_spec(guild_id@),
{
    let mut res = api_base().to_owned();
    res.append("/guilds/");
    res.append(guild_id);
    res.append("/channels");
    res
}

/// `n` spaces.
pub open spec fn spaces_spec(n: nat) -> Seq<char> {
    Seq::new(n, |i: int| ' ')
}

/// `n` spaces.
pub fn spaces(n: usize) -> (res: String)
    ensures
        res@ == spaces_spec(n as nat),
{
    let mut res = String::new();
    let mut i: usize = 0;
    while i < n
        invariant
            i <= n,
            res@ == spaces_spec(i as nat),
        decreases n - i,
    {
        push_char(&mut res, ' ');
        assert(res@ =~= spaces_spec(i as nat + 1));
        i += 1;
    }
    res
}

/// How far the bodies of replies and of the preview of a listing are indented.
pub open spec fn reply_indent() -> nat {
    24
}

/// How far the bodies of the posts that answer a long listing are indented.
pub open spec fn listing_indent() -> nat {
    32
}

/// The JSON body of a message that says `content`, laid out over four
/// lines: the braces indented by `indent` spaces (the first one excepted),
/// the two members by four more. The content goes in as it is, without
/// escaping.
pub open spec fn message_body_spec(content: Seq<char>, indent: nat) -> Seq<char> {
    "{\n"@ + spaces_spec(indent) + "    \"content\": \""@ + content + "\",\n"@ + spaces_spec(indent)
        + "    \"tts\": false\n"@ + spaces_spec(indent) + "}"@
}

/// Every message body says its content and is no text-to-speech message,
/// whatever its indentation: after an opening brace, a line break and the
/// indentation comes the `content` member with the content as given, and
/// the body ends with `"tts": false`, a line break, the indentation and the
/// closing brace.
pub proof fn lemma_message_body_members(content: Seq<char>, indent: nat)
    ensures
        message_body_spec(content, indent).subrange(0, indent + 18int) == "{\n"@ + spaces_spec(indent)
            + "    \"content\": \""@,
        message_body_spec(content, indent).subrange(indent + 18int, indent + 18int + content.len())
            == content,
        message_body_spec(content, indent).skip(
            message_body_spec(content, indent).len() - (indent + 14),
        ) == "\"tts\": false\n"@ + spaces_spec(indent) + "}"@,
{
    reveal_strlit("{\n");
    reveal_strlit("    \"content\": \"");
    reveal_strlit("\",\n");
    reveal_strlit("    \"tts\": false\n");
    reveal_strlit("\"tts\": false\n");
    reveal_strlit("}");
    let pad = spaces_spec(indent);
    let head = "{\n"@ + pad + "    \"content\": \""@;
    let tts = "\"tts\": false\n"@ + pad + "}"@;
    let mid = "\",\n"@ + pad + "    "@;
    reveal_strlit("    ");
    assert("    \"tts\": false\n"@ =~= "    "@ + "\"tts\": false\n"@);
    let b = message_body_spec(content, indent);
    assert(b =~= head + content + mid + tts);
    assert(head.len() == indent + 18);
    assert(tts.len() == indent + 14);
    assert(b.subrange(0, indent + 18int) =~= head);
    assert(b.subrange(indent + 18int, indent + 18int + content.len()) =~= content);
    assert(b.skip(b.len() - (indent + 14)) =~= tts);
}

/// The JSON body of a message that says `content`, indented by `indent`.
pub fn message_body(content: &str, indent: usize) -> (res: String)
    ensures
        res@ == message_body_spec(content@, indent as nat),
{
    let pad = spaces(indent);
    let mut res = "{\n".to_owned();
    res.append(pad.as_str());
    res.append("    \"content\": \"");
    res.append(content);
    res.append("\",\n");
    res.append(pad.as_str());
    res.append("    \"tts\": false\n");
    res.append(pad.as_str());
    res.append("}");
    res
}

/// A GET request of `url` made by the bot with this token.
pub open spec fn get_request_spec(url: Seq<char>, token: Seq<char>) -> RequestView {
    RequestView {
        method: Method::Get,
        url: url,
        headers: seq![("Authorization"@, authorization_spec(token))],
        body: None,
    }
}

/// The request that posts a message saying `content` in a channel, its
/// body indented by `indent`.
pub open spec fn post_message_spec(
    token: Seq<char>,
    channel_id: Seq<char>,
    content: Seq<char>,
    indent: nat,
) -> RequestView {
    RequestView {
        method: Method::Post,
        url: channel_messages_url_spec(channel_id),
        headers: seq![
            ("Authorization"@, authorization_spec(token)),
            ("Content-type"@, "application/json"@),
        ],
        body: Some(message_body_spec(content, indent)),
    }
}

/// Every request the bot makes carries its token: the first header of each
/// is the `Authorization` header `Bot <token>`, and only posts have a body.
pub proof fn lemma_requests_authorized(
    token: Seq<char>,
    url: Seq<char>,
    channel_id: Seq<char>,
    content: Seq<char>,
    indent: nat,
)
    ensures
        get_request_spec(url, token).headers[0] == ("Authorization"@, authorization_spec(token)),
        get_request_spec(url, token).body is None,
        post_message_spec(token, channel_id, content, indent).headers[0] == (
            "Authorization"@,
            authorization_spec(token),
        ),
        post_message_spec(token, channel_id, content, indent).body is Some,
{
}

/// A GET request of `url` made by the bot with this token.
pub fn get_request(url: String, token: &str) -> (res: Request)
    ensures
        res@ == get_request_spec(url@, token@),
{
    let mut headers: Vec<(String, String)> = Vec::new();
    headers.push(("Authorization".to_owned(), authorization(token)));
    let res = Request { method: Method::Get, url, headers, body: None };
    assert(res@.headers =~= get_request_spec(url@, token@).headers);
    res
}

/// The request that posts a message saying `content` in a channel, its
/// body indented by `indent`.
pub fn post_message(token: &str, channel_id: &str, content: &str, indent: usize) -> (res: Request)
    ensures
        res@ == post_message_spec(token@, channel_id@, content@, indent as nat),
{
    let mut headers: Vec<(String, String)> = Vec::new();
    headers.push(("Authorization".to_owned(), authorization(token)));
    headers.push(("Content-type".to_owned(), "application/json".to_owned()));
    let res = Request {
        method: Method::Post,
        url: channel_messages_url(channel_id),
        headers,
        body: Some(message_body(content, indent)),
    };
    assert(res@.headers =~= post_message_spec(token@, channel_id@, content@, indent as nat).headers);
    res
}

} // verus!
