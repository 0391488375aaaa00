//! How the bot answers the messages it receives through the gateway.
//!
//! A message event carries its data under `d`. The bot knows two commands,
//! `!get_channels` and `!test`, recognised once every double quote is taken
//! out of the message's content.

use vstd::prelude::*;
use crate::api::{
    channel_messages_url_spec, get_request, get_request_spec, guild_channels_url, guild_channels_url_spec, listing_indent,
    message_body, message_body_spec, post_message, post_message_spec, reply_indent, Method,
    Request,
};
use crate::json::{
    field, json_of_text, member, parse_json, same_text, text_of, text_or, text_or_default, Json,
};
use crate::text::{
    byte_len, byte_length, byte_prefix, decimal, decimal_spec, escape_quotes, escape_quotes_spec,
    is_boundary, lemma_byte_prefix, lemma_parse_decimal, lemma_remove_all, parse_u128_spec, lemma_remove_quotes_keeps_the_rest, lemma_replace_absent, quoteless,
    remove_quotes, replace_spec, truncate_bytes,
};

verus! {

/// The commands the bot knows.
#[derive(PartialEq, Eq, Structural, Clone, Copy, Debug)]
pub enum Command {
    GetChannels,
    Test,
    Other,
}

/// The command that a message's content asks for.
pub open spec fn command_spec(content: Seq<char>) -> Command {
    let c = replace_spec(content, seq!['"'], Seq::<char>::empty());
    if c == "!get_channels"@ {
        Command::GetChannels
    } else if c == "!test"@ {
        Command::Test
    } else {
        Command::Other
    }
}

/// The command that a message's content asks for.
pub fn command_of(content: &str) -> (res: Command)
    ensures
        res == command_spec(content@),
{
    let c = remove_quotes(content);
    if same_text(c.as_str(), "!get_channels") {
        Command::GetChannels
    } else if same_text(c.as_str(), "!test") {
        Command::Test
    } else {
        Command::Other
    }
}

/// Double quotes in a message's content make no difference to the command it
/// asks for: the content with its quotes taken out asks for the same one.
pub proof fn lemma_command_ignores_quotes(content: Seq<char>)
    ensures
        command_spec(replace_spec(content, seq!['"'], Seq::<char>::empty())) == command_spec(content),
{
    let r = replace_spec(content, seq!['"'], Seq::<char>::empty());
    lemma_remove_all(content, '"');
    lemma_replace_absent(r, '"');
}

/// What each command is asked by: with its double quotes taken out, a
/// content asks for `GetChannels` exactly when it reads `!get_channels`, for
/// `Test` exactly when it reads `!test`, and for nothing in every other case.
pub proof fn lemma_command_meaning(content: Seq<char>)
    ensures
        (command_spec(content) == Command::GetChannels) <==> quoteless(content) == "!get_channels"@,
        (command_spec(content) == Command::Test) <==> quoteless(content) == "!test"@,
        (command_spec(content) == Command::Other) <==> (quoteless(content) != "!get_channels"@
            && quoteless(content) != "!test"@),
{
    reveal_strlit("!get_channels");
    reveal_strlit("!test");
    lemma_remove_quotes_keeps_the_rest(content);
    assert("!get_channels"@.len() != "!test"@.len());
}

/// The fields a message event is read for: each is the text of the member
/// of the event's `d` of that name where it is a string, and otherwise the
/// empty text (channel, content) or the note that there is no guild. No
/// other member of the event counts.
pub proof fn lemma_message_fields(msg: Json)
    ensures
        channel_id_spec(msg) == match field(field(msg, "d"@), "channel_id"@) {
            Json::String(id) => id@,
            _ => Seq::<char>::empty(),
        },
        content_spec(msg) == match field(field(msg, "d"@), "content"@) {
            Json::String(c) => c@,
            _ => Seq::<char>::empty(),
        },
        guild_id_spec(msg) == match field(field(msg, "d"@), "guild_id"@) {
            Json::String(id) => id@,
            _ => "Guild ID not found"@,
        },
{
}

/// Who gets which answer to `!test`: the author of id 320522831362523137 is
/// called by the member's nickname (or GUAPO), two other ids get their own
/// sentence, and every other author gets "Bonjour Homme respectable",
/// whatever else the message holds.
pub proof fn lemma_test_reply_by_author(msg: Json)
    ensures
        text_of(field(field(field(msg, "d"@), "author"@), "id"@)) == Some("320522831362523137"@)
            ==> test_reply_spec(msg) == "TG "@ + match field(
            field(field(msg, "d"@), "member"@),
            "nick"@,
        ) {
            Json::String(n) => n@,
            _ => "GUAPO"@,
        },
        text_of(field(field(field(msg, "d"@), "author"@), "id"@)) == Some("257231064362254336"@)
            ==> test_reply_spec(msg) == "Tu veux jouer à R6 ?"@,
        text_of(field(field(field(msg, "d"@), "author"@), "id"@)) == Some("285213193041608704"@)
            ==> test_reply_spec(msg) == "Tu dois 30€ à mon créateur petit batard"@,
        text_of(field(field(field(msg, "d"@), "author"@), "id"@)) != Some("320522831362523137"@)
            && text_of(field(field(field(msg, "d"@), "author"@), "id"@)) != Some(
            "257231064362254336"@,
        ) && text_of(field(field(field(msg, "d"@), "author"@), "id"@)) != Some(
            "285213193041608704"@,
        ) ==> test_reply_spec(msg) == "Bonjour Homme respectable"@,
{
    reveal_strlit("320522831362523137");
    reveal_strlit("257231064362254336");
    reveal_strlit("285213193041608704");
    assert("320522831362523137"@[0] != "257231064362254336"@[0]);
    assert("320522831362523137"@[0] != "285213193041608704"@[0]);
    assert("257231064362254336"@[1] != "285213193041608704"@[1]);
}

/// A reply to `!test` is posted in the channel that the event's
/// `d.channel_id` names.
pub proof fn lemma_reply_in_message_channel(msg: Json, token: Seq<char>, request: Request)
    requires
        reacts_as(msg, token, Reaction::Reply(request)),
    ensures
        request@.url == channel_messages_url_spec(
            match field(field(msg, "d"@), "channel_id"@) {
                Json::String(id) => id@,
                _ => Seq::<char>::empty(),
            },
        ),
        request@.method == Method::Post,
{
}

/// The names post is made channel by channel: the listing of two runs of
/// channels is the listing of the first followed by that of the second.
pub proof fn lemma_channel_list_concat(a: Seq<Json>, b: Seq<Json>)
    ensures
        channel_list_spec(a + b) == channel_list_spec(a) + channel_list_spec(b),
    decreases b.len(),
{
    if b.len() == 0 {
        assert(a + b =~= a);
        assert(channel_list_spec(a) + channel_list_spec(b) =~= channel_list_spec(a));
    } else {
        lemma_channel_list_concat(a, b.drop_last());
        assert((a + b).drop_last() =~= a + b.drop_last());
        assert((a + b).last() == b.last());
        assert(channel_list_spec(a) + (channel_list_spec(b.drop_last()) + channel_name_spec(b.last())
            + ","@) =~= (channel_list_spec(a) + channel_list_spec(b.drop_last())) + channel_name_spec(
            b.last(),
        ) + ","@);
    }
}

/// Every channel, whatever it holds, has its entry in the names post: its
/// `name` where that is a string, or else "Error while getting the name",
/// followed by a comma.
pub proof fn lemma_channel_list_entry(channel: Json)
    ensures
        channel_list_spec(seq![channel]) == match field(channel, "name"@) {
            Json::String(n) => n@ + ","@,
            _ => "Error while getting the name"@ + ","@,
        },
{
    let one = seq![channel];
    assert(one.drop_last() =~= Seq::<Json>::empty());
    assert(channel_list_spec(one.drop_last()) == Seq::<char>::empty());
    assert(one.last() == channel);
    assert(channel_list_spec(one) == channel_list_spec(one.drop_last()) + channel_name_spec(channel)
        + ","@);
    assert(Seq::<char>::empty() + channel_name_spec(channel) + ","@ =~= channel_name_spec(channel)
        + ","@);
}

/// The data of a message event.
pub open spec fn data_spec(msg: Json) -> Json {
    field(msg, "d"@)
}

/// The channel a message was sent in; empty where the event names none.
pub open spec fn channel_id_spec(msg: Json) -> Seq<char> {
    text_or(field(data_spec(msg), "channel_id"@), Seq::<char>::empty())
}

/// The content of a message; empty where the event has none.
pub open spec fn content_spec(msg: Json) -> Seq<char> {
    text_or(field(data_spec(msg), "content"@), Seq::<char>::empty())
}

/// The guild a message was sent in, or a note that it names none.
pub open spec fn guild_id_spec(msg: Json) -> Seq<char> {
    text_or(field(data_spec(msg), "guild_id"@), "Guild ID not found"@)
}

/// The nickname of the member who sent a message, or `GUAPO`.
pub open spec fn nick_spec(msg: Json) -> Seq<char> {
    text_or(field(field(data_spec(msg), "member"@), "nick"@), "GUAPO"@)
}

/// The id of the author of a message, as a JSON value.
pub open spec fn author_id_spec(msg: Json) -> Json {
    field(field(data_spec(msg), "author"@), "id"@)
}

/// What the bot answers to `!test`, which depends on who asks.
pub open spec fn test_reply_spec(msg: Json) -> Seq<char> {
    let id = text_of(author_id_spec(msg));
    if id == Some("320522831362523137"@) {
        "TG "@ + nick_spec(msg)
    } else if id == Some("257231064362254336"@) {
        "Tu veux jouer à R6 ?"@
    } else if id == Some("285213193041608704"@) {
        "Tu dois 30€ à mon créateur petit batard"@
    } else {
        "Bonjour Homme respectable"@
    }
}

/// What the bot does about a message.
pub enum Reaction {
    /// Nothing: the message asks for no command.
    Ignore,
    /// Fetch the channels of the message's guild with `request`, then
    /// answer in `channel_id` with `answer_short` or `answer_long`.
    FetchChannels { channel_id: String, request: Request },
    /// Send this request, which answers the message.
    Reply(Request),
}

/// `msg[k1][k2]`, as `serde_json` indexes values.
fn at2<'a>(msg: &'a Json, k1: &str, k2: &str) -> (res: Option<&'a Json>)
    ensures
        res is None ==> field(field(*msg, k1@), k2@) == Json::Null,
        res matches Some(m) ==> field(field(*msg, k1@), k2@) == *m,
{
    match member(msg, k1) {
        Some(a) => member(a, k2),
        None => None,
    }
}

/// `msg[k1][k2][k3]`, as `serde_json` indexes values.
fn at3<'a>(msg: &'a Json, k1: &str, k2: &str, k3: &str) -> (res: Option<&'a Json>)
    ensures
        res is None ==> field(field(field(*msg, k1@), k2@), k3@) == Json::Null,
        res matches Some(m) ==> field(field(field(*msg, k1@), k2@), k3@) == *m,
{
    match at2(msg, k1, k2) {
        Some(a) => member(a, k3),
        None => None,
    }
}

/// The channel a message was sent in; empty where the event names none.
pub fn channel_id_of(msg: &Json) -> (res: String)
    ensures
        res@ == channel_id_spec(*msg),
{
    proof {
        reveal_strlit("");
    }
    text_or_default(at2(msg, "d", "channel_id"), "")
}

/// The content of a message; empty where the event has none.
pub fn content_of(msg: &Json) -> (res: String)
    ensures
        res@ == content_spec(*msg),
{
    proof {
        reveal_strlit("");
    }
    text_or_default(at2(msg, "d", "content"), "")
}

/// The guild a message was sent in, or a note that it names none.
pub fn guild_id_of(msg: &Json) -> (res: String)
    ensures
        res@ == guild_id_spec(*msg),
{
    text_or_default(at2(msg, "d", "guild_id"), "Guild ID not found")
}

/// What the bot answers to `!test`, which depends on who asks.
pub fn test_reply(msg: &Json) -> (res: String)
    ensures
        res@ == test_reply_spec(*msg),
{
    let (is_first, is_second, is_third) = match at3(msg, "d", "author", "id") {
        Some(id) => (
            id.is_text("320522831362523137"),
            id.is_text("257231064362254336"),
            id.is_text("285213193041608704"),
        ),
        None => (false, false, false),
    };
    if is_first {
        let nick = text_or_default(at3(msg, "d", "member", "nick"), "GUAPO");
        let mut res = "TG ".to_owned();
        res.append(nick.as_str());
        res
    } else if is_second {
        "Tu veux jouer à R6 ?".to_owned()
    } else if is_third {
        "Tu dois 30€ à mon créateur petit batard".to_owned()
    } else {
        "Bonjour Homme respectable".to_owned()
    }
}

/// Whether `reaction` is what the bot does about the message event `msg`,
/// for a bot with this token.
pub open spec fn reacts_as(msg: Json, token: Seq<char>, reaction: Reaction) -> bool {
    match reaction {
        Reaction::Ignore => command_spec(content_spec(msg)) == Command::Other,
        Reaction::FetchChannels { channel_id, request } => {
            &&& command_spec(content_spec(msg)) == Command::GetChannels
            &&& channel_id@ == channel_id_spec(msg)
            &&& request@ == get_request_spec(guild_channels_url_spec(guild_id_spec(msg)), token)
        },
        Reaction::Reply(request) => {
            &&& command_spec(content_spec(msg)) == Command::Test
            &&& request@ == post_message_spec(token, channel_id_spec(msg), test_reply_spec(msg), reply_indent())
        },
    }
}

/// What the bot does about the message event `msg`, for a bot with this token.
pub fn react(msg: &Json, token: &str) -> (res: Reaction)
    ensures
        reacts_as(*msg, token@, res),
{
    let channel_id = channel_id_of(msg);
    let content = content_of(msg);
    match command_of(content.as_str()) {
        Command::GetChannels => {
            let guild_id = guild_id_of(msg);
            let request = get_request(guild_channels_url(guild_id.as_str()), token);
            Reaction::FetchChannels { channel_id, request }
        },
        Command::Test => {
            let reply = test_reply(msg);
            Reaction::Reply(post_message(token, channel_id.as_str(), reply.as_str(), 24))
        },
        Command::Other => Reaction::Ignore,
    }
}

/// What the bot does about a frame of text it receives from the gateway:
/// the frame read as JSON, and the reaction to that message event; `None`
/// where the frame is no JSON.
pub fn react_to_frame(frame: &str, token: &str) -> (res: Option<(Json, Reaction)>)
    ensures
        res is None <==> json_of_text(frame@) is None,
        res matches Some(p) ==> json_of_text(frame@) == Some(p.0) && reacts_as(p.0, token@, p.1),
{
    match parse_json(frame) {
        Some(msg) => {
            let reaction = react(&msg, token);
            Some((msg, reaction))
        },
        None => None,
    }
}

/// Whether a message event names the channel it was sent in.
pub fn names_channel(msg: &Json) -> (res: bool)
    ensures
        res == (text_of(field(data_spec(*msg), "channel_id"@)) is Some),
{
    match at2(msg, "d", "channel_id") {
        Some(id) => id.as_text().is_some(),
        None => false,
    }
}

/// How long, in bytes, a listing of channels may be to be posted as it is.
pub open spec fn listing_limit() -> nat {
    2000
}

/// How many bytes of a long listing the bot keeps for its preview.
pub open spec fn preview_limit() -> nat {
    1900
}

/// Whether a listing of channels is short enough to be posted as it is.
pub fn is_short_listing(listing: &str) -> (res: bool)
    ensures
        res == (byte_len(listing@) < listing_limit()),
{
    byte_length(listing) < 2000
}

/// The name of a channel, or a note that it has none.
pub open spec fn channel_name_spec(channel: Json) -> Seq<char> {
    text_or(field(channel, "name"@), "Error while getting the name"@)
}

/// The names of the channels, each followed by a comma.
pub open spec fn channel_list_spec(channels: Seq<Json>) -> Seq<char>
    decreases channels.len(),
{
    if channels.len() == 0 {
        Seq::<char>::empty()
    } else {
        channel_list_spec(channels.drop_last()) + channel_name_spec(channels.last()) + ","@
    }
}

/// The message that tells how many channels there are.
pub open spec fn count_text_spec(n: nat) -> Seq<char> {
    "Il y a : "@ + decimal_spec(n) + " channels"@
}

/// The preview of a long listing: its first bytes, quotes escaped, as a code block.
pub open spec fn preview_spec(listing: Seq<char>) -> Seq<char> {
    message_body_spec(
        "```"@ + escape_quotes_spec(byte_prefix(listing, preview_limit() as int)) + "```"@,
        reply_indent(),
    )
}

/// A listing is short exactly when its UTF-8 encoding has fewer than 2000 bytes.
pub proof fn lemma_listing_threshold(listing: Seq<char>)
    ensures
        (byte_len(listing) < listing_limit()) <==> (byte_len(listing) < 2000),
        preview_limit() == 1900,
{
}

/// The count post says the number of channels: the decimal number between
/// "Il y a : " and " channels" reads back as that number.
pub proof fn lemma_count_reads_back(n: nat)
    requires
        n <= u128::MAX,
    ensures
        count_text_spec(n).subrange(0, 9) == "Il y a : "@,
        parse_u128_spec(count_text_spec(n).subrange(9, count_text_spec(n).len() - 9)) == Some(
            n as u128,
        ),
        count_text_spec(n).skip(count_text_spec(n).len() - 9) == " channels"@,
{
    reveal_strlit("Il y a : ");
    reveal_strlit(" channels");
    let t = count_text_spec(n);
    let d = decimal_spec(n);
    assert(t.subrange(0, 9) =~= "Il y a : "@);
    assert(t.subrange(9, t.len() - 9) =~= d);
    assert(t.skip(t.len() - 9) =~= " channels"@);
    lemma_parse_decimal(n);
}

/// The preview of a long listing keeps exactly its first 1900 bytes: a
/// prefix of the listing whose encoding is 1900 bytes long, quotes escaped,
/// between backquotes, in a reply body.
pub proof fn lemma_preview_keeps_first_bytes(listing: Seq<char>)
    requires
        byte_len(listing) >= 2000,
        is_boundary(listing, 1900),
    ensures
        exists|kept: Seq<char>|
            #![trigger escape_quotes_spec(kept)]
            kept.is_prefix_of(listing) && byte_len(kept) == 1900 && preview_spec(listing)
                == message_body_spec("```"@ + escape_quotes_spec(kept) + "```"@, 24),
{
    lemma_byte_prefix(listing, 1900);
    let kept = byte_prefix(listing, 1900);
    assert(byte_len(kept) == 1900);
    assert(preview_spec(listing) == message_body_spec(
        "```"@ + escape_quotes_spec(kept) + "```"@,
        24,
    ));
}

/// The requests that answer a listing of channels, and the preview of the
/// listing that the bot shows where the listing is long.
pub struct ChannelsAnswer {
    pub posts: Vec<Request>,
    pub preview: Option<String>,
}

/// The names of the channels, each followed by a comma.
pub fn channel_list(channels: &Vec<Json>) -> (res: String)
    ensures
        res@ == channel_list_spec(channels@),
{
    let mut res = String::new();
    let mut i: usize = 0;
    while i < channels.len()
        invariant
            i <= channels.len(),
            res@ == channel_list_spec(channels@.take(i as int)),
        decreases channels.len() - i,
    {
        let name = text_or_default(member(&channels[i], "name"), "Error while getting the name");
        res.append(name.as_str());
        res.append(",");
        assert(channels@.take(i + 1).drop_last() =~= channels@.take(i as int));
        i += 1;
    }
    assert(channels@.take(channels.len() as int) =~= channels@);
    res
}

/// Whether `answer` answers a short listing: the listing itself, posted in
/// the channel.
pub open spec fn short_answer_spec(
    token: Seq<char>,
    channel_id: Seq<char>,
    listing: Seq<char>,
    answer: ChannelsAnswer,
) -> bool {
    &&& answer.posts@.len() == 1
    &&& answer.posts@[0]@ == post_message_spec(token, channel_id, listing, reply_indent())
    &&& answer.preview is None
}

/// Whether `answer` answers a long listing that reads as the JSON value
/// `channels`: where it is an array, the number of channels and then their
/// names, posted in the channel; and the preview of the listing where the
/// listing can be cut after its first 1900 bytes, none where it cannot.
pub open spec fn long_answer_spec(
    token: Seq<char>,
    channel_id: Seq<char>,
    listing: Seq<char>,
    channels: Json,
    answer: ChannelsAnswer,
) -> bool {
    &&& match channels {
        Json::Array(list) => {
            &&& answer.posts@.len() == 2
            &&& answer.posts@[0]@ == post_message_spec(
                token,
                channel_id,
                count_text_spec(list@.len()),
                listing_indent(),
            )
            &&& answer.posts@[1]@ == post_message_spec(
                token,
                channel_id,
                escape_quotes_spec(channel_list_spec(list@)),
                listing_indent(),
            )
        },
        _ => answer.posts@.len() == 0,
    }
    &&& is_boundary(listing, preview_limit() as int) ==> (answer.preview matches Some(p) && p@
        == preview_spec(listing))
    &&& !is_boundary(listing, preview_limit() as int) ==> answer.preview is None
}

/// The answer to a short listing: the listing itself, posted in the channel.
pub fn answer_short(token: &str, channel_id: &str, listing: &str) -> (res: ChannelsAnswer)
    ensures
        short_answer_spec(token@, channel_id@, listing@, res),
{
    let mut posts: Vec<Request> = Vec::new();
    posts.push(post_message(token, channel_id, listing, 24));
    ChannelsAnswer { posts, preview: None }
}

/// The answer to a long listing, given the listing read as JSON. Where the
/// listing cannot be cut after its first 1900 bytes the answer has no
/// preview: there the posts are made and then the cut fails.
pub fn answer_long(token: &str, channel_id: &str, listing: &str, channels: &Json) -> (res: ChannelsAnswer)
    requires
        byte_len(listing@) >= listing_limit(),
    ensures
        long_answer_spec(token@, channel_id@, listing@, *channels, res),
{
    let mut posts: Vec<Request> = Vec::new();
    match channels {
        Json::Array(list) => {
            let mut count = "Il y a : ".to_owned();
            let n = decimal(list.len());
            count.append(n.as_str());
            count.append(" channels");
            posts.push(post_message(token, channel_id, count.as_str(), 32));
            let names = escape_quotes(channel_list(list).as_str());
            posts.push(post_message(token, channel_id, names.as_str(), 32));
        },
        _ => {},
    }
    if !listing.is_char_boundary(1900) {
        return ChannelsAnswer { posts, preview: None };
    }
    let kept = truncate_bytes(listing, 1900);
    let mut block = "```".to_owned();
    block.append(escape_quotes(kept.as_str()).as_str());
    block.append("```");
    let preview = message_body(block.as_str(), 24);
    ChannelsAnswer { posts, preview: Some(preview) }
}

/// The answer to the listing of a guild's channels that the bot fetched:
/// a short listing is posted as it is; a long one is read as JSON and
/// answered by `answer_long`, or not at all (`None`) where it is no JSON.
pub fn answer_listing(token: &str, channel_id: &str, listing: &str) -> (res: Option<ChannelsAnswer>)
    ensures
        byte_len(listing@) < listing_limit() ==> (res matches Some(a) && short_answer_spec(
            token@,
            channel_id@,
            listing@,
            a,
        )),
        byte_len(listing@) >= listing_limit() ==> (res is None <==> json_of_text(listing@) is None),
        byte_len(listing@) >= listing_limit() ==> (res matches Some(a) ==> long_answer_spec(
            token@,
            channel_id@,
            listing@,
            json_of_text(listing@)->Some_0,
            a,
        )),
{
    if is_short_listing(listing) {
        Some(answer_short(token, channel_id, listing))
    } else {
        match parse_json(listing) {
            Some(channels) => Some(answer_long(token, channel_id, listing, &channels)),
            None => None,
        }
    }
}

} // verus!
