//! A text channel of a guild, as the Discord API describes it.

use vstd::prelude::*;
use crate::json::Json;

verus! {

/// A text channel of a guild.
#[derive(Debug)]
pub struct TextChannel {
    id: String,
    channel_type: u16,
    guild_id: String,
    position: u32,
    permission_overwrites: Vec<Json>,
    name: String,
    topic: String,
    nsfw: bool,
    last_message_id: String,
    rate_limit_per_user: u16,
    parent_id: String,
    last_pin_timestamp: String,
}

/// What a text channel holds, apart from its permission overwrites.
pub struct TextChannelView {
    pub id: Seq<char>,
    pub channel_type: u16,
    pub guild_id: Seq<char>,
    pub position: u32,
    pub name: Seq<char>,
    pub topic: Seq<char>,
    pub nsfw: bool,
    pub last_message_id: Seq<char>,
    pub rate_limit_per_user: u16,
    pub parent_id: Seq<char>,
    pub last_pin_timestamp: Seq<char>,
}

impl View for TextChannel {
    type V = TextChannelView;

    closed spec fn view(&self) -> TextChannelView {
        TextChannelView {
            id: self.id@,
            channel_type: self.channel_type,
            guild_id: self.guild_id@,
            position: self.position,
            name: self.name@,
            topic: self.topic@,
            nsfw: self.nsfw,
            last_message_id: self.last_message_id@,
            rate_limit_per_user: self.rate_limit_per_user,
            parent_id: self.parent_id@,
            last_pin_timestamp: self.last_pin_timestamp@,
        }
    }
}

impl TextChannel {
    /// The permission overwrites of the channel.
    pub closed spec fn overwrites_view(&self) -> Seq<Json> {
        self.permission_overwrites@
    }

    /// The channel made of these parts.
    pub fn new(
        id: String,
        channel_type: u16,
        guild_id: String,
        position: u32,
        permission_overwrites: Vec<Json>,
        name: String,
        topic: String,
        nsfw: bool,
        last_message_id: String,
        rate_limit_per_user: u16,
        parent_id: String,
        last_pin_timestamp: String,
    ) -> (res: Self)
        ensures
            res@ == (TextChannelView {
                id: id@,
                channel_type,
                guild_id: guild_id@,
                position,
                name: name@,
                topic: topic@,
                nsfw,
                last_message_id: last_message_id@,
                rate_limit_per_user,
                parent_id: parent_id@,
                last_pin_timestamp: last_pin_timestamp@,
            }),
            res.overwrites_view() == permission_overwrites@,
    {
        TextChannel {
            id,
            channel_type,
            guild_id,
            position,
            permission_overwrites,
            name,
            topic,
            nsfw,
            last_message_id,
            rate_limit_per_user,
            parent_id,
            last_pin_timestamp,
        }
    }

    /// The id of the channel.
    pub fn get_id(&self) -> (res: &str)
        ensures
            res@ == self@.id,
    {
        self.id.as_str()
    }

    /// The name of the channel.
    pub fn get_name(&self) -> (res: &str)
        ensures
            res@ == self@.name,
    {
        self.name.as_str()
    }

    /// The topic of the channel.
    pub fn get_topic(&self) -> (res: &str)
        ensures
            res@ == self@.topic,
    {
        self.topic.as_str()
    }
}

} // verus!
