//! The chat-webhook provider.

use vstd::prelude::*;
use vstd::string::*;
use crate::config::{
    clone_options,
    block_of, bool_option, get_bool, get_text, says, text_option, Config, ConfigError, Lack,
};
use crate::notifications::{
    is_discord_provider, title, title_of, Event, Handler, NotificationData, Provider,
};

verus! {

#[derive(Debug, Clone, Copy)]
pub struct Discord {}

#[derive(Clone, Debug)]
pub struct DiscordConfig {
    pub webhook_url: String,
    pub enable: bool,
}

#[derive(Debug)]
pub struct DiscordPayload {
    pub content: String,
    pub avatar_url: String,
    pub embeds: Vec<Embed>,
}

#[derive(Debug)]
pub struct Embed {
    pub title: String,
    pub description: String,
    pub url: String,
    pub color: i64,
    pub author: Author,
}

#[derive(Debug)]
pub struct Author {
    pub name: String,
}

/// The provider's settings as the configuration gives them: the webhook
/// address and the enable flag, both mandatory.
pub open spec fn discord_config_of(conf: Config) -> Result<(Seq<char>, bool), Lack> {
    match block_of(conf, "discord"@) {
        None => Err(Lack::Provider("discord"@)),
        Some(b) => match text_option(b, "webhook_url"@) {
            None => Err(Lack::Setting("webhook_url"@)),
            Some(url) => match bool_option(b, "enable"@) {
                None => Err(Lack::Setting("enable"@)),
                Some(enable) => Ok((url, enable)),
            },
        },
    }
}

/// The colour of an event's embed.
pub open spec fn color_of(event: Event) -> i64 {
    match event {
        Event::Connect => 6680723,
        Event::Disconnect => 14708848,
    }
}

/// Whether `p` is the payload that tells of `event` with the text `msg`: one
/// embed with the event's title and colour and the text as its description.
pub open spec fn is_discord_payload(p: DiscordPayload, event: Event, msg: Seq<char>) -> bool {
    &&& p.content@ == ""@
    &&& p.avatar_url@ == ""@
    &&& p.embeds@.len() == 1
    &&& p.embeds@[0].title@ == title_of(event)
    &&& p.embeds@[0].description@ == msg
    &&& p.embeds@[0].url@ == ""@
    &&& p.embeds@[0].color == color_of(event)
    &&& p.embeds@[0].author.name@ == "wg-mgmt"@
}

/// The provider, with the options of its block.
pub fn new(conf: &Config) -> (r: Result<Provider, ConfigError>)
    ensures
        match block_of(*conf, "discord"@) {
            Some(b) => r matches Ok(p) && is_discord_provider(p, b),
            None => r matches Err(e) && says(e, Lack::Provider("discord"@)),
        },
{
    match conf.get_notification_provider_config("discord") {
        Ok(options) => Ok(
            Provider {
                name: String::from_str("Discord"),
                description: String::from_str(""),
                config: clone_options(options),
                handler: Some(Handler::Discord(Discord {})),
            },
        ),
        Err(e) => Err(e),
    }
}

impl Discord {
    pub fn load_config(conf: &Config) -> (r: Result<DiscordConfig, ConfigError>)
        ensures
            match discord_config_of(*conf) {
                Ok(c) => r matches Ok(v) && v.webhook_url@ == c.0 && v.enable == c.1,
                Err(l) => r matches Err(e) && says(e, l),
            },
    {
        let options = match conf.get_notification_provider_config("discord") {
            Ok(options) => options,
            Err(e) => {
                return Err(e);
            },
        };
        let webhook_url = match get_text(options, "webhook_url") {
            Some(u) => u,
            None => {
                return Err(ConfigError::MissingOption(String::from_str("webhook_url")));
            },
        };
        let enable = match get_bool(options, "enable") {
            Some(b) => b,
            None => {
                return Err(ConfigError::MissingOption(String::from_str("enable")));
            },
        };
        Ok(DiscordConfig { webhook_url, enable })
    }

    /// The payload that tells of a transition.
    pub fn render(data: &NotificationData) -> (p: DiscordPayload)
        ensures
            is_discord_payload(p, data.event, data.msg@),
    {
        let color: i64 = match data.event {
            Event::Connect => 6680723,
            Event::Disconnect => 14708848,
        };
        let embed = Embed {
            title: title(data.event),
            description: data.msg.clone(),
            url: String::from_str(""),
            color,
            author: Author { name: String::from_str("wg-mgmt") },
        };
        let mut embeds: Vec<Embed> = Vec::new();
        embeds.push(embed);
        DiscordPayload { content: String::from_str(""), avatar_url: String::from_str(""), embeds }
    }

    pub fn get_provider(&self, conf: &Config) -> (r: Result<Provider, ConfigError>)
        ensures
            match block_of(*conf, "discord"@) {
                Some(b) => r matches Ok(p) && is_discord_provider(p, b),
                None => r matches Err(e) && says(e, Lack::Provider("discord"@)),
            },
    {
        new(conf)
    }
}

} // verus!
