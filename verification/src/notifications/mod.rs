//! Transition events and the providers that deliver them.

use vstd::prelude::*;
use vstd::string::*;
use crate::config::{
    block_of, bool_option, get_bool, says, Config, ConfigError, Lack, OptionValue,
};
use crate::notifications::discord::{
    discord_config_of, is_discord_payload, Discord, DiscordPayload,
};
use crate::notifications::pushover::{
    is_pushover_payload, pushover_config_of, Pushover, PushoverPayload,
};

pub mod discord;
pub mod pushover;

verus! {

#[derive(Clone, Copy, Debug, PartialEq, Eq, Structural)]
pub enum Event {
    Connect,
    Disconnect,
}

/// One transition of a peer, with the message that tells of it.
#[derive(Clone, Debug)]
pub struct NotificationData {
    pub msg: String,
    pub event: Event,
}

#[derive(Debug)]
pub enum ProviderError {
    Message(String),
    ConfigErr(ConfigError),
    /// The delivery failed; the text says how.
    Delivery(String),
}

impl From<ConfigError> for ProviderError {
    fn from(e: ConfigError) -> (r: Self) {
        ProviderError::ConfigErr(e)
    }
}

impl vstd::std_specs::convert::FromSpecImpl<ConfigError> for ProviderError {
    open spec fn obeys_from_spec() -> bool {
        true
    }

    open spec fn from_spec(e: ConfigError) -> Self {
        ProviderError::ConfigErr(e)
    }
}

/// The kinds of provider.
#[derive(Debug, Clone, Copy)]
pub enum Handler {
    Discord(Discord),
    Pushover(Pushover),
}

#[derive(Debug)]
pub struct Provider {
    pub name: String,
    pub description: String,
    /// The options of the provider's block.
    pub config: Vec<(String, OptionValue)>,
    pub handler: Option<Handler>,
}

/// What a provider sends.
#[derive(Debug)]
pub enum Payload {
    Discord(DiscordPayload),
    Pushover(PushoverPayload),
}

/// One delivery to make: a document and the address to post it to.
#[derive(Debug)]
pub struct Delivery {
    pub url: String,
    pub body: Payload,
}

/// Whether `p` is the chat-webhook provider with the options `b`.
pub open spec fn is_discord_provider(p: Provider, b: Seq<(String, OptionValue)>) -> bool {
    &&& p.name@ == "Discord"@
    &&& p.description@ == ""@
    &&& p.config@ == b
    &&& p.handler matches Some(Handler::Discord(_))
}

/// Whether `p` is the push provider with the options `b`.
pub open spec fn is_pushover_provider(p: Provider, b: Seq<(String, OptionValue)>) -> bool {
    &&& p.name@ == "Pushover"@
    &&& p.description@ == ""@
    &&& p.config@ == b
    &&& p.handler matches Some(Handler::Pushover(_))
}

/// The title under which an event is told.
pub open spec fn title_of(event: Event) -> Seq<char> {
    match event {
        Event::Connect => "New client connection"@,
        Event::Disconnect => "Client disconnected"@,
    }
}

pub fn title(event: Event) -> (r: String)
    ensures
        r@ == title_of(event),
{
    match event {
        Event::Connect => String::from_str("New client connection"),
        Event::Disconnect => String::from_str("Client disconnected"),
    }
}

/// The address that the push provider posts to.
pub open spec fn pushover_endpoint() -> Seq<char> {
    "https://api.pushover.net/1/messages.json"@
}

/// Whether a block switches its provider on: it holds `enable` as a truth
/// value, and the value is true.
pub open spec fn is_enabled(options: Seq<(String, OptionValue)>) -> bool {
    bool_option(options, "enable"@) == Some(true)
}

/// Whether a provider is configured and switched on.
pub open spec fn active(conf: Config, name: Seq<char>) -> bool {
    block_of(conf, name) matches Some(b) && is_enabled(b)
}

/// Whether `r` is what the chat-webhook provider makes of a transition: the
/// delivery of its payload to the configured address, or the error that says
/// what the configuration lacks.
pub open spec fn is_discord_delivery(
    r: Result<Delivery, ProviderError>,
    conf: Config,
    event: Event,
    msg: Seq<char>,
) -> bool {
    match discord_config_of(conf) {
        Ok(c) => r matches Ok(d) && d.url@ == c.0 && (d.body matches Payload::Discord(p)
            && is_discord_payload(p, event, msg)),
        Err(l) => r matches Err(ProviderError::ConfigErr(e)) && says(e, l),
    }
}

/// Whether `r` is what the push provider makes of a transition.
pub open spec fn is_pushover_delivery(
    r: Result<Delivery, ProviderError>,
    conf: Config,
    event: Event,
    msg: Seq<char>,
) -> bool {
    match pushover_config_of(conf) {
        Ok(c) => r matches Ok(d) && d.url@ == pushover_endpoint() && (
        d.body matches Payload::Pushover(p) && is_pushover_payload(p, c, event, msg)),
        Err(l) => r matches Err(ProviderError::ConfigErr(e)) && says(e, l),
    }
}

/// Whether `r` is what a provider of this kind makes of a transition.
pub open spec fn is_delivery_of(
    handler: Handler,
    r: Result<Delivery, ProviderError>,
    conf: Config,
    event: Event,
    msg: Seq<char>,
) -> bool {
    match handler {
        Handler::Discord(_) => is_discord_delivery(r, conf, event, msg),
        Handler::Pushover(_) => is_pushover_delivery(r, conf, event, msg),
    }
}

impl Handler {
    /// Renders a transition for this kind of provider. Nothing is sent here:
    /// the result is the delivery to make.
    pub fn prepare(&self, conf: &Config, data: &NotificationData) -> (r: Result<
        Delivery,
        ProviderError,
    >)
        ensures
            is_delivery_of(*self, r, *conf, data.event, data.msg@),
    {
        match self {
            Handler::Discord(_) => match Discord::load_config(conf) {
                Ok(c) => Ok(
                    Delivery { url: c.webhook_url, body: Payload::Discord(Discord::render(data)) },
                ),
                Err(e) => Err(ProviderError::from(e)),
            },
            Handler::Pushover(_) => match Pushover::load_config(conf) {
                Ok(c) => Ok(
                    Delivery {
                        url: String::from_str("https://api.pushover.net/1/messages.json"),
                        body: Payload::Pushover(Pushover::render(&c, data)),
                    },
                ),
                Err(e) => Err(ProviderError::from(e)),
            },
        }
    }
}

impl Provider {
    /// Renders a transition for this provider; one without a handler has
    /// nothing to deliver.
    pub fn prepare(&self, conf: &Config, data: &NotificationData) -> (r: Option<
        Result<Delivery, ProviderError>,
    >)
        ensures
            match self.handler {
                Some(h) => r matches Some(d) && is_delivery_of(h, d, *conf, data.event, data.msg@),
                None => r is None,
            },
    {
        match &self.handler {
            Some(h) => Some(h.prepare(conf, data)),
            None => None,
        }
    }

    pub fn enabled(&self) -> (r: bool)
        ensures
            r == is_enabled(self.config@),
    {
        match get_bool(&self.config, "enable") {
            Some(enable) => enable,
            None => false,
        }
    }
}

/// The providers, in their fixed order. Each needs its block in the
/// configuration.
pub fn init_providers(conf: &Config) -> (r: Result<Vec<Provider>, ConfigError>)
    ensures
        match (block_of(*conf, "discord"@), block_of(*conf, "pushover"@)) {
            (Some(d), Some(p)) => r matches Ok(v) && v@.len() == 2 && is_discord_provider(
                v@[0],
                d,
            ) && is_pushover_provider(v@[1], p),
            (None, _) => r matches Err(e) && says(e, Lack::Provider("discord"@)),
            (Some(_), None) => r matches Err(e) && says(e, Lack::Provider("pushover"@)),
        },
{
    let mut providers: Vec<Provider> = Vec::new();
    match discord::new(conf) {
        Ok(p) => {
            providers.push(p);
        },
        Err(e) => {
            return Err(e);
        },
    }
    match pushover::new(conf) {
        Ok(p) => {
            providers.push(p);
        },
        Err(e) => {
            return Err(e);
        },
    }
    Ok(providers)
}

/// The providers by the lower-case name under which the configuration holds
/// their blocks.
pub fn init_providers_map(conf: &Config) -> (r: Result<Vec<(String, Provider)>, ConfigError>)
    ensures
        match (block_of(*conf, "discord"@), block_of(*conf, "pushover"@)) {
            (Some(d), Some(p)) => r matches Ok(v) && v@.len() == 2 && v@[0].0@ == "discord"@
                && is_discord_provider(v@[0].1, d) && v@[1].0@ == "pushover"@
                && is_pushover_provider(v@[1].1, p),
            (None, _) => r matches Err(e) && says(e, Lack::Provider("discord"@)),
            (Some(_), None) => r matches Err(e) && says(e, Lack::Provider("pushover"@)),
        },
{
    let mut payload: Vec<(String, Provider)> = Vec::new();
    match discord::new(conf) {
        Ok(p) => {
            payload.push((String::from_str("discord"), p));
        },
        Err(e) => {
            return Err(e);
        },
    }
    match pushover::new(conf) {
        Ok(p) => {
            payload.push((String::from_str("pushover"), p));
        },
        Err(e) => {
            return Err(e);
        },
    }
    Ok(payload)
}

/// Whether a provider of this lower-case name exists.
pub fn does_provider_exist(val: &str) -> (r: bool)
    ensures
        r == (val@ == "discord"@ || val@ == "pushover"@),
{
    let name = String::from_str(val);
    name == String::from_str("discord") || name == String::from_str("pushover")
}

/// The deliveries that tell of one transition: one for each provider that
/// the configuration holds a block for and switches on, the chat-webhook
/// provider first. A provider whose settings are incomplete gives an error in
/// its place and leaves the other untouched.
pub fn dispatch(conf: &Config, data: &NotificationData) -> (r: Vec<Result<Delivery, ProviderError>>)
    ensures
        r@.len() == (if active(*conf, "discord"@) {
            1int
        } else {
            0int
        }) + (if active(*conf, "pushover"@) {
            1int
        } else {
            0int
        }),
        active(*conf, "discord"@) ==> is_discord_delivery(r@[0], *conf, data.event, data.msg@),
        active(*conf, "pushover"@) ==> is_pushover_delivery(
            r@.last(),
            *conf,
            data.event,
            data.msg@,
        ),
{
    let mut out: Vec<Result<Delivery, ProviderError>> = Vec::new();
    match discord::new(conf) {
        Ok(p) => {
            if p.enabled() {
                out.push(Handler::Discord(Discord {}).prepare(conf, data));
            }
        },
        Err(_) => {},
    }
    match pushover::new(conf) {
        Ok(p) => {
            if p.enabled() {
                out.push(Handler::Pushover(Pushover {}).prepare(conf, data));
            }
        },
        Err(_) => {},
    }
    out
}

} // verus!
