//! The push-notification provider.

use vstd::prelude::*;
use vstd::string::*;
use crate::config::{
    clone_options,
    block_of, bool_option, contains_option, get_bool, get_int, get_text, has_option, int_option,
    says, text_option, Config, ConfigError, Lack, OptionValue,
};
use crate::notifications::{
    is_pushover_provider, title, title_of, Event, Handler, NotificationData, Provider,
};

verus! {

#[derive(Debug, Clone, Copy)]
pub struct Pushover {}

#[derive(Clone, Debug)]
pub struct PushoverConfig {
    pub api_key: String,
    pub device_key: String,
    pub priority: i32,
    pub enable: bool,
}

#[derive(Debug)]
pub struct PushoverPayload {
    pub token: String,
    pub user: String,
    pub title: String,
    pub message: String,
    pub priority: i32,
}

pub struct PushoverConfigView {
    pub api_key: Seq<char>,
    pub device_key: Seq<char>,
    pub priority: i32,
    pub enable: bool,
}

impl View for PushoverConfig {
    type V = PushoverConfigView;

    open spec fn view(&self) -> PushoverConfigView {
        PushoverConfigView {
            api_key: self.api_key@,
            device_key: self.device_key@,
            priority: self.priority,
            enable: self.enable,
        }
    }
}

pub fn default_priority() -> (r: i32)
    ensures
        r == 1,
{
    1
}

/// The priority that a block gives: 1 where it names none, else the integer
/// it names, which has to fit in 32 bits.
pub open spec fn priority_of(b: Seq<(String, OptionValue)>) -> Option<i32> {
    if !has_option(b, "priority"@) {
        Some(1i32)
    } else {
        match int_option(b, "priority"@) {
            Some(n) => if i32::MIN <= n <= i32::MAX {
                Some(n as i32)
            } else {
                None
            },
            None => None,
        }
    }
}

/// The provider's settings as the configuration gives them: the two keys and
/// the enable flag are mandatory, the priority is not.
pub open spec fn pushover_config_of(conf: Config) -> Result<PushoverConfigView, Lack> {
    match block_of(conf, "pushover"@) {
        None => Err(Lack::Provider("pushover"@)),
        Some(b) => match text_option(b, "api_key"@) {
            None => Err(Lack::Setting("api_key"@)),
            Some(api_key) => match text_option(b, "device_key"@) {
                None => Err(Lack::Setting("device_key"@)),
                Some(device_key) => match priority_of(b) {
                    None => Err(Lack::Setting("priority"@)),
                    Some(priority) => match bool_option(b, "enable"@) {
                        None => Err(Lack::Setting("enable"@)),
                        Some(enable) => Ok(
                            PushoverConfigView { api_key, device_key, priority, enable },
                        ),
                    },
                },
            },
        },
    }
}

/// Whether `p` is the payload that tells of `event` with the text `msg`
/// under the settings `c`.
pub open spec fn is_pushover_payload(
    p: PushoverPayload,
    c: PushoverConfigView,
    event: Event,
    msg: Seq<char>,
) -> bool {
    &&& p.token@ == c.api_key
    &&& p.user@ == c.device_key
    &&& p.title@ == title_of(event)
    &&& p.message@ == msg
    &&& p.priority == c.priority
}

/// The provider, with the options of its block.
pub fn new(conf: &Config) -> (r: Result<Provider, ConfigError>)
    ensures
        match block_of(*conf, "pushover"@) {
            Some(b) => r matches Ok(p) && is_pushover_provider(p, b),
            None => r matches Err(e) && says(e, Lack::Provider("pushover"@)),
        },
{
    match conf.get_notification_provider_config("pushover") {
        Ok(options) => Ok(
            Provider {
                name: String::from_str("Pushover"),
                description: String::from_str(""),
                config: clone_options(options),
                handler: Some(Handler::Pushover(Pushover {})),
            },
        ),
        Err(e) => Err(e),
    }
}

fn read_priority(options: &Vec<(String, OptionValue)>) -> (r: Option<i32>)
    ensures
        r == priority_of(options@),
{
    if !contains_option(options, "priority") {
        return Some(default_priority());
    }
    match get_int(options, "priority") {
        Some(n) => if -0x8000_0000i64 <= n && n <= 0x7fff_ffffi64 {
            Some(n as i32)
        } else {
            None
        },
        None => None,
    }
}

impl Pushover {
    pub fn load_config(conf: &Config) -> (r: Result<PushoverConfig, ConfigError>)
        ensures
            match pushover_config_of(*conf) {
                Ok(c) => r matches Ok(v) && v@ == c,
                Err(l) => r matches Err(e) && says(e, l),
            },
    {
        let options = match conf.get_notification_provider_config("pushover") {
            Ok(options) => options,
            Err(e) => {
                return Err(e);
            },
        };
        let api_key = match get_text(options, "api_key") {
            Some(u) => u,
            None => {
                return Err(ConfigError::MissingOption(String::from_str("api_key")));
            },
        };
        let device_key = match get_text(options, "device_key") {
            Some(u) => u,
            None => {
                return Err(ConfigError::MissingOption(String::from_str("device_key")));
            },
        };
        let priority = match read_priority(options) {
            Some(p) => p,
            None => {
                return Err(ConfigError::MissingOption(String::from_str("priority")));
            },
        };
        let enable = match get_bool(options, "enable") {
            Some(b) => b,
            None => {
                return Err(ConfigError::MissingOption(String::from_str("enable")));
            },
        };
        Ok(PushoverConfig { api_key, device_key, priority, enable })
    }

    /// The payload that tells of a transition.
    pub fn render(conf: &PushoverConfig, data: &NotificationData) -> (p: PushoverPayload)
        ensures
            is_pushover_payload(p, conf@, data.event, data.msg@),
    {
        PushoverPayload {
            token: conf.api_key.clone(),
            user: conf.device_key.clone(),
            title: title(data.event),
            message: data.msg.clone(),
            priority: conf.priority,
        }
    }

    pub fn get_provider(&self, conf: &Config) -> (r: Result<Provider, ConfigError>)
        ensures
            match block_of(*conf, "pushover"@) {
                Some(b) => r matches Ok(p) && is_pushover_provider(p, b),
                None => r matches Err(e) && says(e, Lack::Provider("pushover"@)),
            },
    {
        new(conf)
    }
}

} // verus!
