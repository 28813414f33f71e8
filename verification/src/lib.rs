//! Exchange rates of Armenian banks and money transfer services: the rates
//! each source publishes, the conversion graph built from them and the tables
//! a chat bot answers with.
use vstd::prelude::*;

pub mod bot;
pub mod collector;
pub mod config;
pub mod database;
pub mod decimal;
pub mod generate;
pub mod graph;
pub mod html;
pub mod source;
pub mod sources;
pub mod text;

verus! {

/// The answer when there is nothing to show.
pub const DUNNO: &'static str = "¯\\_(ツ)_/¯";

/// The name of the environment variable that holds the path of the
/// configuration in the simpler layout of [`Config`].
pub const ENV_CONFIG: &'static str = "CONFIG";

/// The configuration in its simpler layout: the bot and the sources.
#[derive(Debug)]
pub struct Config {
    pub bot: Bot,
    pub src: source::Config,
}

/// The bot in the simpler layout: timeouts, how updates arrive, the webhook.
#[derive(Debug)]
pub struct Bot {
    pub reqwest_timeout: u64,
    pub update_interval: u64,
    pub polling: bool,
    pub webhook: Webhook,
}

/// Where a webhook listens: a host, a port and a certificate.
#[derive(Debug)]
pub struct Webhook {
    pub host: String,
    pub port: u16,
    pub cert: String,
}

} // verus!
