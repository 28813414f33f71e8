//! The configuration of the bot, of the tables it renders and of the sources.
use crate::source;
use vstd::prelude::*;

verus! {

/// The name of the environment variable that holds the configuration's path.
pub const ENV_CONFIG: &'static str = "BOT_CONFIG";

#[derive(Debug)]
pub struct Config {
    pub bot: Bot,
    pub gen: Gen,
    pub src: source::Config,
}

#[derive(Debug)]
pub struct Bot {
    pub reqwest_timeout: u64,
    pub update_interval: u64,
    pub polling: bool,
    pub webhook: Webhook,
    pub welcome_msg: String,
    pub name: String,
    pub about: String,
    pub description: String,
}

#[derive(Debug)]
pub struct Webhook {
    pub url: String,
    pub port: u16,
    pub cert: String,
}

/// How many fractional digits the tables show.
#[derive(Clone, Copy, Debug)]
pub struct Gen {
    /// Digits of a rate.
    pub rate_dp: u32,
    /// Digits of a difference in percent.
    pub diff_dp: u32,
}

} // verus!
