//! Configuration, as the rest of the crate reads it.
use vstd::prelude::*;

use crate::number::{Double, Single};

verus! {

/// Everything that is configured.
#[derive(Debug, Clone)]
pub struct Config {
    pub ts3: Ts3Config,
    pub rabbitmq: RabbitMqConfig,
    pub relay: RelayConfig,
    pub audio: AudioConfig,
    pub seq: SeqConfig,
    pub db: DbConfig,
}

/// The TeamSpeak server, and how the bot appears on it.
#[derive(Debug, Clone)]
pub struct Ts3Config {
    pub address: String,
    pub name: String,
    pub channel: String,
    pub channel_password: Option<String>,
    pub server_password: Option<String>,
    pub identity_key: Option<String>,
}

/// The message broker.
#[derive(Debug, Clone)]
pub struct RabbitMqConfig {
    pub enabled: bool,
    pub hostname: String,
    pub port: u16,
    pub username: String,
    pub password: String,
    pub queue: String,
    pub exchange: String,
    /// The queue of TeamSpeak events; without it they are not read.
    pub ts3_events_queue: Option<String>,
    /// The exchange that the queue of TeamSpeak events is bound to, if any.
    pub ts3_events_exchange: Option<String>,
}

/// Who hears whom.
#[derive(Debug, Clone)]
pub struct RelayConfig {
    pub max_distance: Double,
    pub coalition_check: bool,
    pub radio_effects_enabled: bool,
    /// If set, bypass position/coalition routing and whisper the mix to this client id.
    pub force_whisper_client_id: Option<u16>,
}

/// How it sounds.
#[derive(Debug, Clone)]
pub struct AudioConfig {
    pub output_gain: Single,
    pub frame_ms: u32,
    pub sample_rate: u32,
    pub synthetic_speakers: usize,
}

/// The structured log server.
#[derive(Debug, Clone)]
pub struct SeqConfig {
    pub enabled: bool,
    pub url: String,
    pub api_key: Option<String>,
    pub application_name: String,
}

/// The database of TeamSpeak users.
#[derive(Debug, Clone)]
pub struct DbConfig {
    pub enabled: bool,
    pub url: String,
}

/// The output gain where none is configured: the bit pattern of five.
pub fn default_output_gain() -> (gain: Single)
    ensures
        gain == 0x40a0_0000,
{
    0x40a0_0000
}

/// The frame length where none is configured.
pub fn default_frame_ms() -> (ms: u32)
    ensures
        ms == 20,
{
    20
}

/// The sample rate where none is configured.
pub fn default_sample_rate() -> (rate: u32)
    ensures
        rate == 48000,
{
    48000
}

} // verus!
