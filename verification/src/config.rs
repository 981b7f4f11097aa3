//! The agent's configuration and its default values.

use vstd::prelude::*;

verus! {

/// Root of the configuration.
#[derive(Clone, Debug)]
pub struct AppConfig {
    pub redis: RedisConfig,
    pub api: ApiConfig,
    pub monitor: MonitorConfig,
    pub screenshots: ScreenshotConfig,
    pub streaming: StreamingConfig,
}

/// Where the store is and how it is used.
#[derive(Clone, Debug)]
pub struct RedisConfig {
    pub url: String,
    pub key_prefix: String,
    /// Seconds between two heartbeats.
    pub heartbeat_interval: u64,
}

/// The query surface.
#[derive(Clone, Debug)]
pub struct ApiConfig {
    pub port: u16,
}

/// What the detector looks for, and how often.
#[derive(Clone, Debug)]
pub struct MonitorConfig {
    /// Seconds between two scan cycles.
    pub scan_interval: u64,
    pub banned_processes: BanList,
    pub banned_domains: BanList,
}

/// The periodic snapshot of the screen.
#[derive(Clone, Debug)]
pub struct ScreenshotConfig {
    pub enabled: bool,
    /// Seconds between two snapshots.
    pub interval: u64,
    /// JPEG quality, 1 to 100.
    pub quality: u8,
    /// Largest width or height of a snapshot.
    pub max_dimension: u32,
}

/// The live stream of the screen.
#[derive(Clone, Debug)]
pub struct StreamingConfig {
    pub enabled: bool,
    /// The endpoint that the stream connects to.
    pub server_url: String,
    /// JPEG quality of streamed frames, 1 to 100.
    pub quality: u8,
    /// Largest width or height of a streamed frame.
    pub max_dimension: u32,
    /// Milliseconds between two frames.
    pub interval_ms: u64,
    /// Seconds to wait before connecting again after a connection has ended.
    pub reconnect_secs: u64,
}

/// A list of banned names, as the administrator wrote them.
#[derive(Clone, Debug)]
pub struct BanList {
    pub names: Vec<String>,
}

/// Snapshots are taken unless switched off.
pub fn default_enabled() -> (enabled: bool)
    ensures
        enabled,
{
    true
}

/// A snapshot every 60 seconds.
pub fn default_interval() -> (seconds: u64)
    ensures
        seconds == 60,
{
    60
}

/// Snapshots at quality 75.
pub fn default_quality() -> (quality: u8)
    ensures
        quality == 75,
{
    75
}

/// Snapshots of at most 1920 pixels a side.
pub fn default_max_dimension() -> (pixels: u32)
    ensures
        pixels == 1920,
{
    1920
}

impl Default for ScreenshotConfig {
    fn default() -> (config: Self)
        ensures
            config.enabled,
            config.interval == 60,
            config.quality == 75,
            config.max_dimension == 1920,
    {
        ScreenshotConfig {
            enabled: default_enabled(),
            interval: default_interval(),
            quality: default_quality(),
            max_dimension: default_max_dimension(),
        }
    }
}

/// The stream runs unless switched off.
pub fn streaming_default_enabled() -> (enabled: bool)
    ensures
        enabled,
{
    true
}

/// The endpoint that the stream connects to where none is configured.
pub fn streaming_default_url() -> (url: String)
    ensures
        url@ == "ws://192.168.8.151:8080/ws/screen"@,
{
    "ws://192.168.8.151:8080/ws/screen".to_owned()
}

/// Streamed frames at quality 60.
pub fn streaming_default_quality() -> (quality: u8)
    ensures
        quality == 60,
{
    60
}

/// Streamed frames of at most 1280 pixels a side.
pub fn streaming_default_max_dim() -> (pixels: u32)
    ensures
        pixels == 1280,
{
    1280
}

/// A frame every 700 milliseconds.
pub fn streaming_default_interval_ms() -> (millis: u64)
    ensures
        millis == 700,
{
    700
}

/// Four seconds before connecting again.
pub fn streaming_default_reconnect_secs() -> (seconds: u64)
    ensures
        seconds == 4,
{
    4
}

impl Default for StreamingConfig {
    fn default() -> (config: Self)
        ensures
            config.enabled,
            config.server_url@ == "ws://192.168.8.151:8080/ws/screen"@,
            config.quality == 60,
            config.max_dimension == 1280,
            config.interval_ms == 700,
            config.reconnect_secs == 4,
    {
        StreamingConfig {
            enabled: streaming_default_enabled(),
            server_url: streaming_default_url(),
            quality: streaming_default_quality(),
            max_dimension: streaming_default_max_dim(),
            interval_ms: streaming_default_interval_ms(),
            reconnect_secs: streaming_default_reconnect_secs(),
        }
    }
}

} // verus!
