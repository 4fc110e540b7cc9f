//! The settings of the two logical channels. Both peers have to use the same.

use vstd::prelude::*;

verus! {

/// The greatest length that the reliability engine can frame a message with.
pub const ENGINE_MESSAGE_LIMIT: usize = 65535;

/// The greatest serialized length of a reliable message.
pub const MAX_RELIABLE_MESSAGE_LEN: usize = 65534;

/// How the reliable channel resends, in whole numbers: sizes in bytes, times
/// in milliseconds, factors in thousandths.
#[derive(Debug, Clone, Copy, PartialEq, Eq, Structural)]
pub struct ReliabilitySettings {
    pub bandwidth: u32,
    pub recv_window_size: u32,
    pub send_window_size: u32,
    pub burst_bandwidth: u32,
    pub init_send: u32,
    pub wakeup_time_millis: u64,
    pub initial_rtt_millis: u64,
    pub max_rtt_millis: u64,
    pub rtt_update_factor_thousandths: u32,
    pub rtt_resend_factor_thousandths: u32,
}

/// Whether a logical channel resends what was lost.
#[derive(Debug, Clone, Copy, PartialEq, Eq, Structural)]
pub enum ChannelMode {
    Unreliable,
    Reliable { reliability_settings: ReliabilitySettings, max_message_len: usize },
}

/// The settings of one logical channel.
#[derive(Debug, Clone, Copy, PartialEq, Eq, Structural)]
pub struct ChannelSettings {
    pub channel: u8,
    pub channel_mode: ChannelMode,
    pub message_buffer_size: usize,
    pub packet_buffer_size: usize,
}

impl ReliabilitySettings {
    /// What the reliability engine asks of its settings: no rate, window or
    /// factor may be zero.
    pub open spec fn acceptable(self) -> bool {
        &&& self.bandwidth != 0
        &&& self.recv_window_size != 0
        &&& self.send_window_size != 0
        &&& self.burst_bandwidth != 0
        &&& self.init_send != 0
        &&& self.rtt_update_factor_thousandths > 0
        &&& self.rtt_resend_factor_thousandths > 0
    }

    /// Whether the engine takes these settings.
    pub fn is_acceptable(&self) -> (ok: bool)
        ensures
            ok == self.acceptable(),
    {
        self.bandwidth != 0 && self.recv_window_size != 0 && self.send_window_size != 0
            && self.burst_bandwidth != 0 && self.init_send != 0
            && self.rtt_update_factor_thousandths > 0 && self.rtt_resend_factor_thousandths > 0
    }
}

impl ChannelSettings {
    /// What the engine asks of a channel's settings: a reliable channel has
    /// acceptable reliability settings, and frames no message longer than
    /// the engine can.
    pub open spec fn acceptable(self) -> bool {
        match self.channel_mode {
            ChannelMode::Unreliable => true,
            ChannelMode::Reliable { reliability_settings, max_message_len } => {
                reliability_settings.acceptable() && max_message_len <= ENGINE_MESSAGE_LIMIT
            },
        }
    }

    /// Whether a message of `len` serialized bytes can go out on the channel:
    /// on a reliable channel a message longer than `max_message_len` is
    /// rejected.
    pub open spec fn admits_len(self, len: nat) -> bool {
        match self.channel_mode {
            ChannelMode::Unreliable => true,
            ChannelMode::Reliable { reliability_settings, max_message_len } => len
                <= max_message_len,
        }
    }

    /// Whether the engine takes these settings.
    pub fn is_acceptable(&self) -> (ok: bool)
        ensures
            ok == self.acceptable(),
    {
        match self.channel_mode {
            ChannelMode::Unreliable => true,
            ChannelMode::Reliable { reliability_settings, max_message_len } => {
                reliability_settings.is_acceptable() && max_message_len <= ENGINE_MESSAGE_LIMIT
            },
        }
    }

    /// Whether a message of `len` serialized bytes can go out on the channel.
    pub fn admits(&self, len: usize) -> (ok: bool)
        ensures
            ok == self.admits_len(len as nat),
    {
        match self.channel_mode {
            ChannelMode::Unreliable => true,
            ChannelMode::Reliable { reliability_settings, max_message_len } => len
                <= max_message_len,
        }
    }
}

/// The settings of the unreliable channel.
pub open spec fn message_settings() -> ChannelSettings {
    ChannelSettings {
        channel: 1,
        channel_mode: ChannelMode::Unreliable,
        message_buffer_size: 64,
        packet_buffer_size: 64,
    }
}

/// The settings of the reliable channel.
pub open spec fn reliable_message_settings() -> ChannelSettings {
    ChannelSettings {
        channel: 0,
        channel_mode: ChannelMode::Reliable {
            reliability_settings: ReliabilitySettings {
                bandwidth: 409600,
                recv_window_size: 1024,
                send_window_size: 1024,
                burst_bandwidth: 1024,
                init_send: 512,
                wakeup_time_millis: 100,
                initial_rtt_millis: 200,
                max_rtt_millis: 1000,
                rtt_update_factor_thousandths: 100,
                rtt_resend_factor_thousandths: 1500,
            },
            max_message_len: MAX_RELIABLE_MESSAGE_LEN,
        },
        message_buffer_size: 64,
        packet_buffer_size: 64,
    }
}

/// The settings of the unreliable channel: channel 1, with room for 64
/// messages and 64 packets.
pub fn message_channel_settings() -> (settings: ChannelSettings)
    ensures
        settings == message_settings(),
        settings.acceptable(),
{
    ChannelSettings {
        channel: 1,
        channel_mode: ChannelMode::Unreliable,
        message_buffer_size: 64,
        packet_buffer_size: 64,
    }
}

/// The settings of the reliable channel: channel 0, a window of 1024 bytes
/// either way, and no message longer than 65534 bytes.
pub fn reliable_message_channel_settings() -> (settings: ChannelSettings)
    ensures
        settings == reliable_message_settings(),
        settings.acceptable(),
        settings.channel != message_settings().channel,
        forall|len: nat| settings.admits_len(len) <==> len <= 65534,
{
    ChannelSettings {
        channel: 0,
        channel_mode: ChannelMode::Reliable {
            reliability_settings: ReliabilitySettings {
                bandwidth: 409600,
                recv_window_size: 1024,
                send_window_size: 1024,
                burst_bandwidth: 1024,
                init_send: 512,
                wakeup_time_millis: 100,
                initial_rtt_millis: 200,
                max_rtt_millis: 1000,
                rtt_update_factor_thousandths: 100,
                rtt_resend_factor_thousandths: 1500,
            },
            max_message_len: MAX_RELIABLE_MESSAGE_LEN,
        },
        message_buffer_size: 64,
        packet_buffer_size: 64,
    }
}

} // verus!
