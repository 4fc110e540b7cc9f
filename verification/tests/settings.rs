use game_transport::settings::{
    message_channel_settings, reliable_message_channel_settings, ChannelMode, ChannelSettings,
    ReliabilitySettings, ENGINE_MESSAGE_LIMIT, MAX_RELIABLE_MESSAGE_LEN,
};

#[test]
fn the_unreliable_channel_is_channel_one_with_room_for_sixty_four() {
    assert_eq!(
        message_channel_settings(),
        ChannelSettings {
            channel: 1,
            channel_mode: ChannelMode::Unreliable,
            message_buffer_size: 64,
            packet_buffer_size: 64,
        }
    );
    assert!(message_channel_settings().is_acceptable());
    assert!(message_channel_settings().admits(1_000_000));
}

#[test]
fn the_reliable_channel_has_the_documented_settings() {
    let settings = reliable_message_channel_settings();
    assert_eq!(settings.channel, 0);
    assert_eq!(settings.message_buffer_size, 64);
    assert_eq!(settings.packet_buffer_size, 64);
    assert_eq!(
        settings.channel_mode,
        ChannelMode::Reliable {
            reliability_settings: ReliabilitySettings {
                bandwidth: 409600,
                recv_window_size: 1024,
                send_window_size: 1024,
                burst_bandwidth: 1024,
                init_send: 512,
                wakeup_time_millis: 100,
                initial_rtt_millis: 200,
                max_rtt_millis: 1000,
                rtt_update_factor_thousandths: 100,
                rtt_resend_factor_thousandths: 1500,
            },
            max_message_len: 65534,
        }
    );
    assert!(settings.is_acceptable());
    assert_eq!(100.0f64 / 1000.0, 0.1);
    assert_eq!(1500.0f64 / 1000.0, 1.5);
}

#[test]
fn a_reliable_message_of_65535_bytes_is_rejected_and_one_of_65534_is_not() {
    let settings = reliable_message_channel_settings();
    assert!(!settings.admits(65535));
    assert!(settings.admits(65534));
    assert!(settings.admits(0));
    assert!(!settings.admits(usize::MAX));
    assert_eq!(MAX_RELIABLE_MESSAGE_LEN, 65534);
    assert_eq!(ENGINE_MESSAGE_LIMIT, 65535);
}

#[test]
fn the_engine_refuses_settings_with_a_zero() {
    let good = match reliable_message_channel_settings().channel_mode {
        ChannelMode::Reliable { reliability_settings, .. } => reliability_settings,
        ChannelMode::Unreliable => panic!("the reliable channel is reliable"),
    };
    assert!(good.is_acceptable());
    assert!(!ReliabilitySettings { bandwidth: 0, ..good }.is_acceptable());
    assert!(!ReliabilitySettings { recv_window_size: 0, ..good }.is_acceptable());
    assert!(!ReliabilitySettings { send_window_size: 0, ..good }.is_acceptable());
    assert!(!ReliabilitySettings { burst_bandwidth: 0, ..good }.is_acceptable());
    assert!(!ReliabilitySettings { init_send: 0, ..good }.is_acceptable());
    assert!(!ReliabilitySettings { rtt_update_factor_thousandths: 0, ..good }.is_acceptable());
    assert!(!ReliabilitySettings { rtt_resend_factor_thousandths: 0, ..good }.is_acceptable());
    let too_long = ChannelSettings {
        channel: 0,
        channel_mode: ChannelMode::Reliable { reliability_settings: good, max_message_len: 65536 },
        message_buffer_size: 64,
        packet_buffer_size: 64,
    };
    assert!(!too_long.is_acceptable());
}
