use glam::Vec3;
use rubycave::game::{guest_name, keep_alive, keep_alive_due, react, tick_due, Reaction, TICK_NANOS};
use rubycave::protocol::{client, server, Packet, PacketValidator};
use rubycave::render::view::Camera;
use rubycave::{epoch, KEEP_ALIVE_INTERVAL, TICK_RATE};

#[test]
fn kick_and_teleport_are_acted_on() {
    let kick = Packet::Server(server::Packet::Kick {
        reason: server::KickReason::Packet(server::PacketError::Username),
    });
    assert_eq!(
        react(Some(kick)),
        Reaction::Kicked { reason: server::KickReason::Packet(server::PacketError::Username) }
    );
    let teleport = Packet::Server(server::Packet::Teleport {
        x: 1.5f32.to_bits(),
        y: (-2.0f32).to_bits(),
        z: 0,
        yaw: 7,
        pitch: 9,
    });
    assert_eq!(
        react(Some(teleport)),
        Reaction::Teleported { x: 0x3fc0_0000, y: 0xc000_0000, z: 0, yaw: 7, pitch: 9 }
    );
}

#[test]
fn other_packets_and_no_packet_are_passed_over() {
    assert_eq!(react(None), Reaction::Ignored);
    let hello = Packet::Server(server::Packet::Handshake { version: "1.0.0".to_string() });
    assert_eq!(react(Some(hello)), Reaction::Ignored);
    let own = Packet::Client(client::Packet::KeepAlive { epoch: 3 });
    assert_eq!(react(Some(own)), Reaction::Ignored);
}

#[test]
fn tick_is_due_after_a_sixtieth_of_a_second() {
    assert_eq!(TICK_RATE, 60);
    assert_eq!(TICK_NANOS, 16_666_666);
    assert!(!tick_due(0));
    assert!(!tick_due(16_666_665));
    assert!(tick_due(16_666_666));
    assert!(tick_due(1_000_000_000));
}

#[test]
fn tick_counts_the_low_sixty_four_bits() {
    assert!(!tick_due(1u128 << 64));
    assert!(tick_due((1u128 << 64) + 16_666_666));
}

#[test]
fn keep_alive_is_due_after_five_seconds() {
    assert_eq!(KEEP_ALIVE_INTERVAL, 5000);
    assert!(!keep_alive_due(0));
    assert!(!keep_alive_due(4999));
    assert!(keep_alive_due(5000));
    assert!(keep_alive_due(60_000));
}

#[test]
fn keep_alive_counts_the_low_thirty_two_bits() {
    assert!(!keep_alive_due(1u128 << 32));
    assert!(keep_alive_due((1u128 << 32) + 5000));
}

#[test]
fn keep_alive_carries_the_time() {
    assert_eq!(
        keep_alive(1_700_000_000_000),
        client::Packet::KeepAlive { epoch: 1_700_000_000_000 }
    );
    assert_eq!(keep_alive((1u128 << 64) + 5), client::Packet::KeepAlive { epoch: 5 });
}

#[test]
fn guest_names_are_padded_to_four_digits() {
    assert_eq!(guest_name(0), "Player0000");
    assert_eq!(guest_name(7), "Player0007");
    assert_eq!(guest_name(42), "Player0042");
    assert_eq!(guest_name(100), "Player0100");
    assert_eq!(guest_name(999), "Player0999");
    assert_eq!(guest_name(1000), "Player1000");
    assert_eq!(guest_name(9999), "Player9999");
}

#[test]
fn guest_names_of_large_numbers_grow() {
    assert_eq!(guest_name(10_000), "Player10000");
    assert_eq!(guest_name(1_234_567), "Player1234567");
    assert_eq!(guest_name(u32::MAX), "Player4294967295");
}

#[test]
fn guest_names_are_valid_usernames() {
    let validator = match PacketValidator::new("1.0.0") {
        Ok(validator) => validator,
        Err(error) => panic!("the username expression did not compile: {error}"),
    };
    for number in [0, 9, 10, 99, 100, 999, 1000, 9999, 10_000, 123_456, u32::MAX] {
        assert!(validator.check_username(&guest_name(number)));
    }
}

#[test]
fn clock_reads_a_time_after_the_epoch() {
    match epoch() {
        Some(since) => assert!(since.as_secs() > 1_000_000_000),
        None => panic!("the clock is set before the epoch"),
    }
}

#[test]
fn new_camera_is_not_marked() {
    let camera = Camera::new(Vec3::new(0.0, 0.0, 3.0), Vec3::new(0.5, 0.25, 0.0));
    assert!(!camera.is_updated());
    assert_eq!(camera.pos, Vec3::new(0.0, 0.0, 3.0));
    assert_eq!(camera.ang, Vec3::new(0.5, 0.25, 0.0));
}

#[test]
fn camera_mark_is_set_and_cleared() {
    let mut camera = Camera::new(Vec3::new(1.0, 2.0, 3.0), Vec3::new(0.0, 0.0, 0.0));
    camera.set_updated(true);
    assert!(camera.is_updated());
    assert_eq!(camera.pos, Vec3::new(1.0, 2.0, 3.0));
    camera.set_updated(false);
    assert!(!camera.is_updated());
    camera.pos = Vec3::new(4.0, 5.0, 6.0);
    camera.set_updated(true);
    assert!(camera.is_updated());
    assert_eq!(camera.pos, Vec3::new(4.0, 5.0, 6.0));
    assert_eq!(camera.ang, Vec3::new(0.0, 0.0, 0.0));
}

#[test]
fn default_camera_is_not_marked() {
    let camera = Camera::default();
    assert!(!camera.is_updated());
    assert_eq!(camera.pos, camera.ang);
    assert_eq!(camera.pos, Vec3::new(0.0, 0.0, 0.0));
}
