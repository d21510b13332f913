use rubycave::protocol::{client, server, Packet, PacketValidator};
use rubycave::world::{BlockId, Chunk};

fn validator(version: &str) -> PacketValidator {
    match PacketValidator::new(version) {
        Ok(validator) => validator,
        Err(error) => panic!("the username expression did not compile: {error}"),
    }
}

fn client_hello(version: &str, username: &str) -> client::Packet {
    client::Packet::Handshake { version: version.to_string(), username: username.to_string() }
}

#[test]
fn usernames_of_one_to_sixteen_word_characters_are_accepted() {
    let v = validator("1.2.0");
    assert!(v.check_username("a"));
    assert!(v.check_username("Z"));
    assert!(v.check_username("_"));
    assert!(v.check_username("0"));
    assert!(v.check_username("Player0042"));
    assert!(v.check_username("abcdefghijklmnop"));
    assert!(v.check_username("A_z_0_9_A_z_0_9_"));
    assert!(v.check_username("azAZ09__"));
}

#[test]
fn empty_username_is_rejected() {
    assert!(!validator("1.2.0").check_username(""));
}

#[test]
fn seventeen_character_username_is_rejected() {
    assert!(!validator("1.2.0").check_username("abcdefghijklmnopq"));
    assert!(!validator("1.2.0").check_username("01234567890123456"));
}

#[test]
fn username_with_space_or_punctuation_is_rejected() {
    let v = validator("1.2.0");
    assert!(!v.check_username("two words"));
    assert!(!v.check_username(" "));
    assert!(!v.check_username("dot.dot"));
    assert!(!v.check_username("dash-dash"));
    assert!(!v.check_username("bang!"));
    assert!(!v.check_username("at@home"));
    assert!(!v.check_username("semi;colon"));
    assert!(!v.check_username("[bracket]"));
    assert!(!v.check_username("`"));
    assert!(!v.check_username("{"));
    assert!(!v.check_username("/"));
    assert!(!v.check_username(":"));
}

#[test]
fn username_with_a_letter_outside_ascii_is_rejected() {
    let v = validator("1.2.0");
    assert!(!v.check_username("caf\u{e9}"));
    assert!(!v.check_username("\u{e9}"));
    assert!(!v.check_username("\u{4e16}\u{754c}"));
}

#[test]
fn username_of_sixteen_bytes_with_a_foreign_letter_is_rejected() {
    assert!(!validator("1.2.0").check_username("abcdefghijklmn\u{e9}"));
}

#[test]
fn client_handshake_with_the_same_version_passes() {
    let v = validator("1.2.0");
    assert_eq!(v.check_client(&client_hello("1.2.0", "Player0042")), Ok(()));
}

#[test]
fn client_handshake_with_another_version_fails_with_version() {
    let v = validator("1.2.0");
    assert_eq!(
        v.check_client(&client_hello("1.2.1", "Player0042")),
        Err(server::PacketError::Version)
    );
}

#[test]
fn client_handshake_with_a_bad_name_fails_with_username() {
    let v = validator("1.2.0");
    assert_eq!(v.check_client(&client_hello("1.2.0", "")), Err(server::PacketError::Username));
    assert_eq!(
        v.check_client(&client_hello("1.2.0", "no spaces please")),
        Err(server::PacketError::Username)
    );
}

#[test]
fn version_is_judged_before_username() {
    let v = validator("1.2.0");
    assert_eq!(v.check_client(&client_hello("1.2.1", "")), Err(server::PacketError::Version));
}

#[test]
fn other_client_packets_pass() {
    let v = validator("1.2.0");
    assert_eq!(v.check_client(&client::Packet::KeepAlive { epoch: 1 }), Ok(()));
    assert_eq!(
        v.check_client(&client::Packet::Disconnect { reason: client::DisconnectReason::Player }),
        Ok(())
    );
}

#[test]
fn server_handshake_with_the_same_version_passes() {
    let v = validator("1.2.0");
    let hello = server::Packet::Handshake { version: "1.2.0".to_string() };
    assert_eq!(v.check_server(&hello), Ok(()));
}

#[test]
fn server_handshake_with_another_version_fails_with_version() {
    let v = validator("1.2.0");
    let hello = server::Packet::Handshake { version: "1.2.1".to_string() };
    assert_eq!(v.check_server(&hello), Err(client::PacketError::Version));
}

#[test]
fn other_server_packets_pass() {
    let v = validator("1.2.0");
    let teleport = server::Packet::Teleport { x: 0, y: 0, z: 0, yaw: 0, pitch: 0 };
    assert_eq!(v.check_server(&teleport), Ok(()));
    let kick = server::Packet::Kick {
        reason: server::KickReason::Operator("bye".to_string()),
    };
    assert_eq!(v.check_server(&kick), Ok(()));
    let chunk = server::Packet::Chunk(Box::new(Chunk::filled(1, 2, 3, BlockId::Grass)));
    assert_eq!(v.check_server(&chunk), Ok(()));
}

#[test]
fn validator_hands_out_its_version() {
    assert_eq!(validator("0.9.7").version_string(), "0.9.7");
}

#[test]
fn with_expression_passes_an_error_on() {
    let error = match regex::Regex::new("(") {
        Ok(_) => panic!("an unclosed group compiled"),
        Err(error) => error,
    };
    let text = error.to_string();
    match PacketValidator::with_expression("1.0.0", Err(error)) {
        Ok(_) => panic!("a validator was made without an expression"),
        Err(same) => assert_eq!(same.to_string(), text),
    }
}

#[test]
fn new_returns_a_validator() {
    assert!(PacketValidator::new("1.0.0").is_ok());
    assert!(PacketValidator::new("").is_ok());
}

#[test]
fn letters_that_fold_to_ascii_are_rejected() {
    let v = validator("1.2.0");
    assert!(!v.check_username("\u{17f}"));
    assert!(!v.check_username("\u{212a}"));
    assert!(!v.check_username("a\u{17f}b"));
}

#[test]
fn packet_errors_have_messages() {
    assert_eq!(client::PacketError::Handshake.message(), "expected handshake");
    assert_eq!(client::PacketError::Version.message(), "client/server version mismatch");
    assert_eq!(server::PacketError::Handshake.message(), "expected handshake");
    assert_eq!(server::PacketError::Version.message(), "client/server version mismatch");
    assert_eq!(server::PacketError::Username.message(), "invalid username");
}

#[test]
fn packets_compare_by_content() {
    let a = Packet::Client(client_hello("1.0.0", "Ann"));
    let b = Packet::Client(client_hello("1.0.0", "Ann"));
    let c = Packet::Client(client_hello("1.0.0", "Bob"));
    assert_eq!(a, b);
    assert_ne!(a, c);
    assert_eq!(a.clone(), a);
}

#[test]
fn filled_chunk_holds_one_block_everywhere() {
    let chunk = Chunk::filled(4, 5, 6, BlockId::Grass);
    assert_eq!((chunk.x, chunk.y, chunk.z), (4, 5, 6));
    assert_eq!(chunk.blocks.len(), 4096);
    assert!(chunk.blocks.iter().all(|block| *block == BlockId::Grass));
    assert_eq!(rubycave::world::CHUNK_VOLUME, 4096);
}
