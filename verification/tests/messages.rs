use mmo_auth::message::{decode, encode, ClientMessage, GGAuthResult, ServerMessage};
use mmo_auth::{AuthError, BUFFER_SIZE};

#[test]
fn server_init() {
    // Arrange
    let mut buffer = vec![0u8; BUFFER_SIZE];
    let msg = ServerMessage::Init {
        session_id: -559038737,
        modulus: hex::decode("9a277669023723947d0ebdccef967a24c715018df6ce66414fccd0f5bab54124b8caac6d7f52f8bbbab7de926b4f0ac4cc84793196e44928774a57737d0e4ee02962952257506e898846e353fa5fee31409a1d32124fb8df53d969dd7aa222866fa85e106f8a07e333d8ded4b10a8300b32d5f47cc5eab14033fa2bc0950b5c9").
            expect("Fail to decode modulus"),
        crypt_key: hex::decode("0102030405060708090a0b0c0d0e0f10").
            expect("Failed to decode crypt key"),
    };

    // Act
    let position = encode(&msg, &mut buffer);

    // Assert
    assert_eq!(position, 1 + 4 + 4 + 128 + 16 + 16);
    assert_eq!(hex::encode(&buffer[..position]), "00efbeadde21c60000768ca46255674d1df5485e9f1556e7b0928f1cbfe481de9e1c15b928c01763a2d762f27d10d8ff58896f0046da4589c47fa926765abae23c7475f5cf745efb295fee3140023723947d0ebdccefccc0c6fb15018df6ce66414fccd0f5bab54124b8caac6d7f52f8bbbab7de926b4f0ac4cc84793196e44928774a57737d0e4ee0000000000000000000000000000000000102030405060708090a0b0c0d0e0f10");
}

#[test]
fn server_gg_auth() {
    // Arrange
    let mut buffer = vec![0u8; BUFFER_SIZE];
    let msg = ServerMessage::GGAuth {
        result: GGAuthResult::Skip,
    };

    // Act
    let position = encode(&msg, &mut buffer);

    // Assert
    assert_eq!(position, 1 + 4 + 16);
    assert_eq!(
        hex::encode(&buffer[..position]),
        "0b0b00000000000000000000000000000000000000"
    );
}

#[test]
fn client_auth_game_guard() {
    // Arrange
    let buffer = hex::decode("0725c7892400000000000000000000000000000000000000")
        .expect("Failed to decode buffer");
    let message = ClientMessage::AuthGameGuard {};

    // Act
    let result = decode(&buffer);

    // Assert
    assert_eq!(result.is_ok(), true);
    assert_eq!(result.unwrap(), message);
}

#[test]
fn client_invalid() {
    // Arrange
    let buffer = hex::decode("ff").expect("Failed to decode buffer");

    // Act
    let result = decode(&buffer);

    // Assert
    assert_eq!(result.is_err(), true);
    let err = result.unwrap_err();
    assert_eq!(err, AuthError::MalformedInput { tag: 0xff });
}

#[test]
fn decode_tag_seven_alone() {
    let result = decode(&[0x07]);
    assert_eq!(result, Ok(ClientMessage::AuthGameGuard {}));
}

#[test]
fn decode_other_tags_fail_with_the_byte() {
    for tag in [0x00u8, 0x06, 0x08, 0x0b, 0xfe] {
        let result = decode(&[tag, 0x07]);
        assert_eq!(result, Err(AuthError::MalformedInput { tag }));
    }
}
