use mmo_auth::BLOCK_SIZE;

#[test]
fn scramble_modulus_success() {
    // Arrange
    let mut modulus = hex::decode("9a277669023723947d0ebdccef967a24c715018df6ce66414fccd0f5bab54124b8caac6d7f52f8bbbab7de926b4f0ac4cc84793196e44928774a57737d0e4ee02962952257506e898846e353fa5fee31409a1d32124fb8df53d969dd7aa222866fa85e106f8a07e333d8ded4b10a8300b32d5f47cc5eab14033fa2bc0950b5c9").
        expect("Failed to decode modulus");

    // Act
    mmo_auth::crypt::scramble_modulus(&mut modulus);

    // Assert
    assert_eq!(
        hex::encode(modulus),
        "768ca46255674d1df5485e9f1556e7b0928f1cbfe481de9e1c15b928c01763a2d762f27d10d8ff58896f0046da4589c47fa926765abae23c7475f5cf745efb295fee3140023723947d0ebdccefccc0c6fb15018df6ce66414fccd0f5bab54124b8caac6d7f52f8bbbab7de926b4f0ac4cc84793196e44928774a57737d0e4ee0",
    );
}

#[test]
fn scramble_init_success() {
    // Arrange
    let mut buffer = hex::decode("010203040506070800000000").expect("Failed to decode buffer");
    let size = buffer.len() - BLOCK_SIZE;
    let key = -559038737;

    // Act
    let result = mmo_auth::crypt::scramble_init(&mut buffer, size, key);

    // Assert
    assert_eq!(result.is_ok(), true);
    assert_eq!(hex::encode(buffer), "01020304f1c2b3eef4c4b4e6");
}

#[test]
fn scramble_init_fail() {
    // Arrange
    let mut buffer = hex::decode("0102030405060708").expect("Failed to decode buffer");
    let size = buffer.len();
    let key = -559038737;

    // Act
    let result = mmo_auth::crypt::scramble_init(&mut buffer, size, key);

    // Assert
    assert_eq!(result.is_err(), true);
}

#[test]
fn blowfish_compat_success() {
    // Arrange
    let mut buffer = hex::decode("0102030405060708").expect("Failed to decode buffer");

    // Act
    let size = buffer.len();
    mmo_auth::crypt::blowfish_compat(&mut buffer, size);

    // Assert
    assert_eq!(hex::encode(buffer), "0403020108070605");
}

#[test]
fn blowfish_compat_twice_restores() {
    // Arrange
    let original = hex::decode("0102030405060708f00dfeed").expect("Failed to decode buffer");
    let mut buffer = original.clone();

    // Act
    let size = buffer.len();
    mmo_auth::crypt::blowfish_compat(&mut buffer, size);
    assert_ne!(buffer, original);
    mmo_auth::crypt::blowfish_compat(&mut buffer, size);

    // Assert
    assert_eq!(buffer, original);
}

#[test]
fn scramble_init_trailer_is_running_sum() {
    // Three data blocks after the untouched checksum block, then room for
    // the trailer.
    let mut buffer = hex::decode("000000000102030405060708090a0b0c00000000")
        .expect("Failed to decode buffer");
    let size = 16;
    let key: i32 = 0x1234_5678;

    let result = mmo_auth::crypt::scramble_init(&mut buffer, size, key);
    assert_eq!(result.is_ok(), true);

    // The trailing block equals the wrapping sum of the key with every
    // 4-byte little-endian block in [BLOCK_SIZE, size), read in original
    // form.
    let blocks: [i32; 3] = [0x04030201, 0x08070605, 0x0c0b0a09];
    let mut expected = key;
    for b in blocks {
        expected = expected.wrapping_add(b);
    }
    assert_eq!(buffer[16..20], expected.to_le_bytes());
}

#[test]
fn scramble_init_deterministic() {
    let make = || {
        let mut buffer =
            hex::decode("ffffffffdeadbeef0102030400000000").expect("Failed to decode buffer");
        let result = mmo_auth::crypt::scramble_init(&mut buffer, 12, -1);
        assert_eq!(result.is_ok(), true);
        buffer
    };
    assert_eq!(make(), make());
}
