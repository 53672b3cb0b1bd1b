const BUFFER_SIZE: usize = 1024;

#[test]
fn write_b() {
    // Arrange
    let mut buffer = vec![0u8; BUFFER_SIZE];

    // Act
    let position = mmo_auth::io::write_b(&mut buffer, 0, &[1, 2, 3]);

    // Assert
    assert_eq!(position, 3);
    assert_eq!(hex::encode(&buffer[..position]), "010203");
}

#[test]
fn write_c() {
    // Arrange
    let mut buffer = vec![0u8; BUFFER_SIZE];

    // Act
    let position = mmo_auth::io::write_c(&mut buffer, 0, 0x7b);

    // Assert
    assert_eq!(position, 1);
    assert_eq!(hex::encode(&buffer[..position]), "7b");
}

#[test]
fn write_h() {
    // Arrange
    let mut buffer = vec![0u8; BUFFER_SIZE];

    // Act
    let position = mmo_auth::io::write_h(&mut buffer, 0, 0x105c);

    // Assert
    assert_eq!(position, 2);
    assert_eq!(hex::encode(&buffer[..position]), "5c10");
}

#[test]
fn write_d() {
    // Arrange
    let mut buffer = vec![0u8; BUFFER_SIZE];

    // Act
    let position = mmo_auth::io::write_d(&mut buffer, 0, 0x105c6a7b);

    // Assert
    assert_eq!(position, 4);
    assert_eq!(hex::encode(&buffer[..position]), "7b6a5c10");
}

#[test]
fn read_h() {
    // Arrange
    let buffer = hex::decode("7b10").expect("Failed to decode buffer");

    // Act
    let value = mmo_auth::io::read_h(&buffer, 0);

    // Assert
    assert_eq!(value, 0x107b);
}

#[test]
fn read_d() {
    // Arrange
    let buffer = hex::decode("7b6a5c10").expect("Failed to decode buffer");

    // Act
    let value = mmo_auth::io::read_d(&buffer, 0);

    // Assert
    assert_eq!(value, 0x105C6A7B);
}
