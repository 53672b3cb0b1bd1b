use mmo_auth::crypt::AuthClientCrypt;
use mmo_auth::INIT_KEY;

#[test]
fn crypt_new() {
    // Act
    let result = AuthClientCrypt::new(&INIT_KEY);

    // Assert
    assert_eq!(result.is_ok(), true);
}

#[test]
fn crypt_update_key() {
    // Arrange
    let mut crypt = AuthClientCrypt::new(&INIT_KEY).expect("Failed to new");

    // Act
    let result = crypt.update_key(&[1, 2, 3, 4, 5, 6, 7, 8, 9, 10, 11, 12, 13, 14, 15, 16]);

    // Assert
    assert_eq!(result.is_ok(), true);
}

#[test]
fn encrypt_changes_the_bytes() {
    let mut crypt = AuthClientCrypt::new(&INIT_KEY).expect("Failed to new");
    let input = vec![0u8; 32];
    let mut output = vec![0u8; 64];

    let n = crypt
        .encrypt_update(&input, 32, &mut output)
        .expect("Failed to encrypt");

    assert_eq!(n, 32);
    assert_ne!(&output[..32], &input[..32]);
    // ECB: equal blocks encrypt equally.
    assert_eq!(&output[0..8], &output[8..16]);
}

#[test]
fn encrypt_then_decrypt_restores() {
    let mut crypt = AuthClientCrypt::new(&INIT_KEY).expect("Failed to new");
    let input: Vec<u8> = (0u8..32).collect();
    let mut encrypted = vec![0u8; 64];
    let n = crypt
        .encrypt_update(&input, 32, &mut encrypted)
        .expect("Failed to encrypt");
    assert_eq!(n, 32);

    let mut decrypted = vec![0u8; 64];
    let m = crypt
        .decrypt_update(&encrypted, 32, &mut decrypted)
        .expect("Failed to decrypt");
    assert_eq!(m, 32);
    assert_eq!(&decrypted[..32], &input[..]);
}

#[test]
fn decrypt_under_other_key_differs() {
    let mut crypt = AuthClientCrypt::new(&INIT_KEY).expect("Failed to new");
    let input: Vec<u8> = (0u8..32).collect();
    let mut encrypted = vec![0u8; 64];
    crypt
        .encrypt_update(&input, 32, &mut encrypted)
        .expect("Failed to encrypt");

    let mut other = AuthClientCrypt::new(&[9u8; 16]).expect("Failed to new");
    let mut decrypted = vec![0u8; 64];
    let m = other
        .decrypt_update(&encrypted, 32, &mut decrypted)
        .expect("Failed to decrypt");
    assert_eq!(m, 32);
    assert_ne!(&decrypted[..32], &input[..]);
}
