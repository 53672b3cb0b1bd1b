use std::cell::Cell;
use std::rc::Rc;

use mmo_auth::client::AuthClient;
use mmo_auth::crypt::AuthClientCrypt;
use mmo_auth::message::ServerMessage;
use mmo_auth::sender::{AuthClientSender, AuthClientSenderImpl};
use mmo_auth::{AuthError, INIT_KEY};

struct MockSender {
    sends: Rc<Cell<usize>>,
    fail: bool,
}

impl AuthClientSender for MockSender {
    fn wf(&self) -> bool {
        true
    }

    fn send(&mut self, msg: ServerMessage) -> Result<Vec<u8>, AuthError> {
        self.sends.set(self.sends.get() + 1);
        assert!(matches!(msg, ServerMessage::Init { .. }));
        if self.fail {
            Err(AuthError::CryptFailure)
        } else {
            Ok(Vec::new())
        }
    }
}

#[test]
fn init_success() {
    // Arrange
    let sends = Rc::new(Cell::new(0));
    let sender = MockSender { sends: Rc::clone(&sends), fail: false };
    let mut client = AuthClient::new(sender).expect("Failed to create client");

    // Act
    let result = client.init();

    // Assert
    assert_eq!(result.is_ok(), true);
    assert_eq!(sends.get(), 1);
}

#[test]
fn init_fail() {
    // Arrange
    let sends = Rc::new(Cell::new(0));
    let sender = MockSender { sends: Rc::clone(&sends), fail: true };
    let mut client = AuthClient::new(sender).expect("Failed to create client");

    // Act
    let result = client.init();

    // Assert
    assert_eq!(result.is_err(), true);
    assert_eq!(sends.get(), 1);
}

#[test]
fn init_produces_a_full_frame() {
    // End to end with real key material: the generated modulus is 128 bytes,
    // so the init frame always has the fixed session-init layout.
    let crypt = AuthClientCrypt::new(&INIT_KEY).expect("Failed to create crypt");
    let sender = AuthClientSenderImpl::new(crypt);
    let mut client = AuthClient::new(sender).expect("Failed to create client");

    let frame = client.init().expect("Failed to init");
    assert_eq!(frame.len(), 2 + 184);
    assert_eq!(u16::from_le_bytes([frame[0], frame[1]]), 186);
}
