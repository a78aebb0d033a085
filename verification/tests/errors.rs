use secretstream::Error;

#[test]
fn test_error_messages() {
    assert_eq!(Error::InvalidTag.message(), "invalid tag");
    assert_eq!(Error::SizeMismatch.message(), "size mismatch");
    assert_eq!(Error::InvalidInput.message(), "invalid input");
    assert_eq!(Error::BufferTooSmall.message(), "buffer too small");
    assert_eq!(Error::AuthenticationFailed.message(), "authentication failed");
    assert_eq!(Error::EncryptionFailed.message(), "encryption failed");
    assert_eq!(Error::MemoryProtectionFailed.message(), "memory protection failed");
}
