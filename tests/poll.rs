use wontun::{SockID, Token, UnknownToken};

#[test]
fn test_token_u64_roundtrip() {
    for token in [
        Token::Tun,
        Token::Sock(i32::MIN),
        Token::Sock(-1),
        Token::Sock(0),
        Token::Sock(4),
        Token::Sock(i32::MAX),
    ] {
        let num: u64 = token.into();
        assert_eq!(num.try_into(), Ok(token));
    }
}

#[test]
fn token_encoding_values() {
    assert_eq!(u64::from(Token::Tun), 1u64 << 32);
    assert_eq!(u64::from(Token::Sock(-1)), (2u64 << 32) | 0xffff_ffff);
    assert_eq!(u64::from(Token::Sock(7)), (2u64 << 32) | 7);
}

#[test]
fn unknown_tag_is_rejected() {
    let r: Result<Token, UnknownToken> = 0u64.try_into();
    assert_eq!(r, Err(UnknownToken));
    let r: Result<Token, UnknownToken> = (3u64 << 32).try_into();
    assert_eq!(r, Err(UnknownToken));
}

#[test]
fn sock_id_conversions() {
    assert_eq!(SockID::from(-1), SockID::Disconnected);
    assert_eq!(SockID::from(5), SockID::ConnectedPeer(5));
    assert_eq!(i32::from(SockID::Disconnected), -1);
    assert_eq!(i32::from(SockID::ConnectedPeer(9)), 9);
}
