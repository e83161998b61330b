use echo_program::error::EchoError;
use echo_program::state::{AuthorizedBufferHeader, HEADER_LEN};

#[test]
fn required_size_adds_header() {
    assert_eq!(AuthorizedBufferHeader::required_account_size(0), 9);
    assert_eq!(AuthorizedBufferHeader::required_account_size(4), 13);
    assert_eq!(AuthorizedBufferHeader::required_account_size(1000), 1009);
    assert_eq!(HEADER_LEN, 9);
}

#[test]
fn header_encodes_bump_then_little_endian_seed() {
    let h = AuthorizedBufferHeader {
        bump_seed: 254,
        buffer_seed: 0x0102_0304_0506_0708,
    };
    assert_eq!(h.encode(), vec![254, 8, 7, 6, 5, 4, 3, 2, 1]);
}

#[test]
fn header_round_trip() {
    for (bump_seed, buffer_seed) in [(0u8, 0u64), (255, u64::MAX), (7, 7), (1, 1 << 40)] {
        let h = AuthorizedBufferHeader {
            bump_seed,
            buffer_seed,
        };
        assert_eq!(AuthorizedBufferHeader::decode(&h.encode()), Ok(h));
    }
}

#[test]
fn decode_short_account_fails() {
    assert_eq!(
        AuthorizedBufferHeader::decode(&[1, 2, 3, 4, 5, 6, 7, 8]),
        Err(EchoError::DecodeError)
    );
    assert_eq!(AuthorizedBufferHeader::decode(&[]), Err(EchoError::DecodeError));
}

#[test]
fn decode_reads_only_the_header() {
    let bytes = [3u8, 7, 0, 0, 0, 0, 0, 0, 0, 9, 9, 9];
    assert_eq!(
        AuthorizedBufferHeader::decode(&bytes),
        Ok(AuthorizedBufferHeader {
            bump_seed: 3,
            buffer_seed: 7
        })
    );
}

#[test]
fn write_header_keeps_payload() {
    let h = AuthorizedBufferHeader {
        bump_seed: 9,
        buffer_seed: 7,
    };
    let mut data = vec![0xAAu8; 12];
    assert_eq!(h.write_to(&mut data), Ok(()));
    assert_eq!(data, vec![9, 7, 0, 0, 0, 0, 0, 0, 0, 0xAA, 0xAA, 0xAA]);
}

#[test]
fn write_header_into_short_account_fails() {
    let h = AuthorizedBufferHeader {
        bump_seed: 9,
        buffer_seed: 7,
    };
    let mut data = vec![5u8; 8];
    assert_eq!(h.write_to(&mut data), Err(EchoError::AccountTooSmall));
    assert_eq!(data, vec![5u8; 8]);
}
