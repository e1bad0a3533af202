use eipscanner::wire::{try_get_short_string, try_get_u16_le, try_get_vec, try_skip};
use eipscanner::Error;

#[test]
fn short_string() {
    let buf = b"\x06Hello!";
    let mut rd = &buf[..];
    assert_eq!(try_get_short_string(&mut rd).unwrap(), "Hello!");
    assert!(rd.is_empty());
}

#[test]
fn truncated_read_is_an_error() {
    let mut rd: &[u8] = &[3, b'a'];
    assert!(matches!(
        try_get_short_string(&mut rd),
        Err(Error::Truncated {
            requested: 3,
            available: 1
        })
    ));
}

#[test]
fn reads_advance_and_report_shortfalls() {
    let mut rd: &[u8] = &[0x34, 0x12, 1, 2, 3];
    assert_eq!(try_get_u16_le(&mut rd).unwrap(), 0x1234);
    assert_eq!(try_get_vec(&mut rd, 2).unwrap(), [1, 2]);
    assert!(matches!(try_skip(&mut rd, 2), Err(Error::Truncated { requested: 2, available: 1 })));
    assert_eq!(rd, [3]);
    assert!(matches!(try_get_u16_le(&mut rd), Err(Error::Truncated { requested: 2, available: 1 })));
}
