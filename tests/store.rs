use dmx::store::{decode_universe, encode_universe, resolve_state_path, StateError};

#[test]
fn encoded_universe_is_raw_bytes() {
    let mut u = [0u8; 512];
    u[0] = 1;
    u[3] = 250;
    u[511] = 42;
    let bytes = encode_universe(&u);
    assert_eq!(bytes.len(), 512);
    assert_eq!(bytes[0], 1);
    assert_eq!(bytes[3], 250);
    assert_eq!(bytes[511], 42);
    assert_eq!(bytes[1], 0);
}

#[test]
fn load_after_save_returns_universe() {
    let mut u = [0u8; 512];
    for (i, v) in u.iter_mut().enumerate() {
        *v = (i * 7 % 256) as u8;
    }
    assert_eq!(decode_universe(&encode_universe(&u)), Ok(u));
}

#[test]
fn save_after_load_keeps_bytes() {
    let bytes: Vec<u8> = (0..512).map(|i| (i % 253) as u8).collect();
    let u = decode_universe(&bytes).unwrap();
    assert_eq!(encode_universe(&u), bytes);
}

#[test]
fn wrong_length_refused() {
    assert_eq!(decode_universe(&vec![0u8; 511]), Err(StateError::WrongLength));
    assert_eq!(decode_universe(&vec![0u8; 513]), Err(StateError::WrongLength));
    assert_eq!(decode_universe(&Vec::new()), Err(StateError::WrongLength));
}

#[test]
fn override_path_wins() {
    assert_eq!(
        resolve_state_path(Some("/tmp/a".to_string()), Some("/home/x/.cache/dmx.state".to_string())),
        Ok("/tmp/a".to_string())
    );
    assert_eq!(resolve_state_path(Some("/tmp/a".to_string()), None), Ok("/tmp/a".to_string()));
}

#[test]
fn default_path_without_override() {
    assert_eq!(
        resolve_state_path(None, Some("/home/x/.cache/dmx.state".to_string())),
        Ok("/home/x/.cache/dmx.state".to_string())
    );
}

#[test]
fn no_location_is_not_found() {
    assert_eq!(resolve_state_path(None, None), Err(StateError::NotFound));
}
