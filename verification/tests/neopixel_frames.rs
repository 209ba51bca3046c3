use badge::neopixel::{encode, PulseCode, FRAME_LEN, T0H, T0L, T1H, T1L};

fn decode(codes: &[PulseCode]) -> (u8, u8, u8) {
    let mut w: u32 = 0;
    for c in &codes[..24] {
        w <<= 1;
        match c {
            PulseCode::Pulse { high, low } if *high == T1H && *low == T1L => w |= 1,
            PulseCode::Pulse { high, low } if *high == T0H && *low == T0L => {}
            other => panic!("unexpected code {:?}", other),
        }
    }
    ((w >> 8) as u8, (w >> 16) as u8, w as u8)
}

#[test]
fn frame_shape() {
    let codes = encode(4, 0, 2);
    assert_eq!(codes.len(), FRAME_LEN);
    assert_eq!(codes[24], PulseCode::End);
}

#[test]
fn green_first_msb_first() {
    let codes = encode(0, 0x80, 0);
    assert_eq!(codes[0], PulseCode::Pulse { high: 70, low: 30 });
    for c in &codes[1..24] {
        assert_eq!(*c, PulseCode::Pulse { high: 30, low: 70 });
    }
    let codes = encode(0, 0, 1);
    assert_eq!(codes[23], PulseCode::Pulse { high: 70, low: 30 });
}

#[test]
fn frames_decode_back_to_their_color() {
    for (r, g, b) in [(4, 0, 2), (255, 255, 255), (0, 0, 0), (0x12, 0x34, 0x56)] {
        assert_eq!(decode(&encode(r, g, b)), (r, g, b));
    }
}
