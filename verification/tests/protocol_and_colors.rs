use badge::color::{encode_fill, encode_mono_fill, encode_pixel, tri_from, BinaryColor, TriColor};
use badge::protocol::{on_gatt_event, rgb_packet, route, BadgeCommand, GattAction, GattEvent, Color, Command, DrawCommand, LightCommand, Route, RX_CHAR_UUID, SERVICE_UUID};

#[test]
fn uuids() {
    assert_eq!(SERVICE_UUID, 12897126749781238);
    assert_eq!(RX_CHAR_UUID, 12847126749781238);
}

#[test]
fn command_parse() {
    assert_eq!(Command::parse(&[0x3C, 0x3C]), Command::Hello);
    assert_eq!(Command::parse(&[0x3C]), Command::SetLight);
    assert_eq!(Command::parse(&[0x3C, 0x3C, 0x00]), Command::SetLight);
    assert_eq!(Command::parse(&[]), Command::SetLight);
    assert_eq!(Command::parse(&[0x01, 4, 0, 2]), Command::SetLight);
}

#[test]
fn rgb_packet_layout() {
    assert_eq!(rgb_packet(4, 0, 2), [0x01, 4, 0, 2]);
}

#[test]
fn protocol_colors_map_to_panel_colors() {
    assert_eq!(tri_from(Color::White), TriColor::White);
    assert_eq!(tri_from(Color::Black), TriColor::Black);
    assert_eq!(tri_from(Color::Red), TriColor::Red);
}

#[test]
fn plane_encodings() {
    assert_eq!(encode_fill(TriColor::White), (0xFF, 0x00));
    assert_eq!(encode_fill(TriColor::Black), (0x00, 0x00));
    assert_eq!(encode_fill(TriColor::Red), (0xFF, 0xFF));
    assert_eq!(encode_pixel(TriColor::White), (true, false));
    assert_eq!(encode_pixel(TriColor::Black), (false, false));
    assert_eq!(encode_pixel(TriColor::Red), (true, true));
    assert_eq!(encode_mono_fill(BinaryColor::Off), 0xFF);
    assert_eq!(encode_mono_fill(BinaryColor::On), 0x00);
}

#[test]
fn fill_bytes_agree_with_pixel_bits() {
    for c in [TriColor::White, TriColor::Black, TriColor::Red] {
        let (fb, fr) = encode_fill(c);
        let (pb, pr) = encode_pixel(c);
        for k in 0..8 {
            assert_eq!((fb >> k) & 1 == 1, pb);
            assert_eq!((fr >> k) & 1 == 1, pr);
        }
    }
}

#[test]
fn routing() {
    assert_eq!(route(BadgeCommand::Debug), Route::Log);
    let light = LightCommand { r: 1, g: 2, b: 3 };
    assert_eq!(route(BadgeCommand::SetLight(light)), Route::Light(light));
    assert_eq!(route(BadgeCommand::Drawing(DrawCommand::Flush)), Route::Draw(DrawCommand::Flush));
}

#[test]
fn gatt_events() {
    assert_eq!(on_gatt_event(7, GattEvent::Disconnected), GattAction::Readvertise);
    assert_eq!(on_gatt_event(7, GattEvent::Write { handle: 7 }), GattAction::Dispatch);
    assert_eq!(on_gatt_event(7, GattEvent::Write { handle: 8 }), GattAction::Ignore);
    assert_eq!(on_gatt_event(7, GattEvent::Other), GattAction::Ignore);
}
