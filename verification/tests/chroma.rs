use razer_chroma::chroma::{
    display_packet, remaining_interval, render_frame, row_packet, set_keyboard_effect, Led,
    LedController, LedStorage,
};
use razer_chroma::effects::{Colour, EffectLayer, StaticEffect};
use razer_chroma::keyboard::{default_key_matrix, Keys};
use razer_chroma::razer::RazerPacket;

#[test]
fn row_packet_layout() {
    let row = [Colour::new_colour(1, 2, 3), Colour::new_colour(4, 5, 6)];
    let p = row_packet(5, &row);
    assert_eq!(p, RazerPacket::new(0x03, 0x0B, &[0xFF, 5, 0, 2, 0, 0, 0, 1, 2, 3, 4, 5, 6]));
    assert_eq!(p.data_size, 13);
}

#[test]
fn row_packet_for_a_keyboard_row() {
    let row = [Colour::new_colour(255, 128, 0); 15];
    let p = row_packet(0, &row);
    assert_eq!(p.data_size, 7 + 45);
    assert_eq!(&p.args[0..7], &[0xFF, 0x00, 0x00, 0x0F, 0x00, 0x00, 0x00]);
    for key in 0..15 {
        assert_eq!(&p.args[7 + 3 * key..10 + 3 * key], &[255, 128, 0]);
    }
    assert_eq!(p.cmd_class, 0x03);
    assert_eq!(p.cmd_id, 0x0B);
}

#[test]
fn wide_row_is_cut_at_eighty_bytes() {
    let row = [Colour::new_colour(9, 8, 7); 30];
    let p = row_packet(300, &row);
    assert_eq!(p.data_size, 80);
    assert_eq!(p.args[1], 44);
    assert_eq!(p.args[3], 30);
    assert_eq!(&p.args[76..80], &[9, 8, 7, 9]);
}

#[test]
fn display_packet_layout() {
    assert_eq!(display_packet(), RazerPacket::new(0x03, 0x0A, &[0x05, 0x00]));
}

#[test]
fn frame_commands_follow_the_committed_grid() {
    let mut mask = [[true; 3]; 2];
    mask[1][0] = false;
    let mut layer: EffectLayer<3, 2> = EffectLayer::create_blank(mask);
    layer.set_matrix_bg(Colour::new_colour(10, 20, 30));
    let commands = set_keyboard_effect(&mut layer);
    assert_eq!(commands.rows.len(), 2);
    assert_eq!(
        commands.rows[0],
        RazerPacket::new(0x03, 0x0B, &[0xFF, 0, 0, 3, 0, 0, 0, 10, 20, 30, 10, 20, 30, 10, 20, 30])
    );
    assert_eq!(
        commands.rows[1],
        RazerPacket::new(0x03, 0x0B, &[0xFF, 1, 0, 3, 0, 0, 0, 0, 0, 0, 10, 20, 30, 10, 20, 30])
    );
    assert_eq!(commands.display, display_packet());
}

#[test]
fn render_frame_runs_update_then_commit() {
    let mut layer = default_key_matrix();
    let mut effect = StaticEffect::new(Colour::new_colour(1, 1, 1));
    let commands = render_frame(&mut effect, &mut layer);
    assert_eq!(commands.rows.len(), 6);
    for (y, row) in commands.rows.iter().enumerate() {
        assert_eq!(*row, row_packet(y, &[Colour::new_colour(1, 1, 1); 15]));
    }
    assert_eq!(*layer.update_matrix(), [[Colour::new_colour(1, 1, 1); 15]; 6]);
}

#[test]
fn remaining_interval_fills_up_the_tick() {
    assert_eq!(remaining_interval(0), Some(40_000));
    assert_eq!(remaining_interval(15_000), Some(25_000));
    assert_eq!(remaining_interval(40_000), Some(0));
    assert_eq!(remaining_interval(40_001), None);
    assert_eq!(remaining_interval(u64::MAX), None);
}

#[test]
fn led_codes() {
    let all = [
        (Led::Zero, 0x00),
        (Led::ScrollWheel, 0x01),
        (Led::Battery, 0x03),
        (Led::Logo, 0x04),
        (Led::Backlight, 0x05),
        (Led::Macro, 0x07),
        (Led::Game, 0x08),
        (Led::RedProfile, 0x0C),
        (Led::GreenProfile, 0x0D),
        (Led::BlueProfile, 0x0E),
        (Led::RightSide, 0x10),
        (Led::LeftSide, 0x11),
        (Led::Charging, 0x20),
        (Led::FastCharging, 0x21),
        (Led::FullyCharged, 0x22),
    ];
    for (led, code) in all.iter() {
        assert_eq!(led.code(), *code);
        assert_eq!(LedController::new(*led).led(), *led);
    }
    assert_eq!(LedStorage::NoStore.code(), 0);
    assert_eq!(LedStorage::VarStore.code(), 1);
}

#[test]
fn keys_are_ordered_as_listed() {
    assert!(Keys::KEY_BLANK < Keys::KEY_ESC);
    assert!(Keys::KEY_ESC < Keys::KEY_PAUSE_BREAK);
    assert_eq!(Keys::KEY_A, Keys::KEY_A);
    assert_ne!(Keys::KEY_A, Keys::KEY_S);
}
