use mybar::alsa::Audio;
use mybar::components::Event;
use mybar::components::volume::{handle_event as volume_handle, volume_style, VolumeCommand};
use mybar::components::light::{handle_event as light_handle, light_bounds};
use mybar::error::MyBarError;
use mybar::light::{brightness_down, brightness_up, get_light};
use mybar::message::Message;
use mybar::util::{hex_to_argb, i32_to_string};

#[test]
fn test01() {
    let mut audio = Audio::new(0, 65536, true, 32768, true);
    println!("{}", audio.raw as f64 / (audio.max - audio.min) as f64);
    audio.set_volume_scaled(24, 100);
    let u = audio.is_unmuted();
    println!("{u}");
    audio.toggle_mute();
    assert_eq!(audio.is_unmuted(), !u);
}

#[test]
fn color_six_digits() {
    let c = hex_to_argb("#475164").unwrap();
    assert_eq!((c.a, c.r, c.g, c.b), (255, 0x47, 0x51, 0x64));
    assert_eq!((c.r, c.g, c.b), (71, 81, 100));
}

#[test]
fn color_eight_digits() {
    let c = hex_to_argb("#80FF9900").unwrap();
    assert_eq!((c.a, c.r, c.g, c.b), (128, 255, 153, 0));
}

#[test]
fn color_bad_length() {
    assert!(matches!(hex_to_argb("#abc"), Err(MyBarError::InvalidColor(_))));
    assert!(matches!(hex_to_argb("#1234567"), Err(MyBarError::InvalidColor(_))));
    assert!(matches!(hex_to_argb(""), Err(MyBarError::InvalidColor(_))));
}

#[test]
fn color_missing_hash() {
    assert!(matches!(hex_to_argb("475164"), Err(MyBarError::InvalidColor(_))));
}

#[test]
fn color_bad_digit() {
    assert!(matches!(hex_to_argb("#47516g"), Err(MyBarError::InvalidColor(_))));
    assert!(matches!(hex_to_argb("#ff33g90a"), Err(MyBarError::InvalidColor(_))));
}

#[test]
fn error_message_text() {
    let e = MyBarError::InvalidColor(String::from("bad"));
    assert_eq!(e.message(), "bad");
    let e = MyBarError::Other(String::from("boom"));
    assert_eq!(e.message(), "boom");
}

#[test]
fn volume_set_clamps() {
    // Requested normalized volumes and the device volume they must yield on
    // a 0..=65536 range: clamp into [0, 1], scale, round down.
    let cases: [(i64, i64, i64); 6] = [
        (-1, 10, 0),
        (0, 10, 0),
        (24, 100, 15728),
        (1, 2, 32768),
        (1, 1, 65536),
        (17, 10, 65536),
    ];
    for (num, den, expect) in cases {
        let mut audio = Audio::new(0, 65536, true, 0, true);
        audio.set_volume_scaled(num, den);
        assert_eq!(audio.raw, expect);
        assert!(0 <= audio.raw && audio.raw <= 65536);
    }
}

#[test]
fn volume_scroll_up_three_times() {
    // From 0.50, three wheel-up steps land near 0.65; each step can lose
    // under one device unit to rounding.
    let mut audio = Audio::new(0, 65536, true, 32768, true);
    let mut up = |a: &mut Audio| {
        let cmd = volume_handle(a, &Event::MouseClick { x: 1450, y: 10, button: 4 });
        assert_eq!(cmd, VolumeCommand::SetVolume);
    };
    up(&mut audio);
    up(&mut audio);
    up(&mut audio);
    assert_eq!(audio.raw, 42596);
    let observed = audio.raw as f64 / 65536.0;
    assert!((observed - 0.65).abs() < 3.0 / 65536.0);
}

#[test]
fn volume_scroll_down_clamps_to_zero() {
    let mut audio = Audio::new(0, 65536, true, 32768, true);
    for _ in 0..20 {
        let cmd = volume_handle(&mut audio, &Event::MouseClick { x: 1450, y: 10, button: 5 });
        assert_eq!(cmd, VolumeCommand::SetVolume);
    }
    assert_eq!(audio.raw, 0);
}

#[test]
fn mute_toggle_round_trip() {
    let mut audio = Audio::new(0, 65536, true, 100, true);
    audio.toggle_mute();
    assert!(!audio.is_unmuted());
    audio.toggle_mute();
    assert!(audio.is_unmuted());
    assert_eq!(audio.raw, 100);
}

#[test]
fn left_click_flips_mute_and_style() {
    let mut audio = Audio::new(0, 65536, true, 100, true);
    let (_, color_before) = volume_style(audio.is_unmuted());
    assert_eq!(color_before, "#ff3399");
    let cmd = volume_handle(&mut audio, &Event::MouseClick { x: 1450, y: 10, button: 1 });
    assert_eq!(cmd, VolumeCommand::ToggleMute);
    let (_, color_after) = volume_style(audio.is_unmuted());
    assert_eq!(color_after, "#666666");
}

#[test]
fn volume_other_buttons_do_nothing() {
    let mut audio = Audio::new(0, 65536, true, 100, true);
    for button in [2u8, 3] {
        let cmd = volume_handle(&mut audio, &Event::MouseClick { x: 1450, y: 10, button });
        assert_eq!(cmd, VolumeCommand::Nothing);
        assert_eq!(audio.raw, 100);
    }
    let cmd = volume_handle(&mut audio, &Event::KeyPress { keycode: 30 });
    assert_eq!(cmd, VolumeCommand::Nothing);
}

#[test]
fn brightness_steps_clamp() {
    assert_eq!(brightness_up(0), 5);
    assert_eq!(brightness_up(95), 100);
    assert_eq!(brightness_up(98), 100);
    assert_eq!(brightness_up(100), 100);
    assert_eq!(brightness_down(100), 95);
    assert_eq!(brightness_down(5), 0);
    assert_eq!(brightness_down(3), 0);
    assert_eq!(brightness_down(0), 0);
}

#[test]
fn brightness_read_is_resting_zero() {
    assert_eq!(get_light(), 0);
}

#[test]
fn light_wheel_events() {
    let b = light_bounds();
    assert_eq!((b.x, b.y, b.width, b.height), (1120, 0, 100, 40));
    assert_eq!(light_handle(50, &Event::MouseClick { x: 1150, y: 10, button: 4 }), Some(55));
    assert_eq!(light_handle(50, &Event::MouseClick { x: 1150, y: 10, button: 5 }), Some(45));
    assert_eq!(light_handle(50, &Event::MouseClick { x: 1150, y: 10, button: 1 }), None);
    assert_eq!(light_handle(50, &Event::KeyPress { keycode: 30 }), None);
}

#[test]
fn message_codec_round_trip() {
    assert_eq!(Message::Date.code(), 0);
    assert_eq!(Message::BspwmUpdate.code(), 1);
    assert_eq!(Message::from_code(Message::Date.code()), Message::Date);
    assert_eq!(Message::from_code(Message::BspwmUpdate.code()), Message::BspwmUpdate);
    assert_eq!(Message::from_code(7), Message::Date);
    assert_eq!(Message::BspwmUpdate.to_data(), [1, 0, 0, 0, 0]);
    assert_eq!(Message::Date.to_data(), [0, 0, 0, 0, 0]);
}

#[test]
fn number_rendering() {
    assert_eq!(i32_to_string(0), "0");
    assert_eq!(i32_to_string(7), "7");
    assert_eq!(i32_to_string(105), "105");
    assert_eq!(i32_to_string(-12), "-12");
}
