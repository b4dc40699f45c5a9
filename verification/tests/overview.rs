use pumpkin_gui::client::{handshake, keeps_reading, Greeting, Incoming, NOT_HELLO};
use pumpkin_gui::tabs::overview::{
    addresses, cores_caption, memory_caption, storage_caption, storage_value, throughput,
    uptime_caption,
};
use pumpkin_gui::theme::{is_even_row, palette_hex, rgb_parts};

#[test]
fn tile_captions() {
    assert_eq!(cores_caption(8), "8 cores");
    assert_eq!(memory_caption(2048, 3 * 1024 * 1024), "system 2 KiB / 3.0 MiB");
    assert_eq!(storage_value(None), "scanning…");
    assert_eq!(storage_value(Some(512)), "512 B");
    assert_eq!(storage_caption(1024, 2048), "1 KiB free of 2 KiB");
    assert_eq!(uptime_caption(3661), "up 1h 1m");
    assert_eq!(throughput(true, 2048), "↓ 2 KiB/s");
    assert_eq!(throughput(false, 0), "↑ 0 B/s");
}

#[test]
fn only_set_addresses_show() {
    assert_eq!(addresses("", ""), vec![]);
    assert_eq!(addresses("1.2.3.4:25565", ""), vec![("1.2.3.4:25565".to_owned(), "Java Edition")]);
    assert_eq!(
        addresses("a", "b"),
        vec![("a".to_owned(), "Java Edition"), ("b".to_owned(), "Bedrock Edition")]
    );
}

#[test]
fn the_handshake_needs_a_matching_hello() {
    assert_eq!(handshake(Greeting::Hello { protocol: 2 }, 2), Ok(()));
    let refused = handshake(Greeting::Hello { protocol: 3 }, 2).unwrap_err();
    assert!(refused.contains("protocol"));
    assert!(refused.contains('3'));
    assert_eq!(handshake(Greeting::Other, 2), Err(NOT_HELLO.to_owned()));
    assert_eq!(handshake(Greeting::Broken("eof".into()), 2), Err("eof".to_owned()));
    assert!(keeps_reading(Incoming::Update));
    assert!(!keeps_reading(Incoming::ShuttingDown));
    assert!(!keeps_reading(Incoming::Hello));
    assert!(!keeps_reading(Incoming::Broken));
}

#[test]
fn palette_colours() {
    assert_eq!(rgb_parts(0xff9d4d), (0xff, 0x9d, 0x4d));
    assert_eq!(rgb_parts(0x000000), (0, 0, 0));
    assert_eq!(palette_hex(true).accent, 0xff9d4d);
    assert_eq!(palette_hex(false).accent, 0xe0701a);
    assert_eq!(palette_hex(false).fg, 0x000000);
    assert!(is_even_row(0));
    assert!(!is_even_row(3));
}
