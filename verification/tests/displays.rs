//! Displays: their identity, what the screen says of them, and how they
//! are switched on and off.

use x11_edid_auto::connection::{Output, Screen};
use x11_edid_auto::crtc::{Command, Crtc, Rotation};
use x11_edid_auto::errors::X11EDIDAutoError;
use x11_edid_auto::mode::{Mode, ModeCatalog};
use x11_edid_auto::monitor::Monitor;
use x11_edid_auto::reconcile::{
    belongs_to, discover, find_monitor, is_group_satisfied, same_identity, select_group,
};

fn block(manufacturer: u16, product: u16, serial: u32, len: usize) -> Vec<u8> {
    let mut bytes = vec![0xFFu8; 16];
    bytes[8..10].copy_from_slice(&manufacturer.to_be_bytes());
    bytes[10..12].copy_from_slice(&product.to_be_bytes());
    bytes[12..16].copy_from_slice(&serial.to_be_bytes());
    bytes.resize(len.max(16), 0x55);
    bytes.truncate(len);
    bytes
}

fn monitor(output: u32, manufacturer: u16, product: u16, serial: u32) -> Monitor {
    Monitor { output, edid: block(manufacturer, product, serial, 128) }
}

fn output(handle: u32, edid: Vec<u8>, crtc: u32, modes: Vec<u32>) -> Output {
    Output {
        handle,
        edid,
        name: format!("OUT-{}", handle),
        crtc,
        modes,
        mm_width: 500,
        mm_height: 300,
    }
}

fn crtc(handle: u32, x: i16, mode: u32, outputs: Vec<u32>, timestamp: u32) -> Crtc {
    Crtc {
        handle,
        x,
        y: 0,
        width: if mode == 0 { 0 } else { 1920 },
        height: if mode == 0 { 0 } else { 1080 },
        mode,
        rotation: Rotation::rotate0(),
        outputs,
        timestamp,
    }
}

fn screen(outputs: Vec<Output>, crtcs: Vec<Crtc>) -> Screen {
    let modes = vec![
        Mode { id: 100, width: 1920, height: 1080, dot_clock: 148_500_000 },
        Mode { id: 101, width: 1280, height: 720, dot_clock: 74_250_000 },
    ];
    Screen::new(ModeCatalog::new(&modes), outputs, crtcs)
}

fn strings(ids: &[&str]) -> Vec<String> {
    ids.iter().map(|id| id.to_string()).collect()
}

#[test]
fn identity_is_manufacturer_product_and_serial_in_hexadecimal() {
    assert_eq!(monitor(1, 0xAAAA, 0x0001, 0x0000_0001).monitor_id(), "AAAA:0001:00000001");
    assert_eq!(monitor(1, 0x10AC, 0xA0C4, 0x4C39_3153).monitor_id(), "10AC:A0C4:4C393153");
}

#[test]
fn identity_is_padded_with_zeros_and_upper_case() {
    assert_eq!(monitor(1, 0x000A, 0x0B00, 0x0000_C0DE).monitor_id(), "000A:0B00:0000C0DE");
    assert_eq!(monitor(1, 0, 0, 0).monitor_id(), "0000:0000:00000000");
    assert_eq!(monitor(1, 0xFFFF, 0xFFFF, 0xFFFF_FFFF).monitor_id(), "FFFF:FFFF:FFFFFFFF");
    assert_eq!(monitor(1, 0xABCD, 0xEF01, 0x2345_6789).monitor_id(), "ABCD:EF01:23456789");
}

#[test]
fn fields_are_read_big_endian_from_their_offsets() {
    let mut edid = vec![0u8; 20];
    for (i, byte) in edid.iter_mut().enumerate() {
        *byte = i as u8 + 1;
    }
    let monitor = Monitor { output: 9, edid };
    assert_eq!(monitor.manufacturer_id(), 0x090A);
    assert_eq!(monitor.product_code(), 0x0B0C);
    assert_eq!(monitor.serial_number(), 0x0D0E_0F10);
    assert_eq!(monitor.monitor_id(), "090A:0B0C:0D0E0F10");
}

#[test]
fn block_shorter_than_16_bytes_gives_no_identity() {
    for len in [0usize, 1, 8, 15] {
        let monitor = Monitor { output: 1, edid: block(0xAAAA, 1, 1, len) };
        assert!(!monitor.has_edid());
        assert_eq!(monitor.identity(), None);
    }
}

#[test]
fn block_of_16_bytes_or_more_gives_an_identity() {
    for len in [16usize, 17, 128, 256] {
        let monitor = Monitor { output: 1, edid: block(0xAAAA, 1, 1, len) };
        assert!(monitor.has_edid());
        assert_eq!(monitor.identity(), Some("AAAA:0001:00000001".to_string()));
    }
}

#[test]
fn identities_are_the_same_exactly_when_bytes_8_to_15_are() {
    let a = block(0xAAAA, 1, 1, 128);
    let mut b = block(0xAAAA, 1, 1, 16);
    b[0] = 0;
    assert!(same_identity(&a, &b));
    for at in 8..16 {
        let mut other = a.clone();
        other[at] ^= 1;
        assert!(!same_identity(&a, &other));
    }
}

#[test]
fn monitor_is_made_from_the_output_on_the_screen() {
    let screen = screen(
        vec![output(1, vec![], 0, vec![]), output(2, block(0xBBBB, 2, 2, 128), 0, vec![])],
        vec![],
    );
    let monitor = Monitor::new(&screen, 2).unwrap();
    assert_eq!(monitor.output, 2);
    assert_eq!(monitor.edid, block(0xBBBB, 2, 2, 128));
    assert!(!Monitor::new(&screen, 1).unwrap().has_edid());
    assert_eq!(Monitor::new(&screen, 3).unwrap_err().output, 3);
}

#[test]
fn name_and_crtc_are_what_the_screen_says_now() {
    let monitor = monitor(2, 0xBBBB, 2, 2);
    let before = screen(vec![output(2, vec![], 0, vec![])], vec![]);
    let after = screen(vec![output(2, vec![], 77, vec![])], vec![]);
    assert_eq!(monitor.name(&before).unwrap(), "OUT-2");
    assert_eq!(monitor.crtc(&before).unwrap(), 0);
    assert_eq!(monitor.crtc(&after).unwrap(), 77);
    let gone = screen(vec![], vec![]);
    assert_eq!(monitor.name(&gone).unwrap_err().output, 2);
    assert_eq!(monitor.crtc(&gone).unwrap_err().output, 2);
}

#[test]
fn report_lines_quote_identity_and_name() {
    let monitor = monitor(2, 0xBBBB, 2, 0xDEAD_BEEF);
    let mut listed = output(2, vec![], 4_000_000_000, vec![]);
    listed.name = "e\"DP\\1\n".to_string();
    let lines = monitor.monitor_info(&screen(vec![listed], vec![])).unwrap();
    assert_eq!(
        lines,
        vec![
            "edid: \"BBBB:0002:DEADBEEF\"".to_string(),
            "name: \"e\\\"DP\\\\1\\n\"".to_string(),
            "crtc: 4000000000".to_string(),
        ]
    );
    assert_eq!(monitor.monitor_info(&screen(vec![], vec![])).unwrap_err().output, 2);
}

#[test]
fn best_mode_of_a_display_is_chosen_among_its_own_modes() {
    let monitor = monitor(2, 0xBBBB, 2, 2);
    let with_both = screen(vec![output(2, vec![], 0, vec![101, 100])], vec![]);
    assert_eq!(monitor.mode_info(&with_both).unwrap().id, 100);
    let with_small = screen(vec![output(2, vec![], 0, vec![101, 55])], vec![]);
    assert_eq!(monitor.mode_info(&with_small).unwrap().id, 101);
    let with_none = screen(vec![output(2, vec![], 0, vec![55])], vec![]);
    assert!(matches!(monitor.mode_info(&with_none), Err(X11EDIDAutoError::NoModesError(_))));
    let gone = screen(vec![], vec![]);
    assert!(matches!(monitor.mode_info(&gone), Err(X11EDIDAutoError::OutputNotFoundError(_))));
}

#[test]
fn enabling_takes_the_first_free_crtc_when_none_drives_the_display() {
    let monitor = monitor(2, 0xBBBB, 2, 2);
    let screen = screen(
        vec![output(2, vec![], 0, vec![100])],
        vec![crtc(0, 0, 0, vec![], 3), crtc(10, 0, 100, vec![9], 4), crtc(11, 0, 0, vec![], 5), crtc(12, 0, 0, vec![], 6)],
    );
    assert_eq!(
        monitor.enable(&screen, 640).unwrap(),
        Some(Command::SetCrtcConfig {
            crtc: 11,
            config_timestamp: 5,
            x: 640,
            y: 0,
            mode: 100,
            rotation: Rotation::rotate0(),
            outputs: vec![2],
        })
    );
}

#[test]
fn enabling_keeps_the_crtc_that_drives_the_display() {
    let monitor = monitor(2, 0xBBBB, 2, 2);
    let screen = screen(
        vec![output(2, vec![], 12, vec![100])],
        vec![crtc(11, 0, 0, vec![], 5), crtc(12, 0, 101, vec![2], 6)],
    );
    assert_eq!(
        monitor.enable(&screen, 0).unwrap(),
        Some(Command::SetCrtcConfig {
            crtc: 12,
            config_timestamp: 6,
            x: 0,
            y: 0,
            mode: 100,
            rotation: Rotation::rotate0(),
            outputs: vec![2],
        })
    );
}

#[test]
fn enabling_writes_nothing_when_the_display_is_as_asked() {
    let monitor = monitor(2, 0xBBBB, 2, 2);
    let screen = screen(vec![output(2, vec![], 12, vec![100])], vec![crtc(12, 640, 100, vec![2], 6)]);
    assert_eq!(monitor.enable(&screen, 640).unwrap(), None);
    assert!(monitor.enable(&screen, 641).unwrap().is_some());
}

#[test]
fn enabling_fails_without_a_free_crtc() {
    let monitor = monitor(2, 0xBBBB, 2, 2);
    let screen = screen(
        vec![output(2, vec![], 0, vec![100])],
        vec![crtc(0, 0, 0, vec![], 1), crtc(10, 0, 100, vec![9], 1)],
    );
    assert!(matches!(monitor.enable(&screen, 0), Err(X11EDIDAutoError::NoFreeCrtcError(_))));
}

#[test]
fn enabling_fails_when_the_crtc_of_the_display_is_not_on_the_screen() {
    let monitor = monitor(2, 0xBBBB, 2, 2);
    let screen = screen(vec![output(2, vec![], 12, vec![100])], vec![crtc(11, 0, 0, vec![], 5)]);
    match monitor.enable(&screen, 0) {
        Err(X11EDIDAutoError::CrtcNotFoundError(error)) => assert_eq!(error.crtc, 12),
        other => panic!("unexpected: {:?}", other),
    }
}

#[test]
fn disabling_switches_the_crtc_of_the_display_off() {
    let monitor = monitor(2, 0xBBBB, 2, 2);
    let screen = screen(vec![output(2, vec![], 12, vec![100])], vec![crtc(12, 640, 100, vec![2], 6)]);
    assert_eq!(
        monitor.disable(&screen).unwrap(),
        Some(Command::SetCrtcConfig {
            crtc: 12,
            config_timestamp: 6,
            x: 0,
            y: 0,
            mode: 0,
            rotation: Rotation::rotate0(),
            outputs: vec![],
        })
    );
}

#[test]
fn disabling_writes_nothing_for_a_display_that_is_off() {
    let monitor = monitor(2, 0xBBBB, 2, 2);
    let unbound = screen(vec![output(2, vec![], 0, vec![100])], vec![crtc(12, 0, 100, vec![9], 6)]);
    assert_eq!(monitor.disable(&unbound).unwrap(), None);
    let idle = screen(vec![output(2, vec![], 12, vec![100])], vec![crtc(12, 5, 0, vec![], 6)]);
    assert_eq!(monitor.disable(&idle).unwrap(), None);
}

#[test]
fn disabling_fails_when_the_display_is_gone() {
    let monitor = monitor(2, 0xBBBB, 2, 2);
    match monitor.disable(&screen(vec![], vec![])) {
        Err(X11EDIDAutoError::OutputNotFoundError(error)) => assert_eq!(error.output, 2),
        other => panic!("unexpected: {:?}", other),
    }
}

#[test]
fn primary_command_names_the_output_of_the_display() {
    assert_eq!(monitor(42, 1, 2, 3).set_primary(), Command::SetOutputPrimary { output: 42 });
}

#[test]
fn outputs_without_an_identity_are_not_discovered() {
    let screen = screen(
        vec![
            output(1, vec![], 0, vec![]),
            output(2, block(0xBBBB, 2, 2, 128), 0, vec![]),
            output(3, block(0xCCCC, 3, 3, 15), 0, vec![]),
            output(4, block(0xDDDD, 4, 4, 16), 0, vec![]),
        ],
        vec![],
    );
    let found = discover(&screen);
    assert_eq!(
        found,
        vec![
            Monitor { output: 2, edid: block(0xBBBB, 2, 2, 128) },
            Monitor { output: 4, edid: block(0xDDDD, 4, 4, 16) },
        ]
    );
    // The identity that the short block would spell satisfies no group.
    assert!(!is_group_satisfied(&strings(&["CCCC:0003:00000003"]), &found));
    assert_eq!(select_group(&vec![strings(&["CCCC:0003:00000003"])], &found), None);
}

#[test]
fn the_later_of_two_outputs_with_one_identity_is_discovered() {
    let screen = screen(
        vec![
            output(1, block(0xAAAA, 1, 1, 128), 0, vec![]),
            output(2, block(0xBBBB, 2, 2, 128), 0, vec![]),
            output(3, block(0xAAAA, 1, 1, 64), 0, vec![]),
        ],
        vec![],
    );
    let found = discover(&screen);
    assert_eq!(found.iter().map(|monitor| monitor.output).collect::<Vec<u32>>(), vec![2, 3]);
}

#[test]
fn first_satisfied_group_is_selected() {
    let monitors = vec![monitor(1, 0xBBBB, 2, 2), monitor(2, 0xCCCC, 3, 3)];
    let groups = vec![
        strings(&["AAAA:0001:00000001", "BBBB:0002:00000002"]),
        strings(&["CCCC:0003:00000003"]),
        strings(&["BBBB:0002:00000002", "CCCC:0003:00000003"]),
    ];
    assert_eq!(select_group(&groups, &monitors), Some(1));
    assert_eq!(select_group(&groups[..1].to_vec(), &monitors), None);
    assert_eq!(select_group(&groups[2..].to_vec(), &monitors), Some(0));
    assert_eq!(select_group(&vec![], &monitors), None);
}

#[test]
fn identities_are_matched_exactly() {
    let monitors = vec![monitor(1, 0xBBBB, 2, 2)];
    assert!(is_group_satisfied(&strings(&["BBBB:0002:00000002"]), &monitors));
    assert!(!is_group_satisfied(&strings(&["bbbb:0002:00000002"]), &monitors));
    assert!(!is_group_satisfied(&strings(&["BBBB:2:2"]), &monitors));
    assert!(!is_group_satisfied(&strings(&["BBBB:0002:00000002 "]), &monitors));
    assert!(is_group_satisfied(&strings(&[]), &monitors));
    assert!(is_group_satisfied(&strings(&["BBBB:0002:00000002", "BBBB:0002:00000002"]), &monitors));
}

#[test]
fn monitor_is_found_by_its_identity() {
    let monitors = vec![monitor(1, 0xBBBB, 2, 2), monitor(2, 0xCCCC, 3, 3)];
    assert_eq!(find_monitor(&monitors, &"CCCC:0003:00000003".to_string()), Some(1));
    assert_eq!(find_monitor(&monitors, &"BBBB:0002:00000002".to_string()), Some(0));
    assert_eq!(find_monitor(&monitors, &"DDDD:0004:00000004".to_string()), None);
}

#[test]
fn group_names_an_identity_or_not() {
    let group = strings(&["AAAA:0001:00000001", "BBBB:0002:00000002"]);
    assert!(belongs_to(&group, &"BBBB:0002:00000002".to_string()));
    assert!(!belongs_to(&group, &"CCCC:0003:00000003".to_string()));
    assert!(!belongs_to(&vec![], &"CCCC:0003:00000003".to_string()));
}
