//! What is decided from a screen: free CRTCs, writes, and the screen size.

use x11_edid_auto::connection::{window_root, Output, Screen};
use x11_edid_auto::crtc::{copy_handles, same_handles, Command, Crtc, Rotation};
use x11_edid_auto::errors::X11EDIDAutoError;
use x11_edid_auto::mode::ModeCatalog;

fn output(handle: u32, mm_width: u32, mm_height: u32) -> Output {
    Output {
        handle,
        edid: vec![],
        name: String::new(),
        crtc: 0,
        modes: vec![],
        mm_width,
        mm_height,
    }
}

fn crtc(handle: u32, mode: u32, size: (u16, u16), outputs: Vec<u32>) -> Crtc {
    Crtc {
        handle,
        x: 0,
        y: 0,
        width: size.0,
        height: size.1,
        mode,
        rotation: Rotation::rotate0(),
        outputs,
        timestamp: 77,
    }
}

fn screen(outputs: Vec<Output>, crtcs: Vec<Crtc>) -> Screen {
    Screen::new(ModeCatalog::new(&vec![]), outputs, crtcs)
}

#[test]
fn root_window_of_a_screen_that_exists() {
    assert_eq!(window_root(&vec![300, 400, 500], 0).unwrap(), 300);
    assert_eq!(window_root(&vec![300, 400, 500], 2).unwrap(), 500);
}

#[test]
fn no_root_window_for_a_screen_that_does_not_exist() {
    assert_eq!(window_root(&vec![300, 400, 500], 3).unwrap_err().screen_number, 3);
    assert_eq!(window_root(&vec![], 0).unwrap_err().screen_number, 0);
}

#[test]
fn first_crtc_without_a_mode_is_free() {
    let screen = screen(
        vec![],
        vec![
            crtc(10, 5, (1, 1), vec![]),
            crtc(11, 0, (0, 0), vec![]),
            crtc(12, 0, (0, 0), vec![]),
        ],
    );
    assert_eq!(screen.get_free_crtc().unwrap(), 11);
}

#[test]
fn reserved_handle_is_never_free() {
    let screen = screen(vec![], vec![crtc(0, 0, (0, 0), vec![]), crtc(12, 0, (0, 0), vec![])]);
    assert_eq!(screen.get_free_crtc().unwrap(), 12);
}

#[test]
fn no_crtc_is_free_when_all_run_a_mode() {
    assert!(screen(vec![], vec![]).get_free_crtc().is_err());
    let busy = screen(vec![], vec![crtc(0, 0, (0, 0), vec![]), crtc(10, 5, (1, 1), vec![])]);
    assert!(busy.get_free_crtc().is_err());
}

#[test]
fn outputs_and_crtcs_are_found_by_handle() {
    let screen = screen(
        vec![output(1, 10, 20), output(2, 30, 40)],
        vec![crtc(10, 0, (0, 0), vec![]), crtc(11, 5, (6, 7), vec![2])],
    );
    assert_eq!(screen.get_output_info(2).unwrap().mm_width, 30);
    assert_eq!(screen.get_output_info(3).unwrap_err().output, 3);
    assert_eq!(screen.get_crtc_info(11).unwrap().mode, 5);
    assert_eq!(screen.get_crtc_info(12).unwrap_err().crtc, 12);
}

#[test]
fn settled_crtc_is_not_written() {
    let live = Crtc {
        handle: 10,
        x: 100,
        y: 50,
        width: 1920,
        height: 1080,
        mode: 7,
        rotation: Rotation { bits: 2 },
        outputs: vec![4, 5],
        timestamp: 9,
    };
    assert_eq!(live.set_crtc_config(100, 50, 7, Rotation { bits: 2 }, &vec![4, 5], 10), None);
}

#[test]
fn crtc_is_written_when_any_value_differs() {
    let live = Crtc {
        handle: 10,
        x: 100,
        y: 50,
        width: 1920,
        height: 1080,
        mode: 7,
        rotation: Rotation { bits: 2 },
        outputs: vec![4, 5],
        timestamp: 9,
    };
    let turned = Rotation { bits: 2 };
    assert!(live.set_crtc_config(101, 50, 7, turned, &vec![4, 5], 10).is_some());
    assert!(live.set_crtc_config(100, 51, 7, turned, &vec![4, 5], 10).is_some());
    assert!(live.set_crtc_config(100, 50, 8, turned, &vec![4, 5], 10).is_some());
    assert!(live.set_crtc_config(100, 50, 7, Rotation::rotate0(), &vec![4, 5], 10).is_some());
    assert!(live.set_crtc_config(100, 50, 7, turned, &vec![5, 4], 10).is_some());
    assert!(live.set_crtc_config(100, 50, 7, turned, &vec![4], 10).is_some());
    // Another CRTC than the one bound before is written even if it is as asked.
    assert!(live.set_crtc_config(100, 50, 7, turned, &vec![4, 5], 11).is_some());
    assert!(live.set_crtc_config(100, 50, 7, turned, &vec![4, 5], 0).is_some());
}

#[test]
fn write_names_the_stamp_that_was_read() {
    let live = crtc(10, 0, (0, 0), vec![]);
    assert_eq!(
        live.set_crtc_config(-5, 6, 7, Rotation { bits: 4 }, &vec![8, 9], 0),
        Some(Command::SetCrtcConfig {
            crtc: 10,
            config_timestamp: 77,
            x: -5,
            y: 6,
            mode: 7,
            rotation: Rotation { bits: 4 },
            outputs: vec![8, 9],
        })
    );
}

#[test]
fn second_request_after_the_write_was_taken_writes_nothing() {
    let mut live = crtc(10, 3, (800, 600), vec![1]);
    let first = live.set_crtc_config(640, 0, 7, Rotation::rotate0(), &vec![2], 10);
    match first {
        Some(Command::SetCrtcConfig { x, y, mode, rotation, outputs, .. }) => {
            live.x = x;
            live.y = y;
            live.mode = mode;
            live.rotation = rotation;
            live.outputs = outputs;
            live.timestamp += 1;
        },
        other => panic!("unexpected: {:?}", other),
    }
    assert_eq!(live.set_crtc_config(640, 0, 7, Rotation::rotate0(), &vec![2], 10), None);
}

#[test]
fn switching_off_a_crtc_that_runs_no_mode_writes_nothing() {
    let mut idle = crtc(10, 0, (0, 0), vec![]);
    idle.x = 17;
    assert_eq!(idle.set_crtc_config(0, 0, 0, Rotation::rotate0(), &vec![], 99), None);
    let busy = crtc(10, 5, (1, 1), vec![3]);
    assert!(busy.set_crtc_config(0, 0, 0, Rotation::rotate0(), &vec![], 10).is_some());
}

#[test]
fn screen_looks_the_crtc_up_before_it_decides() {
    let screen = screen(vec![], vec![crtc(10, 5, (1, 1), vec![3])]);
    assert_eq!(screen.set_crtc_config(10, 0, 0, 5, Rotation::rotate0(), &vec![3], 10).unwrap(), None);
    assert!(screen.set_crtc_config(10, 1, 0, 5, Rotation::rotate0(), &vec![3], 10).unwrap().is_some());
    assert_eq!(
        screen.set_crtc_config(11, 0, 0, 5, Rotation::rotate0(), &vec![3], 10).unwrap_err().crtc,
        11
    );
}

#[test]
fn screen_size_adds_widths_and_takes_the_largest_heights() {
    let screen = screen(
        vec![output(1, 520, 290), output(2, 600, 340), output(3, 300, 400)],
        vec![
            crtc(10, 5, (1920, 1080), vec![2]),
            crtc(11, 0, (9999, 9999), vec![]),
            crtc(12, 6, (2560, 1440), vec![1]),
            crtc(13, 7, (1280, 720), vec![3]),
        ],
    );
    assert_eq!(
        screen.update_screen_size().unwrap(),
        Command::SetScreenSize {
            width: 1920 + 2560 + 1280,
            height: 1440,
            mm_width: 600 + 520 + 300,
            mm_height: 400,
        }
    );
}

#[test]
fn screen_without_an_active_crtc_has_no_size() {
    let screen = screen(vec![output(1, 520, 290)], vec![crtc(10, 0, (5, 5), vec![1])]);
    assert_eq!(
        screen.update_screen_size().unwrap(),
        Command::SetScreenSize { width: 0, height: 0, mm_width: 0, mm_height: 0 }
    );
}

#[test]
fn active_crtc_with_two_outputs_cannot_be_measured() {
    let screen = screen(
        vec![output(1, 520, 290), output(2, 600, 340)],
        vec![crtc(10, 5, (1920, 1080), vec![1]), crtc(11, 5, (1920, 1080), vec![1, 2])],
    );
    match screen.update_screen_size() {
        Err(X11EDIDAutoError::CrtcDoesNotHaveExactlyOneOutput(error)) => {
            assert_eq!(error.outputs_len, 2)
        },
        other => panic!("unexpected: {:?}", other),
    }
}

#[test]
fn active_crtc_without_an_output_cannot_be_measured() {
    let screen = screen(vec![], vec![crtc(10, 5, (1920, 1080), vec![])]);
    match screen.update_screen_size() {
        Err(X11EDIDAutoError::CrtcDoesNotHaveExactlyOneOutput(error)) => {
            assert_eq!(error.outputs_len, 0)
        },
        other => panic!("unexpected: {:?}", other),
    }
}

#[test]
fn active_crtc_with_an_output_that_is_not_listed_cannot_be_measured() {
    let screen = screen(vec![output(1, 520, 290)], vec![crtc(10, 5, (1920, 1080), vec![2])]);
    match screen.update_screen_size() {
        Err(X11EDIDAutoError::OutputNotFoundError(error)) => assert_eq!(error.output, 2),
        other => panic!("unexpected: {:?}", other),
    }
}

#[test]
fn first_crtc_that_cannot_be_measured_decides_the_failure() {
    let screen = screen(
        vec![output(1, 520, 290)],
        vec![
            crtc(10, 5, (60000, 1080), vec![1]),
            crtc(11, 5, (60000, 1080), vec![9]),
            crtc(12, 5, (1920, 1080), vec![1, 2, 3]),
        ],
    );
    match screen.update_screen_size() {
        Err(X11EDIDAutoError::OutputNotFoundError(error)) => assert_eq!(error.output, 9),
        other => panic!("unexpected: {:?}", other),
    }
}

#[test]
fn screen_size_fails_when_the_widths_do_not_fit() {
    let wide = screen(
        vec![output(1, 520, 290)],
        vec![crtc(10, 5, (40000, 10), vec![1]), crtc(11, 5, (25536, 10), vec![1])],
    );
    assert!(matches!(
        wide.update_screen_size(),
        Err(X11EDIDAutoError::ScreenSizeOutOfRangeError(_))
    ));
    let fits = screen(
        vec![output(1, 520, 290)],
        vec![crtc(10, 5, (40000, 10), vec![1]), crtc(11, 5, (25535, 10), vec![1])],
    );
    assert_eq!(
        fits.update_screen_size().unwrap(),
        Command::SetScreenSize { width: 65535, height: 10, mm_width: 1040, mm_height: 290 }
    );
    let long = screen(
        vec![output(1, 3_000_000_000, 1)],
        vec![crtc(10, 5, (1, 1), vec![1]), crtc(11, 5, (1, 1), vec![1])],
    );
    assert!(matches!(
        long.update_screen_size(),
        Err(X11EDIDAutoError::ScreenSizeOutOfRangeError(_))
    ));
}

#[test]
fn lists_of_handles_are_compared_and_copied_in_order() {
    assert!(same_handles(&vec![], &vec![]));
    assert!(same_handles(&vec![1, 2, 3], &vec![1, 2, 3]));
    assert!(!same_handles(&vec![1, 2, 3], &vec![1, 3, 2]));
    assert!(!same_handles(&vec![1, 2, 3], &vec![1, 2]));
    assert_eq!(copy_handles(&vec![3, 1, 2]), vec![3, 1, 2]);
}

#[test]
fn unrotated_word_is_the_lowest_bit() {
    assert_eq!(Rotation::rotate0(), Rotation { bits: 1 });
}
