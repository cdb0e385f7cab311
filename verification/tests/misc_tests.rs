use denocore::convert::OptionNull;
use denocore::convert::OptionUndefined;
use denocore::convert::SmallInt;
use denocore::convert::Smi;
use denocore::event_loop::EventLoopPhase;
use denocore::event_loop::EventLoopPhases;
use denocore::extensions::ExtensionFileSource;
use denocore::extensions::ExtensionFileSourceCode;
use denocore::feature_checker::FeatureChecker;
use denocore::text::parse_i64;
use denocore::text::replace_all_bytes;
use std::cell::Cell;

#[test]
fn test_feature_checker() {
    let exit_count = Cell::new(0usize);
    let exit_cb = |_feature: &str, _api_name: &str| {
        exit_count.set(exit_count.get() + 1);
    };

    let mut checker = FeatureChecker::new(exit_cb);
    checker.set_exit_cb(exit_cb);
    checker.enable_feature("foobar");

    assert!(checker.check("foobar"));
    assert!(!checker.check("fizzbuzz"));

    checker.check_or_exit("foobar", "foo");
    assert_eq!(exit_count.get(), 0);
    checker.check_or_exit("fizzbuzz", "foo");
    assert_eq!(exit_count.get(), 1);
}

#[test]
fn extension_sources() {
    let src = ExtensionFileSource {
        specifier: "ext:test/a.js",
        code: ExtensionFileSourceCode::IncludedInBinary("export const a = 1;"),
    };
    assert_eq!(src.load(), Some("export const a = 1;".to_string()));
    assert_eq!(src.check_ascii("plain"), None);
    assert_eq!(
        src.check_ascii("ä=1;é"),
        Some("Extension code must be 7-bit ASCII: ext:test/a.js (found äé)".to_string())
    );
    assert_eq!(ExtensionFileSource::find_non_ascii("a🦕b東"), "🦕東");
    let on_disk = ExtensionFileSource {
        specifier: "ext:test/b.js",
        code: ExtensionFileSourceCode::LoadedFromFsDuringSnapshot("b.js"),
    };
    assert_eq!(on_disk.load(), None);
}

#[test]
fn event_loop_phases() {
    let all = EventLoopPhase::all();
    assert_eq!(all.len(), 7);
    assert_eq!(all[0], EventLoopPhase::Timers);
    assert_eq!(all[6], EventLoopPhase::CloseCallbacks);
    let ran = Cell::new(0u32);
    let mut phases: EventLoopPhases<Box<dyn FnOnce() + '_>, Box<dyn Fn() + '_>> = EventLoopPhases::new();
    assert!(!phases.has_pending_work());
    phases.pending_callbacks.push_back(Box::new(|| ran.set(ran.get() + 1)));
    phases.close_callbacks.push_back(Box::new(|| ran.set(ran.get() + 10)));
    phases.idle_observers.push(Box::new(|| ran.set(ran.get() + 100)));
    assert!(phases.has_pending_work());
    phases.run_pending_callbacks();
    phases.run_close_callbacks();
    phases.run_idle();
    phases.run_idle();
    phases.run_prepare();
    phases.run_check();
    assert_eq!(ran.get(), 211);
    assert!(phases.pending_callbacks.is_empty());
}

#[test]
fn small_ints_and_options() {
    assert_eq!(Smi(7u8).0.as_i32(), 7);
    assert_eq!(u16::from_i32(65537), 1);
    assert_eq!(i8::from_i32(-1), -1);
    assert_eq!(OptionNull::from(Some(3)).into_option(), Some(3));
    assert_eq!(OptionUndefined::<u8>::from(None).into_option(), None);
}

#[test]
fn text_helpers() {
    assert_eq!(parse_i64(b"-42"), Some(-42));
    assert_eq!(parse_i64(b""), None);
    assert_eq!(replace_all_bytes(b"aXbXXc", b"X", b"--"), b"a--b----c".to_vec());
    assert_eq!(replace_all_bytes(b"abab", b"aba", b"."), b".b".to_vec());
}

#[test]
fn pending_and_close_callbacks_each_run_once_in_order() {
    let log = std::cell::RefCell::new(Vec::new());
    let mut phases: EventLoopPhases<Box<dyn FnOnce() + '_>, Box<dyn Fn() + '_>> = EventLoopPhases::new();
    for i in 0..3u32 {
        let log = &log;
        phases.pending_callbacks.push_back(Box::new(move || log.borrow_mut().push(i)));
    }
    for i in 10..12u32 {
        let log = &log;
        phases.close_callbacks.push_back(Box::new(move || log.borrow_mut().push(i)));
    }
    phases.run_pending_callbacks();
    assert_eq!(*log.borrow(), vec![0, 1, 2]);
    assert_eq!(phases.close_callbacks.len(), 2);
    phases.run_close_callbacks();
    assert_eq!(*log.borrow(), vec![0, 1, 2, 10, 11]);
    phases.run_pending_callbacks();
    phases.run_close_callbacks();
    assert_eq!(log.borrow().len(), 5);
    assert!(!phases.has_pending_work());
}
