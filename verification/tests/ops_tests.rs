use denocore::module_specifier::ModuleSpecifier;
use denocore::ops::release;
use denocore::ops::reentrancy_check;
use denocore::ops::unref_step;
use denocore::ops::CurrentOp;
use denocore::ops::ExternalOpsTracker;
use denocore::ops::OpMetadata;
use denocore::ops::OpMetricsSummary;
use denocore::ops_builtin::apply_source_map;
use denocore::ops_builtin::module_load_line_and_column;
use denocore::ops_builtin::op_add;
use denocore::ops_builtin::op_apply_source_map;
use denocore::ops_builtin::op_apply_source_map_filename;
use denocore::ops_builtin::op_format_file_name;
use denocore::ops_builtin::op_has_tick_scheduled;
use denocore::ops_builtin::op_set_has_tick_scheduled;
use denocore::ops_builtin::op_void_sync;
use denocore::ops_builtin::referrer_after_source_map;
use denocore::ops_builtin::source_mapped_module_load_referrer;
use denocore::ops_builtin::strip_bom;
use denocore::ops_builtin::write_line_and_col_to_ret_buf;
use denocore::ops_builtin::JsRuntimeState;
use denocore::ops_builtin::Location;
use denocore::ops_builtin::MemoryUsage;
use denocore::ops_builtin::SourceMapApplication;
use denocore::ops_builtin::SourceMapCache;
use denocore::resource_table::ResourceTable;

#[test]
fn located_script_name() {
    // The call site is passed in; its line and column are not checked.
    let name = denocore::located_script_name("core/lib.rs", 233, 16);
    let expected = "[ext:core/lib.rs:";
    assert_eq!(&name[..expected.len()], expected);
    assert_eq!(name, "[ext:core/lib.rs:233:16]");
}

fn state() -> JsRuntimeState {
    JsRuntimeState {
        has_tick_scheduled: false,
        has_source_map_getter: true,
        source_map_cache: SourceMapCache { stashed_file_name: None },
    }
}

#[test]
fn simple_ops() {
    assert_eq!(op_add(2, -5), -3);
    op_void_sync();
    assert_eq!(op_format_file_name("file:///%E6%9D%B1.ts"), "file:///東.ts");
    let mut s = state();
    assert!(!op_has_tick_scheduled(&s));
    op_set_has_tick_scheduled(&mut s, true);
    assert!(op_has_tick_scheduled(&s));
    let m = MemoryUsage { physical_total: 1, heap_total: 2, heap_used: 3, external: 4 };
    assert_eq!(m.heap_used, 3);
    let l = Location { file_name: "a.js".to_string(), line_number: 1, column_number: 2 };
    assert_eq!(l.file_name, "a.js");
}

#[test]
fn ret_buf_is_little_endian() {
    let mut buf = [0u8; 10];
    write_line_and_col_to_ret_buf(&mut buf, 0x01020304, 258);
    assert_eq!(buf, [4, 3, 2, 1, 2, 1, 0, 0, 0, 0]);
}

#[test]
fn apply_source_map_results() {
    let mut s = state();
    let mut buf = [0u8; 8];
    assert_eq!(op_apply_source_map(&mut s, None, &mut buf).ok(), Some(0));
    assert_eq!(op_apply_source_map(&mut s, Some(SourceMapApplication::Unchanged), &mut buf).ok(), Some(0));
    let app = SourceMapApplication::LineAndColumn { line_number: 5, column_number: 6 };
    assert_eq!(op_apply_source_map(&mut s, Some(app), &mut buf).ok(), Some(1));
    assert_eq!(buf, [5, 0, 0, 0, 6, 0, 0, 0]);
    let app = SourceMapApplication::LineAndColumnAndFileName {
        file_name: "src.ts".to_string(),
        line_number: 7,
        column_number: 8,
    };
    assert_eq!(op_apply_source_map(&mut s, Some(app), &mut buf).ok(), Some(2));
    assert_eq!(op_apply_source_map_filename(&mut s).ok(), Some("src.ts".to_string()));
    let err = op_apply_source_map_filename(&mut s).err().unwrap();
    assert_eq!(err.get_class(), "TypeError");
    assert_eq!(err.get_message(), "No stashed file name");
    let mut short = [0u8; 4];
    let err = op_apply_source_map(&mut s, None, &mut short).err().unwrap();
    assert_eq!(err.get_message(), "retBuf must be 8 bytes");
    let (f, l, c) = apply_source_map(
        "a.js".to_string(),
        1,
        2,
        SourceMapApplication::LineAndColumn { line_number: 3, column_number: 4 },
    );
    assert_eq!((f.as_str(), l, c), ("a.js", 3, 4));
}

#[test]
fn bom_is_stripped() {
    assert_eq!(strip_bom(&[0xef, 0xbb, 0xbf, b'a']), b"a");
    assert_eq!(strip_bom(b"abc"), b"abc");
    assert_eq!(strip_bom(&[0xef, 0xbb]), &[0xef, 0xbb]);
}

#[test]
fn module_load_locations() {
    let code = b"ab\ncd\nef";
    assert_eq!(module_load_line_and_column(code, 0), Some((1, 1)));
    assert_eq!(module_load_line_and_column(code, 2), Some((1, 3)));
    assert_eq!(module_load_line_and_column(code, 4), Some((2, 2)));
    assert_eq!(module_load_line_and_column(code, 8), Some((3, 3)));
    assert_eq!(module_load_line_and_column(code, 9), None);
    assert_eq!(module_load_line_and_column(code, -1), None);
    let referrer = ModuleSpecifier::parse("file:///main.js").unwrap();
    let r = source_mapped_module_load_referrer(
        |_s: &str, l: u32, c: u32| SourceMapApplication::LineAndColumn { line_number: l + 10, column_number: c },
        &referrer,
        code,
        4,
    )
    .unwrap();
    assert_eq!((r.specifier.as_str(), r.line_number, r.column_number), ("file:///main.js", 12, 2));
    let moved = referrer_after_source_map(
        &referrer,
        1,
        1,
        SourceMapApplication::LineAndColumnAndFileName {
            file_name: "file:///orig.ts".to_string(),
            line_number: 4,
            column_number: 5,
        },
    )
    .unwrap();
    assert_eq!(moved.specifier.as_str(), "file:///orig.ts");
    let bad = referrer_after_source_map(
        &referrer,
        1,
        1,
        SourceMapApplication::LineAndColumnAndFileName {
            file_name: "no url".to_string(),
            line_number: 4,
            column_number: 5,
        },
    );
    assert!(bad.is_none());
}

#[test]
fn resource_table_ids_are_fresh() {
    let mut table: ResourceTable<&str> = ResourceTable::default();
    let a = table.add("a");
    let b = table.add("b");
    assert_eq!((a, b), (0, 1));
    assert!(table.has(a));
    assert_eq!(*table.get(b).unwrap(), "b");
    assert_eq!(table.take(a).ok(), Some("a"));
    assert!(!table.has(a));
    let err = table.take(a).err().unwrap();
    assert_eq!(err.get_class(), "BadResource");
    assert_eq!(err.get_message(), "Bad resource ID");
    let c = table.add("c");
    assert_eq!(c, 2);
    table.replace(c, "c2");
    assert_eq!(*table.get(c).unwrap(), "c2");
    assert_eq!(table.ids(), vec![1, 2]);
}

#[test]
fn ops_tracker_and_metrics() {
    assert_eq!(unref_step(0), None);
    assert_eq!(unref_step(3), Some(2));
    let tracker = ExternalOpsTracker::new();
    assert!(!tracker.has_pending_ops());
    tracker.ref_op();
    let shared = tracker.clone();
    assert!(shared.has_pending_ops());
    shared.unref_op();
    assert!(!tracker.has_pending_ops());
    tracker.unref_op();
    assert!(!tracker.has_pending_ops());
    let meta = OpMetadata::default();
    assert!(meta.sanitizer_details.is_none());
    let mut summary = OpMetricsSummary::default();
    assert!(!summary.has_outstanding_ops());
    summary.ops_dispatched_async = 2;
    summary.ops_completed_async = 1;
    assert!(summary.has_outstanding_ops());
}

#[test]
fn reentrancy_marks_the_running_op() {
    let mut current = CurrentOp { name: None };
    assert!(reentrancy_check(&mut current, "op_reentrant", true).is_none());
    assert_eq!(current.name, None);
    let guard = reentrancy_check(&mut current, "op_a", false).unwrap();
    assert_eq!(current.name, Some("op_a"));
    assert!(reentrancy_check(&mut current, "op_b", true).is_none());
    assert_eq!(current.name, Some("op_a"));
    release(&mut current, guard);
    assert_eq!(current.name, None);
}
