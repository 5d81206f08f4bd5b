use bench_suite_collect::accumulator::BatchAccumulator;
use bench_suite_collect::file_info::FileInfo;
use bench_suite_collect::lazy_read::{ContentSource, Error, LazyRead};
use bench_suite_collect::queue::ToCollectQueue;
use bench_suite_collect::registry::{get_collect_config, CollectorKind, InvalidBenchmark};
use bench_suite_collect::router::{fan_out, Registry, TableKey};
use bench_suite_collect::frame::ColumnType;
use bench_suite_collect::run::parse_status_text;
use bench_suite_collect::shrink::{narrow_signed, narrow_unsigned, shrink_plan, WideColumn};
use bench_suite_collect::run_config::{BenchSuiteConfig, BenchSuiteRun, FloatError, PositiveNonZeroF64};
use bench_suite_collect::system_load::{dropped_columns, idle_column, sadf_source_of, strip_header_mark};
use bench_suite_collect::status::{decide_status, runner_file_number, BenchSuiteCollectStatus};
use bench_suite_collect::tasks::BenchSuiteTasks;
use bench_suite_collect::text::{join, parse_i32, parse_u32, parse_u64, str_eq};

/// Bytes in memory that count how often they are read.
struct Memory {
    data: Vec<u8>,
    reads: usize,
}

impl ContentSource for Memory {
    fn read_all(&mut self) -> Result<Vec<u8>, std::io::Error> {
        self.reads += 1;
        Ok(std::mem::take(&mut self.data))
    }
}

fn memory(text: &str) -> Memory {
    Memory { data: text.as_bytes().to_vec(), reads: 0 }
}

fn run_named(benchmark: &str) -> BenchSuiteRun {
    BenchSuiteRun {
        benchmark: benchmark.to_string(),
        tar_file: "run.tar.xz".to_string(),
        iteration: 0,
        timeout: None,
        cpu_mask: None,
        jdk: None,
        process_count: None,
        gc: None,
        classpath: None,
        gc_logging: None,
        memory_ratio: None,
        concgcthreads: None,
        GCThreadCPUs: None,
        NonGCThreadCPUs: None,
        ResctrlIdleGCMask: None,
        ResctrlMarkingGCMask: None,
        ResctrlCollectingGCMask: None,
        ResctrlIdleAppMask: None,
        ResctrlMarkingAppMask: None,
        ResctrlCollectingAppMask: None,
        dacapo_benchmark: None,
        dacapo_location: None,
        dacapo_threads: None,
        dacapo_harness: None,
        threadstat_location: None,
        cos_config: None,
    }
}

fn open_filter() -> BenchSuiteConfig {
    BenchSuiteConfig {
        benchmark: None,
        tar_file: None,
        iteration: None,
        timeout: None,
        cpu_mask: None,
        jdk: None,
        process_count: None,
        gc: None,
        classpath: None,
        gc_logging: None,
        memory_ratio: None,
        concgcthreads: None,
        GCThreadCPUs: None,
        NonGCThreadCPUs: None,
        ResctrlIdleGCMask: None,
        ResctrlMarkingGCMask: None,
        ResctrlCollectingGCMask: None,
        ResctrlIdleAppMask: None,
        ResctrlMarkingAppMask: None,
        ResctrlCollectingAppMask: None,
        dacapo_benchmark: None,
        dacapo_location: None,
        dacapo_threads: None,
        dacapo_harness: None,
        threadstat_location: None,
        cos_config: None,
    }
}

#[test]
fn integer_text_reads_as_std_parse_does() {
    assert_eq!(parse_u64("42"), Some(42));
    assert_eq!(parse_u64("+7"), Some(7));
    assert_eq!(parse_u64("18446744073709551615"), Some(u64::MAX));
    assert_eq!(parse_u64("18446744073709551616"), None);
    assert_eq!(parse_u64(""), None);
    assert_eq!(parse_u64("+"), None);
    assert_eq!(parse_u64("1a"), None);
    assert_eq!(parse_u32("4294967296"), None);
    assert_eq!(parse_u32("0004294967295"), Some(u32::MAX));
    assert_eq!(parse_i32("-1"), Some(-1));
    assert_eq!(parse_i32("-2147483648"), Some(i32::MIN));
    assert_eq!(parse_i32("2147483648"), None);
    assert_eq!(parse_i32("-"), None);
}

#[test]
fn paths_join_with_one_slash() {
    assert_eq!(join("/data", "runs"), "/data/runs");
    assert_eq!(join("/data/", "runs"), "/data/runs");
    assert_eq!(join("", "runs"), "runs");
    assert!(str_eq("abc", "abc"));
    assert!(!str_eq("abc", "abd"));
}

#[test]
fn lazy_read_reads_once_and_converts() {
    let mut lr = LazyRead::new(memory("héllo"));
    assert_eq!(lr.get_bytes().unwrap(), "héllo".as_bytes());
    assert_eq!(lr.get_string().unwrap(), "héllo");
    assert_eq!(lr.get_bytes().unwrap(), "héllo".as_bytes());
    match lr {
        LazyRead::String(s) => assert_eq!(s, "héllo"),
        _ => panic!("text is kept"),
    }
}

#[test]
fn lazy_read_keeps_invalid_utf8_as_bytes() {
    let mut lr = LazyRead::new(Memory { data: vec![0xff, 0x41], reads: 0 });
    assert!(matches!(lr.get_string(), Err(Error::UTF8(_))));
    assert_eq!(lr.get_bytes().unwrap(), &[0xff, 0x41]);
    if let LazyRead::Orig(_) = lr {
        panic!("content is kept after the first read");
    }
}

#[test]
fn file_info_reads_its_source_once() {
    let mut f = FileInfo::new("status.txt", memory("ok"));
    assert_eq!(f.name(), "status.txt");
    assert_eq!(f.content_string().unwrap(), "ok");
    assert_eq!(f.content_bytes().unwrap(), b"ok");
}

#[test]
fn positive_float_bits_are_checked() {
    assert!(PositiveNonZeroF64::from_bits(1.5f64.to_bits()).is_ok());
    assert_eq!(PositiveNonZeroF64::from_bits(1.5f64.to_bits()).unwrap().to_bits(), 1.5f64.to_bits());
    assert_eq!(PositiveNonZeroF64::from_bits(0.0f64.to_bits()), Err(FloatError::Zero));
    assert_eq!(PositiveNonZeroF64::from_bits((-0.0f64).to_bits()), Err(FloatError::Negative((-0.0f64).to_bits())));
    assert_eq!(PositiveNonZeroF64::from_bits((-2.0f64).to_bits()), Err(FloatError::Negative((-2.0f64).to_bits())));
    assert_eq!(PositiveNonZeroF64::from_bits(f64::NAN.to_bits()), Err(FloatError::NaN));
    assert!(PositiveNonZeroF64::from_bits(f64::INFINITY.to_bits()).is_ok());
}

#[test]
fn filter_admits_listed_values_only() {
    let mut run = run_named("dacapo_samples2");
    run.gc = Some("ZGC".to_string());
    let mut filter = open_filter();
    assert!(filter.contains(&run));
    filter.benchmark = Some(vec!["mark_abuse".to_string()]);
    assert!(!filter.contains(&run));
    filter.benchmark = Some(vec!["mark_abuse".to_string(), "dacapo_samples2".to_string()]);
    assert!(filter.contains(&run));
    filter.jdk = Some(vec!["21".to_string()]);
    assert!(!filter.contains(&run), "a filtered optional field must be set");
    filter.jdk = None;
    filter.gc = Some(vec!["ZGC".to_string()]);
    assert!(filter.contains(&run));
    filter.iteration = Some(vec![1, 2]);
    assert!(!filter.contains(&run));
}

#[test]
fn tar_path_is_sixteen_hex_digits() {
    let tasks = BenchSuiteTasks::from_parts("/data".to_string(), vec![], vec![]).unwrap();
    assert_eq!(tasks.tar_file_path(255), "/data/runs/00000000000000FF.tar.xz");
    assert_eq!(tasks.tar_file_path(0xDEADBEEF), "/data/runs/00000000DEADBEEF.tar.xz");
    assert_eq!(tasks.get_path(), "/data");
}

#[test]
fn bad_run_id_is_named() {
    let r = BenchSuiteTasks::from_parts("/d".to_string(), vec![], vec![("x1".to_string(), run_named("a"))]);
    match r {
        Err(e) => assert_eq!(e.key, "x1"),
        Ok(_) => panic!("the key is no number"),
    }
}

#[test]
fn runs_without_partitions_are_not_collected() {
    let mut only_dacapo = open_filter();
    only_dacapo.benchmark = Some(vec!["dacapo_samples2".to_string()]);
    let tasks = BenchSuiteTasks::from_parts(
        "/d".to_string(),
        vec![("all".to_string(), open_filter()), ("dacapo".to_string(), only_dacapo)],
        vec![("1".to_string(), run_named("dacapo_samples2")), ("2".to_string(), run_named("mark_abuse"))],
    )
    .unwrap();
    assert_eq!(tasks.collection_names(), vec!["all".to_string(), "dacapo".to_string()]);
    let selected = tasks.to_collect();
    assert_eq!(selected.len(), 2);
    assert_eq!(selected[0].0, 1);
    assert_eq!(selected[0].2, vec!["all".to_string(), "dacapo".to_string()]);
    assert_eq!(selected[1].0, 2);
    assert_eq!(selected[1].2, vec!["all".to_string()]);

    let mut none = open_filter();
    none.benchmark = Some(vec!["other".to_string()]);
    let tasks = BenchSuiteTasks::from_parts(
        "/d".to_string(),
        vec![("p".to_string(), none)],
        vec![("3".to_string(), run_named("mark_abuse"))],
    )
    .unwrap();
    assert!(tasks.to_collect().is_empty());
}

#[test]
fn registry_knows_two_benchmark_types() {
    assert_eq!(get_collect_config("dacapo_samples2").unwrap().len(), 9);
    let mark = get_collect_config("mark_abuse").unwrap();
    assert_eq!(mark.len(), 7);
    assert!(!mark.contains(&CollectorKind::DacapoIteration));
    match get_collect_config("spec") {
        Err(e) => {
            assert_eq!(e.name(), "spec");
            assert_eq!(e.message(), "Benchmark spec does not havea collection config");
        }
        Ok(_) => panic!("unknown benchmark"),
    }
    assert_eq!(InvalidBenchmark::new("x".to_string()).name(), "x");
}

#[test]
fn queue_hands_out_each_item_once_in_order() {
    let mut q = ToCollectQueue::new(vec![1, 2, 3]);
    assert_eq!(q.remaining(), 3);
    assert_eq!(q.consume(), Some(1));
    assert_eq!(q.consume(), Some(2));
    assert_eq!(q.consume(), Some(3));
    assert_eq!(q.consume(), None);
}

#[test]
fn registry_binds_each_key_once() {
    let mut r: Registry<u32> = Registry::new();
    let k = TableKey::new("p".to_string(), "status".to_string());
    assert!(r.insert_if_absent(k.clone(), 1));
    assert!(!r.insert_if_absent(k.clone(), 2));
    assert_eq!(r.get(&k), Some(&1));
    assert_eq!(r.get(&TableKey::new("q".to_string(), "status".to_string())), None);
}

#[test]
fn every_table_goes_to_every_partition() {
    let parts = vec!["a".to_string(), "b".to_string()];
    let names = vec!["status".to_string(), "config".to_string()];
    let plan = fan_out(&parts, &names);
    let got: Vec<(String, String, usize)> =
        plan.into_iter().map(|(k, i)| (k.partition, k.table, i)).collect();
    assert_eq!(
        got,
        vec![
            ("a".to_string(), "status".to_string(), 0),
            ("b".to_string(), "status".to_string(), 0),
            ("a".to_string(), "config".to_string(), 1),
            ("b".to_string(), "config".to_string(), 1),
        ]
    );
    assert!(fan_out(&vec![], &names).is_empty());
}

#[test]
fn accumulator_below_threshold_flushes_once_at_close() {
    let mut acc = BatchAccumulator::new("/out/p/status".to_string(), 100);
    assert!(acc.push("a", 10).is_none());
    assert!(acc.push("b", 20).is_none());
    assert!(acc.push("c", 69).is_none());
    let seg = acc.close().unwrap();
    assert_eq!(seg.tables, vec!["a", "b", "c"]);
    assert_eq!(seg.index, 0);
    assert_eq!(seg.path, "/out/p/status_0.parquet");
}

#[test]
fn accumulator_flushes_at_the_crossing_append() {
    let mut acc = BatchAccumulator::new("loc".to_string(), 100);
    assert!(acc.push(1, 60).is_none());
    let seg = acc.push(2, 40).unwrap();
    assert_eq!(seg.tables, vec![1, 2]);
    assert_eq!(seg.path, "loc_0.parquet");
    assert_eq!(acc.index(), 1);
    assert!(acc.push(3, 5).is_none());
    let last = acc.close().unwrap();
    assert_eq!(last.tables, vec![3]);
    assert_eq!(last.index, 1);
    assert_eq!(last.path, "loc_1.parquet");
    let empty: BatchAccumulator<u8> = BatchAccumulator::new("e".to_string(), 1);
    assert!(empty.close().is_none());
}

#[test]
fn parse_status_joins_diagnostics() {
    assert_eq!(parse_status_text(&vec![]), None);
    assert_eq!(parse_status_text(&vec!["a".to_string()]), Some("a".to_string()));
    assert_eq!(parse_status_text(&vec!["a".to_string(), "b".to_string()]), Some("a; b".to_string()));
}

#[test]
fn runner_exit_files_are_recognised() {
    assert_eq!(runner_file_number("runner0.exit"), Some(0));
    assert_eq!(runner_file_number("runner12.exit"), Some(12));
    assert_eq!(runner_file_number("runner.exit"), None);
    assert_eq!(runner_file_number("runnerX.exit"), None);
    assert_eq!(runner_file_number("runner1.exitx"), None);
}

#[test]
fn failed_runner_overrides_success() {
    let mut c = BenchSuiteCollectStatus::new();
    c.record_file(&mut FileInfo::new("status.txt", memory("success\n"))).unwrap();
    c.record_file(&mut FileInfo::new("runner0.exit", memory("1\n"))).unwrap();
    assert_eq!(c.final_status(), "runner0 exited with code 1");
}

#[test]
fn smallest_failed_runner_is_named() {
    assert_eq!(decide_status("Success", "success", &vec![(3, 0), (2, -4), (5, 9)]), "runner2 exited with code -4");
    assert_eq!(decide_status("success", "success", &vec![(1, 0)]), "success");
    assert_eq!(decide_status("failed", "failed", &vec![(1, 2)]), "failed");
}

#[test]
fn duplicate_status_file_is_an_error() {
    let mut c = BenchSuiteCollectStatus::new();
    c.record_file(&mut FileInfo::new("status.txt", memory("success"))).unwrap();
    assert_eq!(
        c.record_file(&mut FileInfo::new("status.txt", memory("x"))),
        Err("Duplicate status.txt files".to_string())
    );
    assert_eq!(
        c.record_file(&mut FileInfo::new("runner1.exit", memory("abc"))),
        Err("Failed to parse runner exit code".to_string())
    );
    assert_eq!(c.final_status(), "success");
}

#[test]
fn missing_status_file_gives_unknown() {
    let c = BenchSuiteCollectStatus::new();
    assert_eq!(c.final_status(), "unknown");
}


#[test]
fn narrowest_integer_types() {
    assert_eq!(narrow_signed(Some(0), Some(255)), ColumnType::UInt8);
    assert_eq!(narrow_signed(Some(0), Some(256)), ColumnType::UInt16);
    assert_eq!(narrow_signed(Some(1), Some(70000)), ColumnType::UInt32);
    assert_eq!(narrow_signed(Some(0), Some(5_000_000_000)), ColumnType::UInt64);
    assert_eq!(narrow_signed(Some(-1), Some(127)), ColumnType::Int8);
    assert_eq!(narrow_signed(Some(-129), Some(0)), ColumnType::Int16);
    assert_eq!(narrow_signed(Some(-40000), Some(0)), ColumnType::Int32);
    assert_eq!(narrow_signed(Some(i64::MIN), Some(0)), ColumnType::Int64);
    assert_eq!(narrow_signed(None, None), ColumnType::UInt8);
    assert_eq!(narrow_unsigned(Some(65535)), ColumnType::UInt16);
    assert_eq!(narrow_unsigned(Some(u64::MAX)), ColumnType::UInt64);
    assert_eq!(narrow_unsigned(None), ColumnType::UInt8);
}

#[test]
fn system_load_files_name_their_tables() {
    assert_eq!(sadf_source_of("cpu_data.csv"), Some(("cpu_sadf".to_string(), b',')));
    assert_eq!(sadf_source_of("memory.sadf"), Some(("memory_sadf".to_string(), b';')));
    assert_eq!(sadf_source_of("cpu_all_cores.sadf"), Some(("cpu_all_cores_sadf".to_string(), b';')));
    assert_eq!(sadf_source_of(".sadf"), Some(("_sadf".to_string(), b';')));
    assert_eq!(sadf_source_of("notes.txt"), None);
    assert_eq!(strip_header_mark(b"# a;b\n"), b"a;b\n");
    assert_eq!(strip_header_mark(b"#a"), b"#a");
    let names = vec!["timestamp".to_string(), "%idle[all]".to_string(), "%idle[0]".to_string()];
    assert_eq!(idle_column(&names), Some(1));
    assert_eq!(idle_column(&vec!["%idle".to_string()]), None);
    assert_eq!(dropped_columns("memory_sadf"), vec!["%memused".to_string(), "%commit".to_string()]);
    assert_eq!(dropped_columns("cpu_sadf"), vec!["%idle".to_string()]);
    assert!(dropped_columns("disk_sadf").is_empty());
}

#[test]
fn stream_location_joins_partition_and_table() {
    let k = TableKey::new("dacapo".to_string(), "status".to_string());
    assert_eq!(k.location("/data"), "/data/dacapo/status");
    assert_eq!(k.location("/data/"), "/data/dacapo/status");
    let a = TableKey::new("p".to_string(), "t".to_string());
    assert!(a.same(&TableKey::new("p".to_string(), "t".to_string())));
    assert!(!a.same(&TableKey::new("t".to_string(), "p".to_string())));
}

#[test]
fn keys_of_one_id_give_one_run() {
    let tasks = BenchSuiteTasks::from_parts(
        "/d".to_string(),
        vec![("all".to_string(), open_filter())],
        vec![
            ("1".to_string(), run_named("dacapo_samples2")),
            ("2".to_string(), run_named("mark_abuse")),
            ("01".to_string(), run_named("mark_abuse")),
        ],
    )
    .unwrap();
    let selected = tasks.to_collect();
    assert_eq!(selected.len(), 2);
    assert_eq!(selected[0].0, 1);
    assert_eq!(selected[0].1.benchmark, "mark_abuse");
    assert_eq!(selected[1].0, 2);
}

#[test]
fn shrink_plan_gives_each_wide_column_its_type() {
    let plan = shrink_plan(vec![
        ("a".to_string(), WideColumn::Signed(Some(-3), Some(100))),
        ("b".to_string(), WideColumn::Unsigned(Some(70000))),
        ("c".to_string(), WideColumn::Signed(None, None)),
        ("d".to_string(), WideColumn::Unsigned(Some(u64::MAX))),
    ]);
    assert_eq!(
        plan,
        vec![
            ("a".to_string(), ColumnType::Int8),
            ("b".to_string(), ColumnType::UInt32),
            ("c".to_string(), ColumnType::UInt8),
            ("d".to_string(), ColumnType::UInt64),
        ]
    );
}

#[test]
fn keep_read_keeps_bytes_or_reports_the_read_error() {
    let mut lr = LazyRead::new(memory("unused"));
    assert!(lr.keep_read(Ok(vec![0x61, 0x62])).is_ok());
    assert_eq!(lr.get_string().unwrap(), "ab");
    let mut lr = LazyRead::new(memory("unused"));
    let failed = lr.keep_read(Err(std::io::Error::new(std::io::ErrorKind::Other, "gone")));
    assert!(matches!(failed, Err(Error::IO(_))));
    assert!(matches!(lr, LazyRead::Orig(_)));
}

#[test]
fn collections_of_one_name_give_one_partition() {
    let mut only_dacapo = open_filter();
    only_dacapo.benchmark = Some(vec!["dacapo_samples2".to_string()]);
    let tasks = BenchSuiteTasks::from_parts(
        "/d".to_string(),
        vec![("p".to_string(), open_filter()), ("q".to_string(), open_filter()), ("p".to_string(), only_dacapo)],
        vec![("1".to_string(), run_named("mark_abuse"))],
    )
    .unwrap();
    assert_eq!(tasks.collection_names(), vec!["p".to_string(), "q".to_string()]);
    let selected = tasks.to_collect();
    assert_eq!(selected.len(), 1);
    assert_eq!(selected[0].2, vec!["q".to_string()]);
}
