use bench_suite_collect::dacapo_iteration::{iteration_times_of, BenchSuiteCollectDacapoIteration};
use bench_suite_collect::dacapo_latency::{latency_table, BenchSuiteCollectDacapoLatency};
use bench_suite_collect::file_info::FileInfo;
use bench_suite_collect::java_threads::{thread_rows_of, BenchSuiteCollectJavaThreads};
use bench_suite_collect::lazy_read::ContentSource;
use bench_suite_collect::run_config::BenchSuiteRun;
use bench_suite_collect::shrink::shrink_int_columns;
use polars::prelude::{Column, DataFrame, DataType};
use bench_suite_collect::text::{contains_text, plain_float};
use bench_suite_collect::time::BenchSuiteCollectTime;
use bench_suite_collect::zgc_phases::{phase_rows_of, runs_zgc, BenchSuiteCollectZgcPhases};

struct Memory(Vec<u8>);

impl ContentSource for Memory {
    fn read_all(&mut self) -> Result<Vec<u8>, std::io::Error> {
        Ok(std::mem::take(&mut self.0))
    }
}

fn memory(text: &str) -> Memory {
    Memory(text.as_bytes().to_vec())
}

fn run_with_gc(gc: Option<&str>) -> BenchSuiteRun {
    BenchSuiteRun {
        benchmark: "dacapo_samples2".to_string(),
        tar_file: "run.tar.xz".to_string(),
        iteration: 0,
        timeout: None,
        cpu_mask: None,
        jdk: None,
        process_count: None,
        gc: gc.map(|g| g.to_string()),
        classpath: None,
        gc_logging: None,
        memory_ratio: None,
        concgcthreads: None,
        GCThreadCPUs: None,
        NonGCThreadCPUs: None,
        ResctrlIdleGCMask: None,
        ResctrlMarkingGCMask: None,
        ResctrlCollectingGCMask: None,
        ResctrlIdleAppMask: None,
        ResctrlMarkingAppMask: None,
        ResctrlCollectingAppMask: None,
        dacapo_benchmark: None,
        dacapo_location: None,
        dacapo_threads: None,
        dacapo_harness: None,
        threadstat_location: None,
        cos_config: None,
    }
}

fn caps(groups: &[&[Option<&str>]]) -> Vec<Vec<Option<String>>> {
    groups.iter().map(|c| c.iter().map(|g| g.map(|s| s.to_string())).collect()).collect()
}

#[test]
fn iteration_times_skip_unreadable_numbers() {
    let c = caps(&[
        &[Some("DaCapo in 12 msec"), Some("12")],
        &[Some("DaCapo in 99999999999999999999 msec"), Some("99999999999999999999")],
        &[Some("DaCapo in 7 msec"), Some("7")],
    ]);
    assert_eq!(iteration_times_of(&c), vec![12, 7]);
}

#[test]
fn iteration_log_gives_one_table() {
    let log = "===== DaCapo 23 h2 PASSED in 1234 msec =====\nnoise\n===== DaCapo 23 h2 PASSED in 987 msec =====\n";
    let mut c = BenchSuiteCollectDacapoIteration::new();
    c.record_file(&mut FileInfo::new("other.txt", memory(log))).unwrap();
    c.record_file(&mut FileInfo::new("jvm0.txt", memory(log))).unwrap();
    assert_eq!(
        c.record_file(&mut FileInfo::new("jvm0.txt", memory(log))),
        Err("Duplicate jvm0.txt files".to_string())
    );
    let tables = c.into_tables();
    assert_eq!(tables.len(), 1);
    assert_eq!(tables[0].0, "iteration");
    let df = &tables[0].1;
    let times = df.column("dacapo_iteration_time_ms").unwrap().u64().unwrap();
    assert_eq!(times.get(0), Some(1234));
    assert_eq!(times.get(1), Some(987));
    let idx = df.column("dacapo_iteration").unwrap().u32().unwrap();
    assert_eq!(idx.get(1), Some(1));
}

#[test]
fn threads_merge_created_and_attached() {
    let created = caps(&[
        &[Some("x"), Some("5"), Some("main"), Some("java")],
        &[Some("x"), Some("6"), Some("gc"), Some("gc")],
        &[Some("x"), Some("5"), Some("main2"), Some("java")],
    ]);
    let attached = caps(&[&[Some("x"), Some("6")], &[Some("x"), Some("9")]]);
    let rows = thread_rows_of(&created, &attached).unwrap();
    assert_eq!(
        rows,
        vec![
            (5, "main2".to_string(), "java".to_string()),
            (6, "gc".to_string(), "gc".to_string()),
            (9, "unknown".to_string(), "unknown".to_string()),
        ]
    );
    let bad = caps(&[&[Some("x"), Some(""), Some("n"), Some("t")]]);
    assert!(thread_rows_of(&bad, &vec![]).is_err());
}

#[test]
fn thread_log_gives_one_table() {
    let log = "[0.1s][info][os,thread] Thread created tid: 101, name:\"main\", thread_type:\"java\"\n\
               [0.2s][info][os,thread] Thread attached (tid: 102, pthread id: 7).\n";
    let mut c = BenchSuiteCollectJavaThreads::new();
    c.record_file(&mut FileInfo::new("jvm0.txt", memory(log))).unwrap();
    let tables = c.into_tables();
    assert_eq!(tables[0].0, "java_threads");
    let df = &tables[0].1;
    assert_eq!(df.height(), 2);
    let pids = df.column("pid").unwrap().u64().unwrap();
    assert_eq!(pids.get(0), Some(101));
    assert_eq!(pids.get(1), Some(102));
    let names = df.column("thread_name").unwrap().str().unwrap();
    assert_eq!(names.get(1), Some("unknown"));
}

#[test]
fn zgc_is_recognised_in_any_case() {
    assert!(runs_zgc(&run_with_gc(Some("ZGC"))));
    assert!(runs_zgc(&run_with_gc(Some("GenerationalZgc"))));
    assert!(!runs_zgc(&run_with_gc(Some("G1"))));
    assert!(!runs_zgc(&run_with_gc(None)));
    assert!(contains_text("abc", ""));
    assert!(!contains_text("ab", "abc"));
}

#[test]
fn phase_times_must_be_decimal_numbers() {
    assert!(plain_float("1.25"));
    assert!(plain_float("3"));
    assert!(plain_float(".5"));
    assert!(!plain_float("."));
    assert!(!plain_float("1.2.3"));
    let good = caps(&[&[Some("x"), Some("t"), Some("4"), Some("Y"), Some(" Pause Mark Start "), Some("0.012")]]);
    let rows = phase_rows_of(&good).unwrap();
    assert_eq!(rows[0].3, "Pause Mark Start");
    let bad = caps(&[&[Some("x"), Some("t"), Some("4"), Some("Y"), Some("p"), Some("1.2.3")]]);
    assert!(phase_rows_of(&bad).is_err());
}

#[test]
fn zgc_log_gives_phase_table_only_for_zgc_runs() {
    let log = "[2024-01-01T00:00:00.000+0000][info][gc,phases   ] GC(3) Y: Pause Mark Start 0.012ms\n";
    let mut other = BenchSuiteCollectZgcPhases::new();
    other.record_file(&run_with_gc(Some("G1")), &mut FileInfo::new("jvm0.txt", memory(log))).unwrap();
    assert!(other.into_tables().is_empty());
    let mut c = BenchSuiteCollectZgcPhases::new();
    c.record_file(&run_with_gc(Some("zgc")), &mut FileInfo::new("jvm0.txt", memory(log))).unwrap();
    let tables = c.into_tables();
    assert_eq!(tables[0].0, "zgc_phases");
    let df = &tables[0].1;
    assert_eq!(df.height(), 1);
    assert_eq!(df.column("gc_phase_gc_number").unwrap().u32().unwrap().get(0), Some(3));
    assert_eq!(df.column("gc_phase_name").unwrap().str().unwrap().get(0), Some("Pause Mark Start"));
    assert_eq!(df.column("gc_phase_time_ms").unwrap().f64().unwrap().get(0), Some(0.012));
}

#[test]
fn time_file_is_read_as_csv() {
    let mut c = BenchSuiteCollectTime::new();
    c.record_file(&mut FileInfo::new("jvm0.time", memory("wall,user\n1.5,3\n"))).unwrap();
    assert_eq!(
        c.record_file(&mut FileInfo::new("jvm0.time", memory("a\n1\n"))),
        Err("Duplicate time files".to_string())
    );
    let tables = c.into_tables();
    assert_eq!(tables[0].0, "time");
    assert_eq!(tables[0].1.height(), 1);
    assert_eq!(tables[0].1.width(), 2);
}

#[test]
fn latency_kinds_name_their_tables() {
    assert_eq!(latency_table("request-metered"), "dacapo_latency_request_metered");
    assert_eq!(latency_table("simple"), "dacapo_latency_simple");
}

#[test]
fn latency_files_stack_per_kind() {
    let mut c = BenchSuiteCollectDacapoLatency::new();
    c.record_file(&mut FileInfo::new("dacapo-latency-usec-simple-1.csv", memory("10,15,1\n20,30,2\n"))).unwrap();
    c.record_file(&mut FileInfo::new("dacapo-latency-usec-simple-2.csv", memory("5,6,1\n"))).unwrap();
    c.record_file(&mut FileInfo::new("dacapo-latency-usec-request-metered-2.csv", memory("1,4,3\n"))).unwrap();
    c.record_file(&mut FileInfo::new("notes.csv", memory("x"))).unwrap();
    let tables = c.into_tables();
    assert_eq!(tables.len(), 2);
    assert_eq!(tables[0].0, "dacapo_latency_simple");
    assert_eq!(tables[1].0, "dacapo_latency_request_metered");
    let simple = &tables[0].1;
    assert_eq!(simple.height(), 3);
    assert!(simple.column("end_ns").is_err());
    let duration = simple.column("duration").unwrap().u64().unwrap();
    assert_eq!(duration.get(0), Some(5));
    assert_eq!(duration.get(1), Some(10));
    let iteration = simple.column("iteration").unwrap().u32().unwrap();
    assert_eq!(iteration.get(0), Some(1));
    assert_eq!(iteration.get(2), Some(2));
}

#[test]
fn wide_integer_columns_are_narrowed() {
    let df = DataFrame::new(
        2,
        vec![
            Column::new("a".into(), vec![1i64, 200]),
            Column::new("b".into(), vec![-5i64, 5]),
            Column::new("c".into(), vec![7u64, 70000]),
            Column::new("d".into(), vec!["x", "y"]),
        ],
    )
    .unwrap();
    let out = shrink_int_columns(df).unwrap();
    assert_eq!(out.column("a").unwrap().dtype(), &DataType::UInt8);
    assert_eq!(out.column("b").unwrap().dtype(), &DataType::Int8);
    assert_eq!(out.column("c").unwrap().dtype(), &DataType::UInt32);
    assert_eq!(out.column("d").unwrap().dtype(), &DataType::String);
    assert_eq!(out.column("c").unwrap().u32().unwrap().get(1), Some(70000));
}
