use bench_suite_collect::accumulator::{BatchAccumulator, FLUSH_THRESHOLD};
use bench_suite_collect::collectors::AnyCollector;
use bench_suite_collect::registry::CollectorKind;
use bench_suite_collect::file_info::FileInfo;
use bench_suite_collect::lazy_read::ContentSource;
use bench_suite_collect::run::{failed_run_tables, run_submissions, RunError, RunProcessor, RunResults};
use bench_suite_collect::run_config::BenchSuiteRun;
use bench_suite_collect::status::BenchSuiteCollectStatus;
use bench_suite_collect::threadstat::BenchSuiteCollectThreadstat;
use polars::prelude::{Column, DataFrame};

/// Bytes in memory that count how often they are read.
struct Memory {
    data: Vec<u8>,
    reads: usize,
}

impl ContentSource for Memory {
    fn read_all(&mut self) -> Result<Vec<u8>, std::io::Error> {
        self.reads += 1;
        Ok(std::mem::take(&mut self.data))
    }
}

fn memory(text: &str) -> Memory {
    Memory { data: text.as_bytes().to_vec(), reads: 0 }
}

fn run_named(benchmark: &str) -> BenchSuiteRun {
    BenchSuiteRun {
        benchmark: benchmark.to_string(),
        tar_file: "run.tar.xz".to_string(),
        iteration: 0,
        timeout: None,
        cpu_mask: None,
        jdk: None,
        process_count: None,
        gc: None,
        classpath: None,
        gc_logging: None,
        memory_ratio: None,
        concgcthreads: None,
        GCThreadCPUs: None,
        NonGCThreadCPUs: None,
        ResctrlIdleGCMask: None,
        ResctrlMarkingGCMask: None,
        ResctrlCollectingGCMask: None,
        ResctrlIdleAppMask: None,
        ResctrlMarkingAppMask: None,
        ResctrlCollectingAppMask: None,
        dacapo_benchmark: None,
        dacapo_location: None,
        dacapo_threads: None,
        dacapo_harness: None,
        threadstat_location: None,
        cos_config: None,
    }
}

fn frame_of_rows(rows: u64) -> DataFrame {
    let values: Vec<u64> = (0..rows).collect();
    DataFrame::new(rows as usize, vec![Column::new("x".into(), values)]).unwrap()
}

fn status_value(df: &DataFrame) -> String {
    df.column("status").unwrap().str().unwrap().get(0).unwrap().to_string()
}

#[test]
fn two_400_mib_appends_flush_once_with_all_rows() {
    let mib: u64 = 1024 * 1024;
    let mut acc = BatchAccumulator::new("out/p/t".to_string(), FLUSH_THRESHOLD);
    assert!(acc.push(frame_of_rows(3), 400 * mib).is_none());
    let seg = acc.push(frame_of_rows(4), 400 * mib).unwrap();
    let rows: usize = seg.tables.iter().map(|t| t.height()).sum();
    assert_eq!(rows, 7);
    assert_eq!(seg.index, 0);
    assert!(acc.close().is_none());
}

#[test]
fn run_without_status_table_gets_placeholder_and_diagnostic() {
    let mut results = RunResults::new();
    results.record_result(Ok(vec![("config".to_string(), frame_of_rows(1))])).ok().unwrap();
    let tables = results.finish().ok().unwrap();
    let (_, status) = tables.iter().find(|(n, _)| n == "status").unwrap();
    assert_eq!(status_value(status), "failed no status");
    let ps = status.column("parse_status").unwrap().str().unwrap().get(0).unwrap().to_string();
    assert_eq!(ps, "no status file");
}

#[test]
fn status_collector_run_records_diagnostics() {
    let run = run_named("mark_abuse");
    let mut p = RunProcessor::new(vec![BenchSuiteCollectStatus::new()]);
    p.process_file(&run, "status.txt", &mut FileInfo::new("status.txt", memory("success")));
    p.process_file(&run, "runner0.exit", &mut FileInfo::new("runner0.exit", memory("x")));
    let tables = p.finish(&run).ok().unwrap();
    assert_eq!(tables.len(), 1);
    let status = &tables[0].1;
    assert_eq!(status_value(status), "success");
    let ps = status.column("parse_status").unwrap().str().unwrap().get(0).unwrap().to_string();
    assert_eq!(ps, "process_file(runner0.exit): Failed to parse runner exit code");
}

#[test]
fn repeated_table_name_fails_the_run() {
    let run = run_named("mark_abuse");
    let p = RunProcessor::new(vec![BenchSuiteCollectStatus::new(), BenchSuiteCollectStatus::new()]);
    match p.finish(&run) {
        Err(e) => {
            assert!(matches!(e, RunError::RepeatedTableName));
            assert_eq!(e.message(), "Repeated the table name ");
        }
        Ok(_) => panic!("two status tables"),
    }
}

#[test]
fn collector_failure_on_results_is_a_diagnostic() {
    let mut results = RunResults::new();
    assert!(results.record_result(Err("broken".to_string())).is_ok());
    let tables = results.finish().ok().unwrap();
    let ps = tables[0].1.column("parse_status").unwrap().str().unwrap().get(0).unwrap().to_string();
    assert_eq!(ps, "get_result: broken; no status file");
}

#[test]
fn failed_run_has_only_a_status_table() {
    let tables = failed_run_tables("archive missing").unwrap();
    assert_eq!(tables.len(), 1);
    assert_eq!(tables[0].0, "status");
    assert_eq!(status_value(&tables[0].1), "failed no status");
}

#[test]
fn threadstat_drops_unreadable_counts() {
    let csv = "pid,event,count\n1,cycles,10\n2,cycles,-1\n3,instructions,7\n";
    let mut c = BenchSuiteCollectThreadstat::new();
    c.record_file(&mut FileInfo::new("threadstat.csv", memory(csv))).unwrap();
    c.record_file(&mut FileInfo::new("other.csv", memory("x"))).unwrap();
    assert_eq!(
        c.record_file(&mut FileInfo::new("threadstat.csv", memory(csv))),
        Err("Duplicate threadstat.csv files".to_string())
    );
    let tables = c.into_tables();
    assert_eq!(tables.len(), 1);
    assert_eq!(tables[0].0, "threadstat");
    let df = &tables[0].1;
    assert_eq!(df.height(), 2);
    let counts = df.column("count").unwrap();
    assert_eq!(counts.dtype(), &polars::prelude::DataType::UInt32);
    let values = counts.u32().unwrap();
    assert_eq!(values.get(0), Some(10));
    assert_eq!(values.get(1), Some(7));
}

#[test]
fn every_partition_gets_the_same_tables_with_the_run_id() {
    let tables = vec![("config".to_string(), frame_of_rows(2)), ("status".to_string(), frame_of_rows(1))];
    let parts = vec!["all".to_string(), "zgc".to_string()];
    let subs = run_submissions(42, &parts, tables).unwrap();
    assert_eq!(subs.len(), 4);
    let keys: Vec<(String, String, usize)> =
        subs.iter().map(|(k, i, _)| (k.partition.clone(), k.table.clone(), *i)).collect();
    assert_eq!(
        keys,
        vec![
            ("all".to_string(), "config".to_string(), 0),
            ("zgc".to_string(), "config".to_string(), 0),
            ("all".to_string(), "status".to_string(), 1),
            ("zgc".to_string(), "status".to_string(), 1),
        ]
    );
    assert!(subs[0].2.equals(&subs[1].2));
    assert!(subs[2].2.equals(&subs[3].2));
    let ids = subs[0].2.column("id").unwrap().u64().unwrap();
    assert_eq!(ids.get(0), Some(42));
    assert_eq!(ids.get(1), Some(42));
    assert!(run_submissions(1, &vec![], vec![("config".to_string(), frame_of_rows(1))]).unwrap().is_empty());
}

#[test]
fn run_without_status_file_is_unknown_and_says_so() {
    let run = run_named("mark_abuse");
    let mut p = RunProcessor::new(vec![BenchSuiteCollectStatus::new()]);
    p.process_file(&run, "other.txt", &mut FileInfo::new("other.txt", memory("x")));
    let tables = p.finish(&run).ok().unwrap();
    assert_eq!(tables.len(), 1);
    let status = &tables[0].1;
    assert_eq!(status_value(status), "unknown");
    let ps = status.column("parse_status").unwrap().str().unwrap().get(0).unwrap().to_string();
    assert_eq!(ps, "no status file");
}

#[test]
fn each_failure_on_an_entry_is_kept_in_order() {
    let run = run_named("mark_abuse");
    let mut p = RunProcessor::new(vec![BenchSuiteCollectStatus::new()]);
    p.process_file(&run, "status.txt", &mut FileInfo::new("status.txt", memory("ok")));
    p.process_file(&run, "status.txt", &mut FileInfo::new("status.txt", memory("again")));
    p.process_file(&run, "runner2.exit", &mut FileInfo::new("runner2.exit", memory("zz")));
    let tables = p.finish(&run).ok().unwrap();
    assert_eq!(tables.len(), 1);
    let status = &tables[0].1;
    assert_eq!(status_value(status), "ok");
    let ps = status.column("parse_status").unwrap().str().unwrap().get(0).unwrap().to_string();
    assert_eq!(
        ps,
        "process_file(status.txt): Duplicate status.txt files; process_file(runner2.exit): Failed to parse runner exit code"
    );
}

#[test]
fn collectors_of_several_kinds_share_a_run() {
    let run = run_named("mark_abuse");
    let mut p = RunProcessor::new(vec![
        AnyCollector::new(CollectorKind::Threadstat, BenchSuiteCollectStatus::new()),
        AnyCollector::new(CollectorKind::Status, BenchSuiteCollectStatus::new()),
    ]);
    p.process_file(&run, "status.txt", &mut FileInfo::new("status.txt", memory("done")));
    let tables = p.finish(&run).ok().unwrap();
    assert_eq!(tables.len(), 1);
    assert_eq!(tables[0].0, "status");
    assert_eq!(status_value(&tables[0].1), "done");
}

#[test]
fn status_table_from_two_kinds_fails_the_run() {
    let run = run_named("mark_abuse");
    let p = RunProcessor::new(vec![
        AnyCollector::new(CollectorKind::Config, BenchSuiteCollectStatus::new()),
        AnyCollector::new(CollectorKind::Status, BenchSuiteCollectStatus::new()),
    ]);
    assert!(matches!(p.finish(&run), Err(RunError::RepeatedTableName)));
}
