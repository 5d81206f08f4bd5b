use bench_suite_collect::file_info::FileInfo;
use bench_suite_collect::lazy_read::ContentSource;
use bench_suite_collect::system_load::BenchSuiteCollectSystemLoad;

struct Memory(Vec<u8>);

impl ContentSource for Memory {
    fn read_all(&mut self) -> Result<Vec<u8>, std::io::Error> {
        Ok(std::mem::take(&mut self.0))
    }
}

#[test]
fn sadf_cpu_table_is_cleaned() {
    let sadf = "# hostname;interval;timestamp;CPU;%user;%idle[...]\n\
                h;1;2024-01-02 03:04:05 UTC;-1;10.0;80.0\n\
                h;1;2024-01-02 03:04:05 UTC;0;11.0;79.0\n";
    let mut c = BenchSuiteCollectSystemLoad::new();
    c.record_file(&mut FileInfo::new("cpu_all_cores.sadf", Memory(sadf.as_bytes().to_vec()))).unwrap();
    assert_eq!(
        c.record_file(&mut FileInfo::new("cpu_all_cores.sadf", Memory(sadf.as_bytes().to_vec()))),
        Err("Duplicate cpu_all_cores.sadf files".to_string())
    );
    let tables = c.into_tables().unwrap();
    assert_eq!(tables.len(), 1);
    assert_eq!(tables[0].0, "cpu_all_cores_sadf");
    let df = &tables[0].1;
    assert_eq!(df.height(), 1);
    assert!(df.column("hostname").is_err());
    assert!(df.column("interval").is_err());
    assert!(df.column("%idle").is_err());
    assert!(df.column("%idle[...]").is_err());
    assert!(matches!(df.column("timestamp").unwrap().dtype(), polars::prelude::DataType::Datetime(_, _)));
    assert_eq!(df.column("CPU").unwrap().i64().unwrap().get(0), Some(0));
}
