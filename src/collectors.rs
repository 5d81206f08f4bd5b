//! One collector of any registered kind, so that a run can hold the
//! collectors of its benchmark type side by side.
use crate::file_info::FileInfo;
use crate::lazy_read::ContentSource;
use crate::registry::CollectorKind;
use crate::run::BenchSuiteCollect;
use crate::run_config::BenchSuiteRun;
use crate::time::BenchSuiteCollectTime;
use crate::dacapo_iteration::BenchSuiteCollectDacapoIteration;
use crate::dacapo_latency::BenchSuiteCollectDacapoLatency;
use crate::java_threads::BenchSuiteCollectJavaThreads;
use crate::status::BenchSuiteCollectStatus;
use crate::system_load::BenchSuiteCollectSystemLoad;
use crate::threadstat::BenchSuiteCollectThreadstat;
use crate::zgc_phases::BenchSuiteCollectZgcPhases;
use polars::prelude::DataFrame;
use vstd::prelude::*;

verus! {

/// A collector of one of the registered kinds; the run-description
/// collector is `K`.
pub enum AnyCollector<K> {
    Config(K),
    Time(BenchSuiteCollectTime),
    DacapoIteration(BenchSuiteCollectDacapoIteration),
    DacapoLatency(BenchSuiteCollectDacapoLatency),
    JavaThreads(BenchSuiteCollectJavaThreads),
    Status(BenchSuiteCollectStatus),
    SystemLoad(BenchSuiteCollectSystemLoad),
    Threadstat(BenchSuiteCollectThreadstat),
    ZgcPhases(BenchSuiteCollectZgcPhases),
}

impl<K: BenchSuiteCollect> AnyCollector<K> {
    /// The kind of the collector.
    pub open spec fn kind(&self) -> CollectorKind {
        match self {
            AnyCollector::Config(_) => CollectorKind::Config,
            AnyCollector::Time(_) => CollectorKind::Time,
            AnyCollector::DacapoIteration(_) => CollectorKind::DacapoIteration,
            AnyCollector::DacapoLatency(_) => CollectorKind::DacapoLatency,
            AnyCollector::JavaThreads(_) => CollectorKind::JavaThreads,
            AnyCollector::Status(_) => CollectorKind::Status,
            AnyCollector::SystemLoad(_) => CollectorKind::SystemLoad,
            AnyCollector::Threadstat(_) => CollectorKind::Threadstat,
            AnyCollector::ZgcPhases(_) => CollectorKind::ZgcPhases,
        }
    }

    /// A fresh collector of the given kind; `config` stands in for the
    /// run-description kind and is dropped otherwise.
    pub fn new(kind: CollectorKind, config: K) -> (r: Self)
        ensures
            r.kind() == kind,
            kind is Config ==> r == AnyCollector::<K>::Config(config),
            !(kind is Config) ==> r.seen().len() == 0,
    {
        match kind {
            CollectorKind::Config => AnyCollector::Config(config),
            CollectorKind::Time => AnyCollector::Time(BenchSuiteCollectTime::new()),
            CollectorKind::DacapoIteration => AnyCollector::DacapoIteration(BenchSuiteCollectDacapoIteration::new()),
            CollectorKind::DacapoLatency => AnyCollector::DacapoLatency(BenchSuiteCollectDacapoLatency::new()),
            CollectorKind::JavaThreads => AnyCollector::JavaThreads(BenchSuiteCollectJavaThreads::new()),
            CollectorKind::Status => AnyCollector::Status(BenchSuiteCollectStatus::new()),
            CollectorKind::SystemLoad => AnyCollector::SystemLoad(BenchSuiteCollectSystemLoad::new()),
            CollectorKind::Threadstat => AnyCollector::Threadstat(BenchSuiteCollectThreadstat::new()),
            CollectorKind::ZgcPhases => AnyCollector::ZgcPhases(BenchSuiteCollectZgcPhases::new()),
        }
    }
}

impl<K: BenchSuiteCollect> BenchSuiteCollect for AnyCollector<K> {
    open spec fn seen(&self) -> Seq<(Seq<char>, Option<Seq<char>>)> {
        match self {
            AnyCollector::Config(c) => c.seen(),
            AnyCollector::Time(c) => c.seen(),
            AnyCollector::DacapoIteration(c) => c.seen(),
            AnyCollector::DacapoLatency(c) => c.seen(),
            AnyCollector::JavaThreads(c) => c.seen(),
            AnyCollector::Status(c) => c.seen(),
            AnyCollector::SystemLoad(c) => c.seen(),
            AnyCollector::Threadstat(c) => c.seen(),
            AnyCollector::ZgcPhases(c) => c.seen(),
        }
    }

    open spec fn result_names(&self) -> Seq<Seq<char>> {
        match self {
            AnyCollector::Config(c) => c.result_names(),
            AnyCollector::Time(c) => c.result_names(),
            AnyCollector::DacapoIteration(c) => c.result_names(),
            AnyCollector::DacapoLatency(c) => c.result_names(),
            AnyCollector::JavaThreads(c) => c.result_names(),
            AnyCollector::Status(c) => c.result_names(),
            AnyCollector::SystemLoad(c) => c.result_names(),
            AnyCollector::Threadstat(c) => c.result_names(),
            AnyCollector::ZgcPhases(c) => c.result_names(),
        }
    }

    open spec fn yields(&self) -> bool {
        match self {
            AnyCollector::Config(c) => c.yields(),
            AnyCollector::Time(c) => c.yields(),
            AnyCollector::DacapoIteration(c) => c.yields(),
            AnyCollector::DacapoLatency(c) => c.yields(),
            AnyCollector::JavaThreads(c) => c.yields(),
            AnyCollector::Status(c) => c.yields(),
            AnyCollector::SystemLoad(c) => c.yields(),
            AnyCollector::Threadstat(c) => c.yields(),
            AnyCollector::ZgcPhases(c) => c.yields(),
        }
    }

    fn process_file<T: ContentSource>(&mut self, config: &BenchSuiteRun, file: &mut FileInfo<'_, T>) -> (r: Result<(), String>) {
        match self {
            AnyCollector::Config(c) => c.process_file(config, file),
            AnyCollector::Time(c) => c.process_file(config, file),
            AnyCollector::DacapoIteration(c) => c.process_file(config, file),
            AnyCollector::DacapoLatency(c) => c.process_file(config, file),
            AnyCollector::JavaThreads(c) => c.process_file(config, file),
            AnyCollector::Status(c) => c.process_file(config, file),
            AnyCollector::SystemLoad(c) => c.process_file(config, file),
            AnyCollector::Threadstat(c) => c.process_file(config, file),
            AnyCollector::ZgcPhases(c) => c.process_file(config, file),
        }
    }

    fn get_result(self, config: &BenchSuiteRun) -> (r: Result<Vec<(String, DataFrame)>, String>) {
        match self {
            AnyCollector::Config(c) => c.get_result(config),
            AnyCollector::Time(c) => c.get_result(config),
            AnyCollector::DacapoIteration(c) => c.get_result(config),
            AnyCollector::DacapoLatency(c) => c.get_result(config),
            AnyCollector::JavaThreads(c) => c.get_result(config),
            AnyCollector::Status(c) => c.get_result(config),
            AnyCollector::SystemLoad(c) => c.get_result(config),
            AnyCollector::Threadstat(c) => c.get_result(config),
            AnyCollector::ZgcPhases(c) => c.get_result(config),
        }
    }
}

} // verus!
