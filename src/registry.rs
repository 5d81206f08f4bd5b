//! Which collectors run for each benchmark type.
use crate::text::{push_str, str_eq};
use vstd::prelude::*;

verus! {

/// A kind of collector: one extraction unit for one family of files.
#[derive(Clone, Copy, Debug, PartialEq, Eq, Structural)]
pub enum CollectorKind {
    Config,
    Time,
    DacapoIteration,
    DacapoLatency,
    JavaThreads,
    Status,
    SystemLoad,
    Threadstat,
    ZgcPhases,
}

/// A benchmark type with no collectors registered.
#[derive(Debug)]
pub struct InvalidBenchmark {
    name: String,
}

impl InvalidBenchmark {
    /// The benchmark type that was asked for.
    pub closed spec fn view(&self) -> Seq<char> {
        self.name@
    }

    pub fn new(name: String) -> (r: Self)
        ensures
            r@ == name@,
    {
        InvalidBenchmark { name }
    }

    /// The benchmark type that was asked for.
    pub fn name(&self) -> (r: &str)
        ensures
            r@ == self@,
    {
        self.name.as_str()
    }

    /// A sentence that names the benchmark type.
    pub fn message(&self) -> (r: String)
        ensures
            r@ == "Benchmark "@ + self@ + " does not havea collection config"@,
    {
        let mut r = String::new();
        push_str(&mut r, "Benchmark ");
        push_str(&mut r, self.name.as_str());
        push_str(&mut r, " does not havea collection config");
        r
    }
}

/// The collectors of the `dacapo_samples2` benchmark type, in order.
pub open spec fn dacapo_samples2_kinds() -> Seq<CollectorKind> {
    seq![
        CollectorKind::Config,
        CollectorKind::Time,
        CollectorKind::DacapoIteration,
        CollectorKind::DacapoLatency,
        CollectorKind::JavaThreads,
        CollectorKind::Status,
        CollectorKind::SystemLoad,
        CollectorKind::Threadstat,
        CollectorKind::ZgcPhases,
    ]
}

/// The collectors of the `mark_abuse` benchmark type, in order.
pub open spec fn mark_abuse_kinds() -> Seq<CollectorKind> {
    seq![
        CollectorKind::Config,
        CollectorKind::Time,
        CollectorKind::JavaThreads,
        CollectorKind::Status,
        CollectorKind::SystemLoad,
        CollectorKind::Threadstat,
        CollectorKind::ZgcPhases,
    ]
}

/// The collectors registered for a benchmark type, if any.
pub open spec fn collectors_for(bench: Seq<char>) -> Option<Seq<CollectorKind>> {
    if bench == "dacapo_samples2"@ {
        Some(dacapo_samples2_kinds())
    } else if bench == "mark_abuse"@ {
        Some(mark_abuse_kinds())
    } else {
        None
    }
}

/// Looks up the collectors of a benchmark type; an unknown type is an error
/// that names it.
pub fn get_collect_config(bench: &str) -> (r: Result<Vec<CollectorKind>, InvalidBenchmark>)
    ensures
        match collectors_for(bench@) {
            Some(ks) => r matches Ok(v) && v@ == ks,
            None => r matches Err(e) && e@ == bench@,
        },
{
    if str_eq(bench, "dacapo_samples2") {
        let v = vec![
            CollectorKind::Config,
            CollectorKind::Time,
            CollectorKind::DacapoIteration,
            CollectorKind::DacapoLatency,
            CollectorKind::JavaThreads,
            CollectorKind::Status,
            CollectorKind::SystemLoad,
            CollectorKind::Threadstat,
            CollectorKind::ZgcPhases,
        ];
        assert(v@ =~= dacapo_samples2_kinds());
        Ok(v)
    } else if str_eq(bench, "mark_abuse") {
        let v = vec![
            CollectorKind::Config,
            CollectorKind::Time,
            CollectorKind::JavaThreads,
            CollectorKind::Status,
            CollectorKind::SystemLoad,
            CollectorKind::Threadstat,
            CollectorKind::ZgcPhases,
        ];
        assert(v@ =~= mark_abuse_kinds());
        Ok(v)
    } else {
        Err(InvalidBenchmark::new(bench.to_owned()))
    }
}

} // verus!
