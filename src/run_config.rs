//! The description of one benchmark run, and the filter that selects runs
//! for a collection.
use vstd::prelude::*;

verus! {

/// Why a bit pattern is no positive, non-zero float.
#[derive(Clone, Copy, Debug, PartialEq, Eq, Structural)]
pub enum FloatError {
    Zero,
    /// A negative value, given by its bits.
    Negative(u64),
    NaN,
}

/// A positive, non-zero `f64`, held as its IEEE 754 bit pattern.
#[derive(Clone, Copy, Debug, PartialEq, Eq, Structural)]
pub struct PositiveNonZeroF64 {
    bits: u64,
}

/// The largest bit pattern of a positive `f64` that is no NaN: infinity.
pub const POSITIVE_INFINITY_BITS: u64 = 0x7FF0_0000_0000_0000;

/// The sign bit of an `f64`.
pub const SIGN_BIT: u64 = 0x8000_0000_0000_0000;

/// The bit pattern of a NaN: every exponent bit set and a non-zero fraction.
pub open spec fn is_nan_bits(bits: u64) -> bool {
    bits & 0x7FFF_FFFF_FFFF_FFFF > POSITIVE_INFINITY_BITS
}

impl PositiveNonZeroF64 {
    pub closed spec fn view(&self) -> u64 {
        self.bits
    }

    /// Holds a positive value that is neither zero nor NaN.
    pub open spec fn wf(&self) -> bool {
        0 < self@ <= POSITIVE_INFINITY_BITS
    }

    /// Checks a float given by its bits: NaN first, then the sign (negative
    /// zero included), then zero.
    pub fn from_bits(bits: u64) -> (r: Result<Self, FloatError>)
        ensures
            is_nan_bits(bits) ==> r == Err::<Self, FloatError>(FloatError::NaN),
            !is_nan_bits(bits) && bits & SIGN_BIT != 0 ==> r == Err::<Self, FloatError>(
                FloatError::Negative(bits),
            ),
            bits == 0 ==> r == Err::<Self, FloatError>(FloatError::Zero),
            r matches Ok(v) ==> v@ == bits && v.wf(),
            (!is_nan_bits(bits) && bits & SIGN_BIT == 0 && bits != 0) ==> r is Ok,
    {
        assert(bits == 0 ==> (bits & 0x7FFF_FFFF_FFFF_FFFF == 0 && bits & SIGN_BIT == 0))
            by (bit_vector);
        if bits & 0x7FFF_FFFF_FFFF_FFFF > POSITIVE_INFINITY_BITS {
            Err(FloatError::NaN)
        } else if bits & SIGN_BIT != 0 {
            Err(FloatError::Negative(bits))
        } else if bits == 0 {
            Err(FloatError::Zero)
        } else {
            assert(bits & SIGN_BIT == 0 && bits & 0x7FFF_FFFF_FFFF_FFFF <= POSITIVE_INFINITY_BITS
                ==> bits <= POSITIVE_INFINITY_BITS) by (bit_vector);
            Ok(PositiveNonZeroF64 { bits })
        }
    }

    /// The bit pattern of the value.
    pub fn to_bits(&self) -> (r: u64)
        ensures
            r == self@,
    {
        self.bits
    }
}

/// One benchmark run: its type, archive, iteration and optional parameters.
#[allow(non_snake_case)]
#[derive(Clone, Debug)]
pub struct BenchSuiteRun {
    pub benchmark: String,
    pub tar_file: String,
    pub iteration: u64,
    pub timeout: Option<u64>,
    pub cpu_mask: Option<u64>,
    pub jdk: Option<String>,
    pub process_count: Option<u64>,
    pub gc: Option<String>,
    pub classpath: Option<String>,
    pub gc_logging: Option<String>,
    pub memory_ratio: Option<PositiveNonZeroF64>,
    pub concgcthreads: Option<u64>,
    pub GCThreadCPUs: Option<String>,
    pub NonGCThreadCPUs: Option<String>,
    pub ResctrlIdleGCMask: Option<u64>,
    pub ResctrlMarkingGCMask: Option<u64>,
    pub ResctrlCollectingGCMask: Option<u64>,
    pub ResctrlIdleAppMask: Option<u64>,
    pub ResctrlMarkingAppMask: Option<u64>,
    pub ResctrlCollectingAppMask: Option<u64>,
    pub dacapo_benchmark: Option<String>,
    pub dacapo_location: Option<String>,
    pub dacapo_threads: Option<u64>,
    pub dacapo_harness: Option<String>,
    pub threadstat_location: Option<String>,
    pub cos_config: Option<String>,
}

/// A filter over runs: each field that is given lists the values it admits.
#[allow(non_snake_case)]
#[derive(Clone, Debug)]
pub struct BenchSuiteConfig {
    pub benchmark: Option<Vec<String>>,
    pub tar_file: Option<Vec<String>>,
    pub iteration: Option<Vec<u64>>,
    pub timeout: Option<Vec<u64>>,
    pub cpu_mask: Option<Vec<u64>>,
    pub jdk: Option<Vec<String>>,
    pub process_count: Option<Vec<u64>>,
    pub gc: Option<Vec<String>>,
    pub classpath: Option<Vec<String>>,
    pub gc_logging: Option<Vec<String>>,
    pub memory_ratio: Option<Vec<PositiveNonZeroF64>>,
    pub concgcthreads: Option<Vec<u64>>,
    pub GCThreadCPUs: Option<Vec<String>>,
    pub NonGCThreadCPUs: Option<Vec<String>>,
    pub ResctrlIdleGCMask: Option<Vec<u64>>,
    pub ResctrlMarkingGCMask: Option<Vec<u64>>,
    pub ResctrlCollectingGCMask: Option<Vec<u64>>,
    pub ResctrlIdleAppMask: Option<Vec<u64>>,
    pub ResctrlMarkingAppMask: Option<Vec<u64>>,
    pub ResctrlCollectingAppMask: Option<Vec<u64>>,
    pub dacapo_benchmark: Option<Vec<String>>,
    pub dacapo_location: Option<Vec<String>>,
    pub dacapo_threads: Option<Vec<u64>>,
    pub dacapo_harness: Option<Vec<String>>,
    pub threadstat_location: Option<Vec<String>>,
    pub cos_config: Option<Vec<String>>,
}

/// `x` is among the texts of `v`.
pub open spec fn has_text(v: Seq<String>, x: Seq<char>) -> bool {
    exists|i: int| 0 <= i < v.len() && (#[trigger] v[i])@ == x
}

/// `x` is among the bit patterns of `v`.
pub open spec fn has_ratio(v: Seq<PositiveNonZeroF64>, x: PositiveNonZeroF64) -> bool {
    exists|i: int| 0 <= i < v.len() && (#[trigger] v[i])@ == x@
}

/// A filter on a text field admits `x`: no filter, or `x` is listed.
pub open spec fn admits_str(f: Option<Vec<String>>, x: String) -> bool {
    match f {
        Some(v) => has_text(v@, x@),
        None => true,
    }
}

/// A filter on an integer field admits `x`.
pub open spec fn admits_u64(f: Option<Vec<u64>>, x: u64) -> bool {
    match f {
        Some(v) => v@.contains(x),
        None => true,
    }
}

/// A filter on a ratio field admits `x`.
pub open spec fn admits_ratio(f: Option<Vec<PositiveNonZeroF64>>, x: PositiveNonZeroF64) -> bool {
    match f {
        Some(v) => has_ratio(v@, x),
        None => true,
    }
}

/// A filter on an optional text field admits `x`: no filter, or `x` is given
/// and listed.
pub open spec fn admits_opt_str(f: Option<Vec<String>>, x: Option<String>) -> bool {
    match f {
        Some(v) => match x {
            Some(s) => has_text(v@, s@),
            None => false,
        },
        None => true,
    }
}

/// A filter on an optional integer field admits `x`.
pub open spec fn admits_opt_u64(f: Option<Vec<u64>>, x: Option<u64>) -> bool {
    match f {
        Some(v) => match x {
            Some(n) => v@.contains(n),
            None => false,
        },
        None => true,
    }
}

/// A filter on an optional ratio field admits `x`.
pub open spec fn admits_opt_ratio(f: Option<Vec<PositiveNonZeroF64>>, x: Option<PositiveNonZeroF64>) -> bool {
    match f {
        Some(v) => match x {
            Some(n) => has_ratio(v@, n),
            None => false,
        },
        None => true,
    }
}

fn find_str(v: &Vec<String>, x: &String) -> (r: bool)
    ensures
        r == has_text(v@, x@),
{
    let mut i: usize = 0;
    while i < v.len()
        invariant
            i <= v@.len(),
            forall|j: int| 0 <= j < i ==> (#[trigger] v@[j])@ != x@,
        decreases v.len() - i,
    {
        if v[i] == *x {
            return true;
        }
        i = i + 1;
    }
    false
}

fn find_u64(v: &Vec<u64>, x: u64) -> (r: bool)
    ensures
        r == v@.contains(x),
{
    let mut i: usize = 0;
    while i < v.len()
        invariant
            i <= v@.len(),
            forall|j: int| 0 <= j < i ==> v@[j] != x,
        decreases v.len() - i,
    {
        if v[i] == x {
            assert(v@[i as int] == x);
            return true;
        }
        i = i + 1;
    }
    false
}

fn find_ratio(v: &Vec<PositiveNonZeroF64>, x: &PositiveNonZeroF64) -> (r: bool)
    ensures
        r == has_ratio(v@, *x),
{
    let mut i: usize = 0;
    while i < v.len()
        invariant
            i <= v@.len(),
            forall|j: int| 0 <= j < i ==> (#[trigger] v@[j])@ != x@,
        decreases v.len() - i,
    {
        if v[i].to_bits() == x.to_bits() {
            return true;
        }
        i = i + 1;
    }
    false
}

fn check_str(f: &Option<Vec<String>>, x: &String) -> (r: bool)
    ensures
        r == admits_str(*f, *x),
{
    match f {
        Some(v) => find_str(v, x),
        None => true,
    }
}

fn check_opt_str(f: &Option<Vec<String>>, x: &Option<String>) -> (r: bool)
    ensures
        r == admits_opt_str(*f, *x),
{
    match f {
        Some(v) => match x {
            Some(s) => find_str(v, s),
            None => false,
        },
        None => true,
    }
}

fn check_u64(f: &Option<Vec<u64>>, x: u64) -> (r: bool)
    ensures
        r == admits_u64(*f, x),
{
    match f {
        Some(v) => find_u64(v, x),
        None => true,
    }
}

fn check_opt_u64(f: &Option<Vec<u64>>, x: &Option<u64>) -> (r: bool)
    ensures
        r == admits_opt_u64(*f, *x),
{
    match f {
        Some(v) => match x {
            Some(s) => find_u64(v, *s),
            None => false,
        },
        None => true,
    }
}

fn check_ratio(f: &Option<Vec<PositiveNonZeroF64>>, x: &PositiveNonZeroF64) -> (r: bool)
    ensures
        r == admits_ratio(*f, *x),
{
    match f {
        Some(v) => find_ratio(v, x),
        None => true,
    }
}

fn check_opt_ratio(f: &Option<Vec<PositiveNonZeroF64>>, x: &Option<PositiveNonZeroF64>) -> (r: bool)
    ensures
        r == admits_opt_ratio(*f, *x),
{
    match f {
        Some(v) => match x {
            Some(s) => find_ratio(v, s),
            None => false,
        },
        None => true,
    }
}

impl BenchSuiteConfig {
    /// Every field that the filter gives admits the run's value; an optional
    /// field that the filter gives must be set on the run.
    pub open spec fn admits(&self, item: &BenchSuiteRun) -> bool {
        &&& admits_str(self.benchmark, item.benchmark)
        &&& admits_str(self.tar_file, item.tar_file)
        &&& admits_u64(self.iteration, item.iteration)
        &&& admits_opt_u64(self.timeout, item.timeout)
        &&& admits_opt_u64(self.cpu_mask, item.cpu_mask)
        &&& admits_opt_str(self.jdk, item.jdk)
        &&& admits_opt_u64(self.process_count, item.process_count)
        &&& admits_opt_str(self.gc, item.gc)
        &&& admits_opt_str(self.classpath, item.classpath)
        &&& admits_opt_str(self.gc_logging, item.gc_logging)
        &&& admits_opt_ratio(self.memory_ratio, item.memory_ratio)
        &&& admits_opt_u64(self.concgcthreads, item.concgcthreads)
        &&& admits_opt_str(self.GCThreadCPUs, item.GCThreadCPUs)
        &&& admits_opt_str(self.NonGCThreadCPUs, item.NonGCThreadCPUs)
        &&& admits_opt_u64(self.ResctrlIdleGCMask, item.ResctrlIdleGCMask)
        &&& admits_opt_u64(self.ResctrlMarkingGCMask, item.ResctrlMarkingGCMask)
        &&& admits_opt_u64(self.ResctrlCollectingGCMask, item.ResctrlCollectingGCMask)
        &&& admits_opt_u64(self.ResctrlIdleAppMask, item.ResctrlIdleAppMask)
        &&& admits_opt_u64(self.ResctrlMarkingAppMask, item.ResctrlMarkingAppMask)
        &&& admits_opt_u64(self.ResctrlCollectingAppMask, item.ResctrlCollectingAppMask)
        &&& admits_opt_str(self.dacapo_benchmark, item.dacapo_benchmark)
        &&& admits_opt_str(self.dacapo_location, item.dacapo_location)
        &&& admits_opt_u64(self.dacapo_threads, item.dacapo_threads)
        &&& admits_opt_str(self.dacapo_harness, item.dacapo_harness)
        &&& admits_opt_str(self.threadstat_location, item.threadstat_location)
        &&& admits_opt_str(self.cos_config, item.cos_config)
    }

    /// Whether the filter selects the run.
    pub fn contains(&self, item: &BenchSuiteRun) -> (r: bool)
        ensures
            r == self.admits(item),
    {
        if !check_str(&self.benchmark, &item.benchmark) {
            return false;
        }
        if !check_str(&self.tar_file, &item.tar_file) {
            return false;
        }
        if !check_u64(&self.iteration, item.iteration) {
            return false;
        }
        if !check_opt_u64(&self.timeout, &item.timeout) {
            return false;
        }
        if !check_opt_u64(&self.cpu_mask, &item.cpu_mask) {
            return false;
        }
        if !check_opt_str(&self.jdk, &item.jdk) {
            return false;
        }
        if !check_opt_u64(&self.process_count, &item.process_count) {
            return false;
        }
        if !check_opt_str(&self.gc, &item.gc) {
            return false;
        }
        if !check_opt_str(&self.classpath, &item.classpath) {
            return false;
        }
        if !check_opt_str(&self.gc_logging, &item.gc_logging) {
            return false;
        }
        if !check_opt_ratio(&self.memory_ratio, &item.memory_ratio) {
            return false;
        }
        if !check_opt_u64(&self.concgcthreads, &item.concgcthreads) {
            return false;
        }
        if !check_opt_str(&self.GCThreadCPUs, &item.GCThreadCPUs) {
            return false;
        }
        if !check_opt_str(&self.NonGCThreadCPUs, &item.NonGCThreadCPUs) {
            return false;
        }
        if !check_opt_u64(&self.ResctrlIdleGCMask, &item.ResctrlIdleGCMask) {
            return false;
        }
        if !check_opt_u64(&self.ResctrlMarkingGCMask, &item.ResctrlMarkingGCMask) {
            return false;
        }
        if !check_opt_u64(&self.ResctrlCollectingGCMask, &item.ResctrlCollectingGCMask) {
            return false;
        }
        if !check_opt_u64(&self.ResctrlIdleAppMask, &item.ResctrlIdleAppMask) {
            return false;
        }
        if !check_opt_u64(&self.ResctrlMarkingAppMask, &item.ResctrlMarkingAppMask) {
            return false;
        }
        if !check_opt_u64(&self.ResctrlCollectingAppMask, &item.ResctrlCollectingAppMask) {
            return false;
        }
        if !check_opt_str(&self.dacapo_benchmark, &item.dacapo_benchmark) {
            return false;
        }
        if !check_opt_str(&self.dacapo_location, &item.dacapo_location) {
            return false;
        }
        if !check_opt_u64(&self.dacapo_threads, &item.dacapo_threads) {
            return false;
        }
        if !check_opt_str(&self.dacapo_harness, &item.dacapo_harness) {
            return false;
        }
        if !check_opt_str(&self.threadstat_location, &item.threadstat_location) {
            return false;
        }
        if !check_opt_str(&self.cos_config, &item.cos_config) {
            return false;
        }
        true
    }
}

} // verus!
