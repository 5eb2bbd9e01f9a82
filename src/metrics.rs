//! Per-iteration metric records and the run that collects them.
use vstd::prelude::*;

verus! {

/// The three quantities measured for every iteration.
#[derive(Clone, Copy, Debug, PartialEq, Eq, Structural)]
pub enum Metric {
    FrameTime,
    CpuCycles,
    CpuInstructions,
}

/// One sample: what one iteration of a workload measured.
///
/// The average frame time is held in whole nanoseconds.
#[derive(Clone, Copy, Debug, PartialEq, Eq, Structural)]
pub struct IterationMetrics {
    pub cpu_cycles: u64,
    pub cpu_instructions: u64,
    pub avg_frame_time_ns: u64,
}

impl IterationMetrics {
    pub open spec fn value_of(self, metric: Metric) -> u64 {
        match metric {
            Metric::FrameTime => self.avg_frame_time_ns,
            Metric::CpuCycles => self.cpu_cycles,
            Metric::CpuInstructions => self.cpu_instructions,
        }
    }

    /// The sample's value for `metric`.
    pub fn value(&self, metric: Metric) -> (r: u64)
        ensures
            r == self.value_of(metric),
    {
        match metric {
            Metric::FrameTime => self.avg_frame_time_ns,
            Metric::CpuCycles => self.cpu_cycles,
            Metric::CpuInstructions => self.cpu_instructions,
        }
    }
}

/// The samples of one run of a benchmark, in iteration order.
#[derive(Clone, Debug)]
pub struct Metrics {
    pub iterations: Vec<IterationMetrics>,
}

impl Metrics {
    /// The values of `metric` over the run, in iteration order.
    pub open spec fn column(self, metric: Metric) -> Seq<u64> {
        self.iterations@.map_values(|it: IterationMetrics| it.value_of(metric))
    }

    /// A run with no sample yet.
    pub fn new() -> (r: Self)
        ensures
            r.iterations@.len() == 0,
    {
        Metrics { iterations: Vec::new() }
    }

    /// Appends the sample of the next iteration.
    pub fn record(&mut self, sample: IterationMetrics)
        ensures
            final(self).iterations@ == old(self).iterations@.push(sample),
    {
        self.iterations.push(sample);
    }

    /// The values of `metric` over the run, in iteration order.
    pub fn samples(&self, metric: Metric) -> (r: Vec<u64>)
        ensures
            r@ == self.column(metric),
    {
        let mut r: Vec<u64> = Vec::with_capacity(self.iterations.len());
        let mut i: usize = 0;
        while i < self.iterations.len()
            invariant
                i <= self.iterations@.len(),
                r@ == self.column(metric).subrange(0, i as int),
            decreases self.iterations@.len() - i,
        {
            r.push(self.iterations[i].value(metric));
            i = i + 1;
            assert(r@ =~= self.column(metric).subrange(0, i as int));
        }
        assert(r@ =~= self.column(metric));
        r
    }
}

/// How a benchmark is run: how many iterations, each of how many frames.
#[derive(Clone, Copy, Debug, PartialEq, Eq, Structural)]
pub struct RunPlan {
    pub iterations: usize,
    pub frames: u64,
}

impl RunPlan {
    pub open spec fn valid(self) -> bool {
        self.iterations > 0 && self.frames > 0
    }

    /// A plan of `iterations` iterations of `frames` frames, or `None` when
    /// either count is zero.
    pub fn new(iterations: usize, frames: u64) -> (r: Option<Self>)
        ensures
            r matches Some(p) ==> p.valid() && p.iterations == iterations && p.frames == frames,
            r is None <==> iterations == 0 || frames == 0,
    {
        if iterations == 0 || frames == 0 {
            None
        } else {
            Some(RunPlan { iterations, frames })
        }
    }

    /// Whether `run` holds all the iterations the plan asks for.
    pub fn is_complete(&self, run: &Metrics) -> (r: bool)
        ensures
            r == (run.iterations@.len() >= self.iterations),
    {
        run.iterations.len() >= self.iterations
    }

    /// The sample of one iteration that counted `cycles` and `instructions`
    /// and took `elapsed_ns` nanoseconds for the plan's frames.
    pub fn measurement(&self, cycles: u64, instructions: u64, elapsed_ns: u64) -> (r: IterationMetrics)
        requires
            self.valid(),
        ensures
            r.cpu_cycles == cycles,
            r.cpu_instructions == instructions,
            r.avg_frame_time_ns == elapsed_ns / self.frames,
            elapsed_ns >= self.frames ==> r.avg_frame_time_ns > 0,
    {
        proof {
            let e = elapsed_ns as int;
            let f = self.frames as int;
            if e >= f {
                assert(e / f >= 1) by (nonlinear_arith)
                    requires e >= f, f > 0;
            }
        }
        IterationMetrics {
            cpu_cycles: cycles,
            cpu_instructions: instructions,
            avg_frame_time_ns: elapsed_ns / self.frames,
        }
    }
}

} // verus!
