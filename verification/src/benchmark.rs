//! Wall-clock benchmarks of the tool's phases, and per-mutant durations for
//! min/max/mean statistics.

use vstd::prelude::*;

verus! {

/// Relies on std::time::SystemTime::now and duration_since: the milliseconds
/// since the epoch, truncated to 64 bits; nothing is promised of a clock
/// reading.
#[verifier::external_body]
fn now_millis() -> u64 {
    match std::time::SystemTime::now().duration_since(std::time::SystemTime::UNIX_EPOCH) {
        Ok(d) => d.as_millis() as u64,
        Err(_) => 0,
    }
}

/// A benchmark for a specific operation, in milliseconds.
#[derive(Clone, Copy, Debug, PartialEq, Eq, Structural)]
pub struct Benchmark {
    /// Start time of the operation.
    pub start_time: u64,
    /// Duration of the operation.
    pub elapsed: u64,
}

impl Benchmark {
    /// Creates a new benchmark with nothing recorded yet.
    pub fn new() -> (r: Benchmark)
        ensures
            r.elapsed == 0,
    {
        Benchmark { start_time: now_millis(), elapsed: 0 }
    }

    /// Starts the benchmark: the start time is the clock's reading, of which
    /// nothing further can be said.
    pub fn start(&mut self)
        ensures
            final(self).elapsed == old(self).elapsed,
    {
        self.start_time = now_millis();
    }

    /// Stops the benchmark, recording the time passed since the start (or
    /// nothing when the clock moved backwards).
    pub fn stop(&mut self)
        ensures
            final(self).start_time == old(self).start_time,
    {
        let now = now_millis();
        self.elapsed = if now >= self.start_time {
            now - self.start_time
        } else {
            0
        };
    }
}

impl Default for Benchmark {
    fn default() -> (r: Self)
        ensures
            r.elapsed == 0,
    {
        Benchmark::new()
    }
}

/// The decimal digit character of a value below ten.
pub open spec fn spec_digit(d: nat) -> Seq<char> {
    if d == 0 {
        "0"@
    } else if d == 1 {
        "1"@
    } else if d == 2 {
        "2"@
    } else if d == 3 {
        "3"@
    } else if d == 4 {
        "4"@
    } else if d == 5 {
        "5"@
    } else if d == 6 {
        "6"@
    } else if d == 7 {
        "7"@
    } else if d == 8 {
        "8"@
    } else {
        "9"@
    }
}

/// Decimal rendering of a number as text, most significant digit first.
pub open spec fn spec_dec(n: nat) -> Seq<char>
    decreases n,
{
    if n < 10 {
        spec_digit(n)
    } else {
        spec_dec(n / 10) + spec_digit(n % 10)
    }
}

fn digit_str(d: u128) -> (r: &'static str)
    requires
        d < 10,
    ensures
        r@ == spec_digit(d as nat),
{
    if d == 0 {
        "0"
    } else if d == 1 {
        "1"
    } else if d == 2 {
        "2"
    } else if d == 3 {
        "3"
    } else if d == 4 {
        "4"
    } else if d == 5 {
        "5"
    } else if d == 6 {
        "6"
    } else if d == 7 {
        "7"
    } else if d == 8 {
        "8"
    } else {
        "9"
    }
}

/// Render a number in decimal.
pub fn decimal_string(n: u128) -> (r: String)
    ensures
        r@ == spec_dec(n as nat),
    decreases n,
{
    if n < 10 {
        digit_str(n).to_owned()
    } else {
        let mut s = decimal_string(n / 10);
        s.append(digit_str(n % 10));
        s
    }
}

/// A collection of benchmarks for the whole tool.
#[derive(Debug)]
pub struct Benchmarks {
    /// Total time for the whole tool to complete.
    pub total_tool_duration: Benchmark,
    /// Benchmark for running the oracle on the original package.
    pub executing_original_package: Benchmark,
    /// Benchmark for the mutant generation.
    pub mutator: Benchmark,
    /// Benchmark for the test execution on all mutants.
    pub executing_tests_on_mutants: Benchmark,
    /// Benchmark for each mutant.
    pub mutant_results: Vec<Benchmark>,
}

/// The smallest per-mutant duration.
pub open spec fn spec_min_elapsed(s: Seq<Benchmark>) -> int
    decreases s,
{
    if s.len() == 0 {
        0
    } else if s.len() == 1 {
        s[0].elapsed as int
    } else {
        let rest = spec_min_elapsed(s.drop_first());
        if s[0].elapsed <= rest {
            s[0].elapsed as int
        } else {
            rest
        }
    }
}

/// The largest per-mutant duration.
pub open spec fn spec_max_elapsed(s: Seq<Benchmark>) -> int
    decreases s,
{
    if s.len() == 0 {
        0
    } else {
        let rest = spec_max_elapsed(s.drop_first());
        if s[0].elapsed >= rest {
            s[0].elapsed as int
        } else {
            rest
        }
    }
}

/// The sum of the per-mutant durations.
pub open spec fn spec_sum_elapsed(s: Seq<Benchmark>) -> int
    decreases s,
{
    if s.len() == 0 {
        0
    } else {
        s[0].elapsed + spec_sum_elapsed(s.drop_first())
    }
}

/// The text that `display` produces.
pub open spec fn spec_display_text(b: Benchmarks) -> Seq<char> {
    let head = "Total tool execution time is "@ + spec_dec(b.total_tool_duration.elapsed as nat)
        + " msecs\n"@ + "Executing the original package took "@ + spec_dec(
        b.executing_original_package.elapsed as nat,
    ) + " msecs\n"@ + "Generating mutants took "@ + spec_dec(b.mutator.elapsed as nat)
        + " msecs\n"@ + "Executing the tool on all mutants took "@ + spec_dec(
        b.executing_tests_on_mutants.elapsed as nat,
    ) + " msecs\n"@;
    if b.mutant_results@.len() == 0 {
        head
    } else {
        head + "Min execution time for a mutant: "@ + spec_dec(
            spec_min_elapsed(b.mutant_results@) as nat,
        ) + " msecs\n"@ + "Max execution time for a mutant: "@ + spec_dec(
            spec_max_elapsed(b.mutant_results@) as nat,
        ) + " msecs\n"@ + "Average execution time for each mutant: "@ + spec_dec(
            (spec_sum_elapsed(b.mutant_results@) / (b.mutant_results@.len() as int)) as nat,
        ) + " msecs\n"@
    }
}

proof fn lemma_minmaxsum_push(s: Seq<Benchmark>, x: Benchmark)
    ensures
        spec_sum_elapsed(s.push(x)) == spec_sum_elapsed(s) + x.elapsed,
        spec_max_elapsed(s.push(x)) == if x.elapsed as int >= spec_max_elapsed(s) {
            x.elapsed as int
        } else {
            spec_max_elapsed(s)
        },
        s.len() > 0 ==> spec_min_elapsed(s.push(x)) == if spec_min_elapsed(s) <= x.elapsed {
            spec_min_elapsed(s)
        } else {
            x.elapsed as int
        },
        s.len() == 0 ==> spec_min_elapsed(s.push(x)) == x.elapsed,
        spec_max_elapsed(s) >= 0,
        spec_sum_elapsed(s) >= 0,
    decreases s,
{
    if s.len() == 0 {
        assert(s.push(x)[0] == x);
        assert(s.push(x).drop_first() =~= Seq::<Benchmark>::empty());
        assert(spec_sum_elapsed(Seq::<Benchmark>::empty()) == 0);
        assert(spec_sum_elapsed(s.push(x).drop_first()) == 0);
        assert(spec_max_elapsed(Seq::<Benchmark>::empty()) == 0);
        assert(spec_max_elapsed(s.push(x).drop_first()) == 0);
    } else {
        assert(s.push(x)[0] == s[0]);
        assert(s.push(x).drop_first() =~= s.drop_first().push(x));
        lemma_minmaxsum_push(s.drop_first(), x);
        if s.len() == 1 {
            assert(s.push(x).drop_first() =~= seq![x]);
            assert(spec_min_elapsed(s.push(x).drop_first()) == x.elapsed);
        }
    }
}

impl Benchmarks {
    /// Creates a new collection of benchmarks.
    pub fn new() -> (r: Benchmarks)
        ensures
            r.total_tool_duration.elapsed == 0,
            r.executing_original_package.elapsed == 0,
            r.mutator.elapsed == 0,
            r.executing_tests_on_mutants.elapsed == 0,
            r.mutant_results@ == Seq::<Benchmark>::empty(),
    {
        Benchmarks {
            total_tool_duration: Benchmark::new(),
            executing_original_package: Benchmark::new(),
            mutator: Benchmark::new(),
            executing_tests_on_mutants: Benchmark::new(),
            mutant_results: Vec::new(),
        }
    }

    /// The benchmark summary: one line per phase, and the smallest, largest
    /// and mean per-mutant time when any mutant ran.
    pub fn display(&self) -> (r: String)
        ensures
            r@ == spec_display_text(*self),
    {
        let mut s = "Total tool execution time is ".to_owned();
        let d1 = decimal_string(self.total_tool_duration.elapsed as u128);
        s.append(d1.as_str());
        s.append(" msecs\n");
        s.append("Executing the original package took ");
        let d2 = decimal_string(self.executing_original_package.elapsed as u128);
        s.append(d2.as_str());
        s.append(" msecs\n");
        s.append("Generating mutants took ");
        let d3 = decimal_string(self.mutator.elapsed as u128);
        s.append(d3.as_str());
        s.append(" msecs\n");
        s.append("Executing the tool on all mutants took ");
        let d4 = decimal_string(self.executing_tests_on_mutants.elapsed as u128);
        s.append(d4.as_str());
        s.append(" msecs\n");
        if self.mutant_results.len() == 0 {
            return s;
        }
        let n = self.mutant_results.len();
        let mut min: u64 = 0;
        let mut max: u64 = 0;
        let mut sum: u128 = 0;
        let mut i: usize = 0;
        proof {
            assert(self.mutant_results@.take(0) =~= Seq::<Benchmark>::empty());
        }
        while i < n
            invariant
                n == self.mutant_results@.len(),
                0 < n,
                i <= n,
                i > 0 ==> min as int == spec_min_elapsed(self.mutant_results@.take(i as int)),
                max as int == spec_max_elapsed(self.mutant_results@.take(i as int)),
                sum == spec_sum_elapsed(self.mutant_results@.take(i as int)),
                sum <= (i as int) * (u64::MAX as int),
            decreases n - i,
        {
            proof {
                assert(self.mutant_results@.take(i + 1) =~= self.mutant_results@.take(
                    i as int,
                ).push(self.mutant_results@[i as int]));
                lemma_minmaxsum_push(
                    self.mutant_results@.take(i as int),
                    self.mutant_results@[i as int],
                );
                assert((i as int) * (u64::MAX as int) + (u64::MAX as int) == (i + 1) * (
                u64::MAX as int)) by (nonlinear_arith);
                assert((i + 1) * (u64::MAX as int) <= n * (u64::MAX as int)) by (nonlinear_arith)
                    requires
                        i + 1 <= n,
                ;
                assert(n * (u64::MAX as int) <= u128::MAX) by (nonlinear_arith)
                    requires
                        n <= usize::MAX,
                ;
            }
            let e = self.mutant_results[i].elapsed;
            if i == 0 || e < min {
                min = e;
            }
            if e > max {
                max = e;
            }
            sum = sum + e as u128;
            i += 1;
        }
        proof {
            assert(self.mutant_results@.take(n as int) =~= self.mutant_results@);
        }
        let avg = sum / (n as u128);
        s.append("Min execution time for a mutant: ");
        let d5 = decimal_string(min as u128);
        s.append(d5.as_str());
        s.append(" msecs\n");
        s.append("Max execution time for a mutant: ");
        let d6 = decimal_string(max as u128);
        s.append(d6.as_str());
        s.append(" msecs\n");
        s.append("Average execution time for each mutant: ");
        let d7 = decimal_string(avg);
        s.append(d7.as_str());
        s.append(" msecs\n");
        s
    }
}

impl Default for Benchmarks {
    fn default() -> (r: Self)
        ensures
            r.total_tool_duration.elapsed == 0,
            r.mutant_results@ == Seq::<Benchmark>::empty(),
    {
        Benchmarks::new()
    }
}

} // verus!
