use vstd::prelude::*;
use crate::module::{Module, UpdateStatus};
use crate::text::{parse_u64, parse_u64_spec, split_ascii_ws, tokens, views};
use crate::units::{hundredths_text, push_hundredths, round_half_even};

verus! {

/// The numeric fields among `toks`, in order; the others are skipped.
pub open spec fn numbers(toks: Seq<Seq<char>>) -> Seq<u64>
    decreases toks.len(),
{
    if toks.len() == 0 {
        Seq::empty()
    } else {
        match parse_u64_spec(toks.last()) {
            Option::Some(v) => numbers(toks.drop_last()).push(v),
            Option::None => numbers(toks.drop_last()),
        }
    }
}

/// The ten time counters of the summary line of the processor report: the
/// first ten numeric fields after its label.
pub open spec fn counters_of(line: Seq<char>) -> Option<Seq<u64>> {
    let toks = tokens(line);
    let ns = if toks.len() == 0 {
        Seq::empty()
    } else {
        numbers(toks.drop_first())
    };
    if ns.len() >= 10 {
        Option::Some(ns.take(10))
    } else {
        Option::None
    }
}

/// Growth of a counter from `x0` to `x1`, modulo 2^64.
pub open spec fn counter_delta(x0: u64, x1: u64) -> nat {
    if x1 >= x0 {
        (x1 - x0) as nat
    } else {
        (x1 - x0 + 0x1_0000_0000_0000_0000) as nat
    }
}

pub open spec fn delta_sum(last: Seq<u64>, cur: Seq<u64>, n: nat) -> nat
    decreases n,
{
    if n == 0 {
        0
    } else {
        delta_sum(last, cur, (n - 1) as nat) + counter_delta(last[n - 1], cur[n - 1])
    }
}

/// Busy share between two readings, in hundredths of a percent, rounded to
/// nearest with ties to even: all time less idle and I/O wait (fields four
/// and five), over all time. `None` when no time passed.
pub open spec fn load_hundredths(last: Seq<u64>, cur: Seq<u64>) -> Option<nat> {
    let total = delta_sum(last, cur, 10);
    let idle = counter_delta(last[3], cur[3]) + counter_delta(last[4], cur[4]);
    if total == 0 {
        Option::None
    } else {
        Option::Some(round_half_even(((total - idle) * 10000) as nat, total))
    }
}

/// Processor load between two readings of the processor report.
pub struct CpuModule {
    cache: String,
    status: Vec<u64>,
}

fn delta(x0: u64, x1: u64) -> (r: u64)
    ensures
        r == counter_delta(x0, x1),
{
    if x1 >= x0 {
        x1 - x0
    } else {
        u64::MAX - x0 + x1 + 1
    }
}

proof fn lemma_delta_sum_parts(last: Seq<u64>, cur: Seq<u64>, n: nat)
    requires
        n >= 5,
    ensures
        delta_sum(last, cur, n) >= counter_delta(last[3], cur[3]) + counter_delta(last[4], cur[4]),
    decreases n,
{
    if n > 5 {
        lemma_delta_sum_parts(last, cur, (n - 1) as nat);
    } else {
        reveal_with_fuel(delta_sum, 6);
    }
}

proof fn lemma_delta_sum_bound(last: Seq<u64>, cur: Seq<u64>, n: nat)
    ensures
        delta_sum(last, cur, n) <= n * 0x1_0000_0000_0000_0000,
    decreases n,
{
    if n > 0 {
        lemma_delta_sum_bound(last, cur, (n - 1) as nat);
    }
}

impl CpuModule {
    /// The counters of the last good reading.
    pub closed spec fn counters(&self) -> Seq<u64> {
        self.status@
    }

    pub open spec fn wf(&self) -> bool {
        self.counters().len() == 10
    }

    pub fn new() -> (r: Self)
        ensures
            r.wf(),
            r.counters() == Seq::new(10, |i: int| 0u64),
            r.text() == Seq::<char>::empty(),
    {
        let r = CpuModule { cache: String::new(), status: vec![0, 0, 0, 0, 0, 0, 0, 0, 0, 0] };
        assert(r.status@ == Seq::new(10, |i: int| 0u64));
        r
    }

    /// The counters on `line`, the summary line of the processor report.
    pub fn get_status(line: &str) -> (r: Option<Vec<u64>>)
        ensures
            match r {
                Option::Some(v) => counters_of(line@) == Option::Some(v@),
                Option::None => counters_of(line@) is None,
            },
    {
        let toks = split_ascii_ws(line);
        let ghost tv = tokens(line@);
        let mut ns: Vec<u64> = Vec::new();
        if toks.len() > 0 {
            let mut i: usize = 1;
            while i < toks.len()
                invariant
                    1 <= i <= toks@.len(),
                    views(toks@) == tv,
                    ns@ == numbers(tv.drop_first().subrange(0, i - 1)),
                decreases toks@.len() - i,
            {
                let ghost pre = tv.drop_first().subrange(0, i - 1);
                assert(tv.drop_first().subrange(0, i as int).drop_last() == pre);
                assert(tv.drop_first().subrange(0, i as int).last() == toks@[i as int]@);
                match parse_u64(toks[i].as_str()) {
                    Option::Some(v) => ns.push(v),
                    Option::None => {},
                }
                i = i + 1;
            }
            assert(tv.drop_first().subrange(0, toks@.len() - 1) == tv.drop_first());
        } else {
            assert(tv.len() == 0);
        }
        if ns.len() < 10 {
            return Option::None;
        }
        let mut out: Vec<u64> = Vec::new();
        let mut k: usize = 0;
        while k < 10
            invariant
                0 <= k <= 10,
                ns@.len() >= 10,
                out@ == ns@.take(k as int),
            decreases 10 - k,
        {
            out.push(ns[k]);
            assert(ns@.take(k + 1) == ns@.take(k as int).push(ns@[k as int]));
            k = k + 1;
        }
        Option::Some(out)
    }

    /// Takes a new reading from `line`, the summary line of the processor
    /// report, or from nothing when the report could not be read. With a
    /// good reading the counters move on to it; the text changes when some
    /// time passed between the two readings.
    pub fn update(&mut self, line: Option<&str>) -> (r: UpdateStatus)
        requires
            old(self).wf(),
        ensures
            final(self).wf(),
            match line {
                Option::Some(l) if counters_of(l@) is Some => {
                    let cur = counters_of(l@)->0;
                    &&& final(self).counters() == cur
                    &&& match load_hundredths(old(self).counters(), cur) {
                        Option::Some(h) => r == UpdateStatus::All && final(self).text() == seq![' ']
                            + hundredths_text(h) + seq!['%'],
                        Option::None => r == UpdateStatus::Unchanged && final(self).text() == old(
                            self,
                        ).text(),
                    }
                },
                _ => r == UpdateStatus::Unchanged && final(self).counters() == old(self).counters()
                    && final(self).text() == old(self).text(),
            },
    {
        let l = match line {
            Option::Some(l) => l,
            Option::None => {
                return UpdateStatus::Unchanged;
            },
        };
        let cur = match Self::get_status(l) {
            Option::Some(c) => c,
            Option::None => {
                return UpdateStatus::Unchanged;
            },
        };
        let ghost last = self.status@;
        let mut total: u128 = 0;
        let mut i: usize = 0;
        while i < 10
            invariant
                0 <= i <= 10,
                last.len() == 10,
                cur@.len() == 10,
                total == delta_sum(last, cur@, i as nat),
                self.status@ == last,
            decreases 10 - i,
        {
            proof {
                lemma_delta_sum_bound(last, cur@, (i + 1) as nat);
            }
            total = total + delta(self.status[i], cur[i]) as u128;
            i = i + 1;
        }
        let idle: u128 = delta(self.status[3], cur[3]) as u128 + delta(self.status[4], cur[4]) as u128;
        proof {
            lemma_delta_sum_parts(last, cur@, 10);
            lemma_delta_sum_bound(last, cur@, 10);
        }
        self.status = cur;
        if total == 0 {
            return UpdateStatus::Unchanged;
        }
        let num: u128 = (total - idle) * 10000;
        let q = num / total;
        let rem = num % total;
        assert(q <= 10000) by {
            vstd::arithmetic::div_mod::lemma_fundamental_div_mod(num as int, total as int);
            assert(q <= 10000) by (nonlinear_arith)
                requires
                    num as int == total as int * q as int + (num as int) % (total as int),
                    (num as int) % (total as int) >= 0,
                    num <= total * 10000,
                    total >= 1,
            ;
        }
        let h: u128 = if 2 * rem > total {
            q + 1
        } else if 2 * rem < total {
            q
        } else if q % 2 == 0 {
            q
        } else {
            q + 1
        };
        let mut text = String::new();
        proof {
            reveal_strlit(" ");
            reveal_strlit("%");
        }
        text.append(" ");
        push_hundredths(&mut text, h as u64);
        text.append("%");
        self.cache = text;
        UpdateStatus::All
    }
}

impl Module for CpuModule {
    closed spec fn text(&self) -> Seq<char> {
        self.cache@
    }

    open spec fn interval(&self) -> u64 {
        1000
    }

    fn get_string(&self) -> (r: &str) {
        self.cache.as_str()
    }

    fn update_interval(&self) -> (r: u64) {
        1000
    }
}

} // verus!
