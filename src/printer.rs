use vstd::prelude::*;

verus! {

/// Longest time, in milliseconds, that a change may wait before it is printed.
pub const FLUSH_WINDOW_MS: u64 = 100;

/// What the coalescer remembers between decisions.
pub struct CoalescerState {
    /// Some refresh has happened that has not been printed yet.
    pub dirty: bool,
    /// When `dirty` last became true.
    pub dirty_since: u64,
}

/// The state after a refresh at `now`; `refreshed` is whether it changed
/// anything.
pub open spec fn mark(s: CoalescerState, now: u64, refreshed: bool) -> CoalescerState {
    if refreshed && !s.dirty {
        CoalescerState { dirty: true, dirty_since: now }
    } else if refreshed {
        CoalescerState { dirty: true, dirty_since: s.dirty_since }
    } else {
        s
    }
}

/// Whether to print now, at `now`, with the next job due at `next`.
///
/// Nothing is printed while the state is clean. When dirty, print if the
/// change has waited longer than the window, or else unless another job is
/// due within the window.
pub open spec fn flush_due(s: CoalescerState, now: u64, next: Option<u64>) -> bool {
    if !s.dirty {
        false
    } else if now > s.dirty_since + FLUSH_WINDOW_MS {
        true
    } else {
        match next {
            Option::None => true,
            Option::Some(t) => t > now + FLUSH_WINDOW_MS,
        }
    }
}

/// One decision: the new state, and whether to print.
pub open spec fn decide(s: CoalescerState, now: u64, next: Option<u64>, refreshed: bool) -> (
    CoalescerState,
    bool,
) {
    let t = mark(s, now, refreshed);
    (t, flush_due(t, now, next))
}

/// The printed line: each part followed by one space.
pub open spec fn line_of(parts: Seq<Seq<char>>) -> Seq<char>
    decreases parts.len(),
{
    if parts.len() == 0 {
        Seq::empty()
    } else {
        line_of(parts.drop_last()) + parts.last() + seq![' ']
    }
}

/// A refresh that changed nothing does not by itself cause a print: the
/// state is left as it was, and a decision to print means that an earlier
/// change was still waiting.
pub proof fn lemma_unchanged_refresh_prints_only_pending(
    s: CoalescerState,
    now: u64,
    next: Option<u64>,
)
    ensures
        decide(s, now, next, false).0 == s,
        decide(s, now, next, false).1 ==> s.dirty,
{
}

/// Latency bound. Once a change is pending since `t0`, `t0` stays put until
/// the line is printed, every decision later than `t0` plus the window
/// prints, and a decision that defers does so only because another job is
/// due within the window.
pub proof fn lemma_latency_bound(s: CoalescerState, now: u64, next: Option<u64>, refreshed: bool)
    requires
        s.dirty || refreshed,
    ensures
        ({
            let (t, print) = decide(s, now, next, refreshed);
            &&& t.dirty
            &&& t.dirty_since == (if s.dirty {
                s.dirty_since
            } else {
                now
            })
            &&& now > t.dirty_since + FLUSH_WINDOW_MS ==> print
            &&& !print ==> (next matches Option::Some(n) && n <= now + FLUSH_WINDOW_MS)
        }),
{
}

/// Two changes on a clean line, the second due no later than the window
/// after the first, are printed together: the first decision defers, and
/// the second prints when no further job is due within the window.
pub proof fn lemma_close_refreshes_print_once(
    s: CoalescerState,
    t1: u64,
    t2: u64,
    next2: Option<u64>,
)
    requires
        !s.dirty,
        t1 <= t2 <= t1 + FLUSH_WINDOW_MS,
        next2 matches Option::Some(n) ==> n > t2 + FLUSH_WINDOW_MS,
    ensures
        ({
            let (s1, first) = decide(s, t1, Option::Some(t2), true);
            let (s2, second) = decide(s1, t2, next2, true);
            !first && second
        }),
{
}

/// The line of `a` followed by `b` is the line of `a` followed by the line
/// of `b`.
pub proof fn lemma_line_of_append(a: Seq<Seq<char>>, b: Seq<Seq<char>>)
    ensures
        line_of(a + b) == line_of(a) + line_of(b),
    decreases b.len(),
{
    if b.len() == 0 {
        assert(a + b == a);
        assert(line_of(a) + line_of(b) == line_of(a));
    } else {
        lemma_line_of_append(a, b.drop_last());
        assert((a + b).drop_last() == a + b.drop_last());
        assert((a + b).last() == b.last());
        assert(line_of(a) + (line_of(b.drop_last()) + b.last() + seq![' ']) == line_of(a) + line_of(
            b.drop_last(),
        ) + b.last() + seq![' ']);
    }
}

/// Each part stands in the line at its own place: right after the line of
/// the parts before it, and followed by one space. So a line printed after
/// several providers changed holds each one's new text at its position.
pub proof fn lemma_part_position(parts: Seq<Seq<char>>, i: int)
    requires
        0 <= i < parts.len(),
    ensures
        ({
            let start = line_of(parts.take(i)).len() as int;
            let end = start + parts[i].len();
            &&& line_of(parts).subrange(start, end) == parts[i]
            &&& line_of(parts)[end] == ' '
        }),
{
    let head = parts.take(i);
    let one = seq![parts[i]];
    let tail = parts.skip(i + 1);
    assert(parts == head + one + tail);
    lemma_line_of_append(head + one, tail);
    lemma_line_of_append(head, one);
    assert(one.drop_last() == Seq::<Seq<char>>::empty());
    assert(line_of(one) == line_of(one.drop_last()) + one.last() + seq![' ']);
    assert(Seq::<char>::empty() + parts[i] == parts[i]);
    assert(line_of(one) == parts[i] + seq![' ']);
    let start = line_of(head).len() as int;
    let end = start + parts[i].len();
    let whole = line_of(head) + (parts[i] + seq![' ']) + line_of(tail);
    assert(line_of(parts) == whole);
    assert(whole.subrange(start, end) == parts[i]);
    assert(whole[end] == ' ');
}

/// Output coalescer: decides after each job whether the line is printed.
pub struct Printer {
    require_refresh: bool,
    time_out_of_sync: u64,
}

impl View for Printer {
    type V = CoalescerState;

    closed spec fn view(&self) -> CoalescerState {
        CoalescerState { dirty: self.require_refresh, dirty_since: self.time_out_of_sync }
    }
}

impl Printer {
    /// A coalescer created at `now`; nothing has been printed yet, so it
    /// starts dirty.
    pub fn new(now: u64) -> (r: Self)
        ensures
            r@ == (CoalescerState { dirty: true, dirty_since: now }),
    {
        Printer { require_refresh: true, time_out_of_sync: now }
    }

    /// Records a refresh at `now` (`required`: whether it changed anything)
    /// and says whether the line is to be printed, given the due time of
    /// the next queued job.
    pub fn require_refresh(&mut self, now: u64, next_time: Option<u64>, required: bool) -> (r: bool)
        ensures
            (final(self)@, r) == decide(old(self)@, now, next_time, required),
    {
        if required {
            if !self.require_refresh {
                self.time_out_of_sync = now;
            }
            self.require_refresh = true;
        }
        if !self.require_refresh {
            false
        } else if now >= self.time_out_of_sync && now - self.time_out_of_sync > FLUSH_WINDOW_MS {
            true
        } else {
            match next_time {
                Option::Some(t) => t >= now && t - now > FLUSH_WINDOW_MS,
                Option::None => true,
            }
        }
    }

    /// Builds the line to print from the providers' texts, in list order,
    /// and marks everything as shown.
    pub fn output(&mut self, parts: &Vec<String>) -> (line: String)
        ensures
            line@ == line_of(parts@.map_values(|p: String| p@)),
            final(self)@ == (CoalescerState { dirty: false, dirty_since: old(self)@.dirty_since }),
    {
        let ghost views = parts@.map_values(|p: String| p@);
        let mut line = String::new();
        let mut i: usize = 0;
        while i < parts.len()
            invariant
                0 <= i <= parts@.len(),
                views == parts@.map_values(|p: String| p@),
                line@ == line_of(views.subrange(0, i as int)),
            decreases parts@.len() - i,
        {
            proof {
                reveal_strlit(" ");
            }
            line.append(parts[i].as_str());
            line.append(" ");
            assert(views.subrange(0, i + 1).drop_last() == views.subrange(0, i as int));
            i = i + 1;
        }
        assert(views.subrange(0, i as int) == views);
        self.require_refresh = false;
        line
    }
}

} // verus!
