use vstd::prelude::*;
use crate::module::{Module, UpdateStatus};
use crate::text::{has_prefix, parse_i64, parse_i64_spec, split_ascii_ws, starts_with, tokens, views};
use crate::units::{format_bytes, format_bytes_spec};

verus! {

/// Progress of a key lookup over the lines of a `key: value` listing.
pub struct LookupState {
    /// The value recorded for each key so far (and past the keys, values
    /// that the lookup leaves alone).
    pub values: Seq<i64>,
    /// Which keys have been read at least once.
    pub read: Seq<bool>,
}

/// Every one of the `n` keys has been read; there is at least one.
pub open spec fn all_read(st: LookupState, n: nat) -> bool {
    n > 0 && forall|i: int| 0 <= i < n ==> #[trigger] st.read[i]
}

/// None of the `n` keys has been read.
pub open spec fn none_read(st: LookupState, n: nat) -> bool {
    forall|i: int| 0 <= i < n ==> !#[trigger] st.read[i]
}

/// The value that `line` gives for the key `key`: the line begins with the
/// key, and its second whitespace-separated field is an integer.
pub open spec fn line_value(line: Seq<char>, key: Seq<char>) -> Option<i64> {
    if has_prefix(line, key) && tokens(line).len() >= 2 {
        parse_i64_spec(tokens(line)[1])
    } else {
        Option::None
    }
}

/// The state after trying the first `k` keys on one line. Each key that
/// the line gives a value for takes that value; the lookup stops as soon
/// as every key has been read.
pub open spec fn lookup_keys(line: Seq<char>, keys: Seq<Seq<char>>, st: LookupState, k: nat) -> LookupState
    decreases k,
{
    if k == 0 {
        st
    } else {
        let s = lookup_keys(line, keys, st, (k - 1) as nat);
        if all_read(s, keys.len()) {
            s
        } else {
            match line_value(line, keys[k - 1]) {
                Option::Some(v) => LookupState {
                    values: s.values.update(k - 1, v),
                    read: s.read.update(k - 1, true),
                },
                Option::None => s,
            }
        }
    }
}

/// The state after the first `m` lines.
pub open spec fn lookup_lines(
    lines: Seq<Seq<char>>,
    keys: Seq<Seq<char>>,
    st: LookupState,
    m: nat,
) -> LookupState
    decreases m,
{
    if m == 0 {
        st
    } else {
        let s = lookup_lines(lines, keys, st, (m - 1) as nat);
        if all_read(s, keys.len()) {
            s
        } else {
            lookup_keys(lines[m - 1], keys, s, keys.len())
        }
    }
}

/// Lookup of `keys` over `lines`, starting from the values `init`, with no
/// key read yet: each key keeps the last value read for it before every
/// key had been read.
pub open spec fn lookup(lines: Seq<Seq<char>>, keys: Seq<Seq<char>>, init: Seq<i64>) -> LookupState {
    lookup_lines(
        lines,
        keys,
        LookupState { values: init, read: Seq::new(keys.len(), |i: int| false) },
        lines.len(),
    )
}

/// Every key read: `All`; none: `Unchanged`; else `Partial`.
pub open spec fn lookup_status(st: LookupState, n_keys: nat) -> UpdateStatus {
    if all_read(st, n_keys) {
        UpdateStatus::All
    } else if none_read(st, n_keys) {
        UpdateStatus::Unchanged
    } else {
        UpdateStatus::Partial
    }
}

pub open spec fn key_views(v: Seq<&str>) -> Seq<Seq<char>> {
    v.map_values(|t: &str| t@)
}

proof fn lemma_keys_done(line: Seq<char>, keys: Seq<Seq<char>>, st: LookupState, j: nat, k: nat)
    requires
        j <= k,
        all_read(lookup_keys(line, keys, st, j), keys.len()),
    ensures
        lookup_keys(line, keys, st, k) == lookup_keys(line, keys, st, j),
    decreases k - j,
{
    if j < k {
        lemma_keys_done(line, keys, st, j, (k - 1) as nat);
    }
}

proof fn lemma_lines_done(lines: Seq<Seq<char>>, keys: Seq<Seq<char>>, st: LookupState, j: nat, m: nat)
    requires
        j <= m,
        all_read(lookup_lines(lines, keys, st, j), keys.len()),
    ensures
        lookup_lines(lines, keys, st, m) == lookup_lines(lines, keys, st, j),
    decreases m - j,
{
    if j < m {
        lemma_lines_done(lines, keys, st, j, (m - 1) as nat);
    }
}

/// The lookup changes no value past the keys, and keeps both lengths.
pub open spec fn keeps_shape(a: LookupState, b: LookupState, n: nat) -> bool {
    &&& b.values.len() == a.values.len()
    &&& b.read.len() == a.read.len()
    &&& forall|j: int| n <= j < a.values.len() ==> b.values[j] == a.values[j]
}

proof fn lemma_keys_shape(line: Seq<char>, keys: Seq<Seq<char>>, st: LookupState, k: nat)
    requires
        k <= keys.len(),
        st.values.len() >= keys.len(),
        st.read.len() == keys.len(),
    ensures
        keeps_shape(st, lookup_keys(line, keys, st, k), keys.len()),
    decreases k,
{
    if k > 0 {
        lemma_keys_shape(line, keys, st, (k - 1) as nat);
    }
}

proof fn lemma_lines_shape(lines: Seq<Seq<char>>, keys: Seq<Seq<char>>, st: LookupState, m: nat)
    requires
        m <= lines.len(),
        st.values.len() >= keys.len(),
        st.read.len() == keys.len(),
    ensures
        keeps_shape(st, lookup_lines(lines, keys, st, m), keys.len()),
    decreases m,
{
    if m > 0 {
        let s = lookup_lines(lines, keys, st, (m - 1) as nat);
        lemma_lines_shape(lines, keys, st, (m - 1) as nat);
        lemma_keys_shape(lines[m - 1], keys, s, keys.len());
    }
}

fn all_set(read: &Vec<bool>) -> (r: bool)
    ensures
        r == (read@.len() > 0 && forall|i: int| 0 <= i < read@.len() ==> #[trigger] read@[i]),
{
    if read.len() == 0 {
        return false;
    }
    let mut i: usize = 0;
    while i < read.len()
        invariant
            0 <= i <= read@.len(),
            forall|k: int| 0 <= k < i ==> #[trigger] read@[k],
        decreases read@.len() - i,
    {
        if !read[i] {
            return false;
        }
        i = i + 1;
    }
    true
}

fn none_set(read: &Vec<bool>) -> (r: bool)
    ensures
        r == (forall|i: int| 0 <= i < read@.len() ==> !#[trigger] read@[i]),
{
    let mut i: usize = 0;
    while i < read.len()
        invariant
            0 <= i <= read@.len(),
            forall|k: int| 0 <= k < i ==> !#[trigger] read@[k],
        decreases read@.len() - i,
    {
        if read[i] {
            return false;
        }
        i = i + 1;
    }
    true
}

/// Reads the value of each key from `lines` into the same position of
/// `results`, where a line that begins with the key holds the value as its
/// second field. Reading stops once every key has been read. Values of keys
/// that no line gives, and entries past the keys, are left as they were.
pub fn extract_from_lines(lines: &Vec<String>, queries: &Vec<&str>, results: &mut Vec<i64>) -> (r:
    UpdateStatus)
    requires
        old(results)@.len() >= queries@.len(),
    ensures
        ({
            let st = lookup(views(lines@), key_views(queries@), old(results)@);
            &&& final(results)@ == st.values
            &&& r == lookup_status(st, queries@.len())
        }),
        final(results)@.len() == old(results)@.len(),
        forall|j: int|
            queries@.len() <= j < old(results)@.len() ==> final(results)@[j] == old(results)@[j],
{
    let ghost lv = views(lines@);
    let ghost kv = key_views(queries@);
    let mut read: Vec<bool> = Vec::new();
    let mut z: usize = 0;
    while z < queries.len()
        invariant
            0 <= z <= queries@.len(),
            read@ == Seq::new(z as nat, |i: int| false),
        decreases queries@.len() - z,
    {
        read.push(false);
        assert(read@ == Seq::new((z + 1) as nat, |i: int| false));
        z = z + 1;
    }
    let ghost st0 = LookupState { values: old(results)@, read: read@ };
    assert(kv.len() == queries@.len());
    proof {
        if kv.len() > 0 {
            assert(!st0.read[0]);
        }
    }
    let mut li: usize = 0;
    while li < lines.len()
        invariant
            0 <= li <= lines@.len(),
            lv == views(lines@),
            kv == key_views(queries@),
            kv.len() == queries@.len(),
            old(results)@.len() >= queries@.len(),
            st0 == (LookupState {
                values: old(results)@,
                read: Seq::new(queries@.len(), |i: int| false),
            }),
            lookup_lines(lv, kv, st0, li as nat) == (LookupState { values: results@, read: read@ }),
            !all_read(lookup_lines(lv, kv, st0, li as nat), kv.len()),
        decreases lines@.len() - li,
    {
        proof {
            lemma_lines_shape(lv, kv, st0, li as nat);
        }
        let line = lines[li].as_str();
        let toks = split_ascii_ws(line);
        let ghost before = lookup_lines(lv, kv, st0, li as nat);
        let mut qi: usize = 0;
        while qi < queries.len()
            invariant
                0 <= li < lines@.len(),
                0 <= qi <= queries@.len(),
                lv == views(lines@),
                kv == key_views(queries@),
                kv.len() == queries@.len(),
                old(results)@.len() >= queries@.len(),
                st0 == (LookupState {
                    values: old(results)@,
                    read: Seq::new(queries@.len(), |i: int| false),
                }),
                line@ == lv[li as int],
                views(toks@) == tokens(line@),
                before == lookup_lines(lv, kv, st0, li as nat),
                before.values.len() >= kv.len(),
                before.read.len() == kv.len(),
                !all_read(before, kv.len()),
                lookup_keys(lv[li as int], kv, before, qi as nat) == (LookupState {
                    values: results@,
                    read: read@,
                }),
                !all_read(lookup_keys(lv[li as int], kv, before, qi as nat), kv.len()),
            decreases queries@.len() - qi,
        {
            proof {
                lemma_keys_shape(lv[li as int], kv, before, qi as nat);
            }
            let q = queries[qi];
            assert(kv[qi as int] == q@);
            assert(toks@.len() == tokens(line@).len());
            if starts_with(line, q) && toks.len() >= 2 {
                assert(toks@[1]@ == tokens(line@)[1]);
                match parse_i64(toks[1].as_str()) {
                    Option::Some(v) => {
                        results.set(qi, v);
                        read.set(qi, true);
                        let ghost s = lookup_keys(lv[li as int], kv, before, (qi + 1) as nat);
                        assert(s.values == results@);
                        assert(s.read == read@);
                        if all_set(&read) {
                            proof {
                                assert(all_read(s, kv.len()));
                                lemma_keys_done(lv[li as int], kv, before, (qi + 1) as nat, kv.len());
                                assert(lookup_lines(lv, kv, st0, (li + 1) as nat) == s);
                                lemma_lines_done(lv, kv, st0, (li + 1) as nat, lv.len());
                                assert(lookup(lv, kv, old(results)@) == s);
                                lemma_lines_shape(lv, kv, st0, lv.len());
                            }
                            return UpdateStatus::All;
                        }
                    },
                    Option::None => {},
                }
            }
            qi = qi + 1;
        }
        assert(kv.len() == queries@.len());
        li = li + 1;
    }
    assert(lv.len() == lines@.len());
    assert(lookup(lv, kv, old(results)@) == lookup_lines(lv, kv, st0, lv.len()));
    proof {
        lemma_lines_shape(lv, kv, st0, lv.len());
    }
    if none_set(&read) {
        UpdateStatus::Unchanged
    } else {
        UpdateStatus::Partial
    }
}

/// Keys read from the memory report: total, free, buffers, cache.
pub open spec fn memory_keys() -> Seq<Seq<char>> {
    seq!["MemTotal:"@, "MemFree:"@, "Buffers:"@, "Cached:"@]
}

/// Memory in use, in bytes, from readings in KiB: total less free, buffers
/// and cache, held between zero and the largest `u64`.
pub open spec fn used_bytes(v: Seq<i64>) -> nat {
    let b = (v[0] - v[1] - v[2] - v[3]) * 1024;
    if b < 0 {
        0
    } else if b > u64::MAX {
        u64::MAX as nat
    } else {
        b as nat
    }
}

/// Memory in use, read from the system's memory report.
pub struct MemoryModule {
    cache: String,
    results: Vec<i64>,
}

impl MemoryModule {
    /// The last readings of the four keys, in KiB.
    pub closed spec fn readings(&self) -> Seq<i64> {
        self.results@
    }

    pub open spec fn wf(&self) -> bool {
        self.readings().len() == 4
    }

    pub fn new() -> (r: Self)
        ensures
            r.wf(),
            r.readings() == seq![0i64, 0, 0, 0],
            r.text() == Seq::<char>::empty(),
    {
        MemoryModule { cache: String::new(), results: vec![0, 0, 0, 0] }
    }

    /// Reads the four keys from the lines of the memory report.
    pub fn get_results(&mut self, lines: &Vec<String>) -> (r: UpdateStatus)
        requires
            old(self).wf(),
        ensures
            ({
                let st = lookup(views(lines@), memory_keys(), old(self).readings());
                &&& final(self).readings() == st.values
                &&& r == lookup_status(st, 4)
            }),
            final(self).wf(),
            final(self).text() == old(self).text(),
    {
        let queries: Vec<&str> = vec!["MemTotal:", "MemFree:", "Buffers:", "Cached:"];
        assert(key_views(queries@) == memory_keys());
        extract_from_lines(lines, &queries, &mut self.results)
    }

    /// Refreshes from the memory report, or from nothing when it could not
    /// be read. The text changes only when some key was read.
    pub fn update(&mut self, source: Option<&Vec<String>>) -> (r: UpdateStatus)
        requires
            old(self).wf(),
        ensures
            final(self).wf(),
            match source {
                Option::None => r == UpdateStatus::Unchanged && final(self).readings() == old(
                    self,
                ).readings() && final(self).text() == old(self).text(),
                Option::Some(lines) => {
                    let st = lookup(views(lines@), memory_keys(), old(self).readings());
                    &&& final(self).readings() == st.values
                    &&& r == lookup_status(st, 4)
                    &&& r.needs_redraw() ==> final(self).text() == seq![' '] + format_bytes_spec(
                        used_bytes(st.values),
                    )
                    &&& !r.needs_redraw() ==> final(self).text() == old(self).text()
                },
            },
    {
        let lines = match source {
            Option::Some(lines) => lines,
            Option::None => {
                return UpdateStatus::Unchanged;
            },
        };
        let status = self.get_results(lines);
        if !status.bool() {
            return status;
        }
        let kib: i128 = self.results[0] as i128 - self.results[1] as i128 - self.results[2] as i128
            - self.results[3] as i128;
        let b: i128 = kib * 1024;
        let used: u64 = if b < 0 {
            0
        } else if b > u64::MAX as i128 {
            u64::MAX
        } else {
            b as u64
        };
        let mut text = String::new();
        proof {
            reveal_strlit(" ");
        }
        text.append(" ");
        let f = format_bytes(used);
        text.append(f.as_str());
        self.cache = text;
        status
    }
}

impl Module for MemoryModule {
    closed spec fn text(&self) -> Seq<char> {
        self.cache@
    }

    open spec fn interval(&self) -> u64 {
        2000
    }

    fn get_string(&self) -> (r: &str) {
        self.cache.as_str()
    }

    fn update_interval(&self) -> (r: u64) {
        2000
    }
}

} // verus!
