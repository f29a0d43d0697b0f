use vstd::prelude::*;

verus! {

/// ASCII whitespace as `str::split_ascii_whitespace` understands it.
pub open spec fn is_ascii_ws(c: char) -> bool {
    c == ' ' || c == '\t' || c == '\n' || c == '\r' || c == '\x0C'
}

/// Scanning state after `s`: the finished tokens and the token in progress.
pub open spec fn scan(s: Seq<char>) -> (Seq<Seq<char>>, Seq<char>)
    decreases s.len(),
{
    if s.len() == 0 {
        (Seq::empty(), Seq::empty())
    } else {
        let (done, cur) = scan(s.drop_last());
        if is_ascii_ws(s.last()) {
            if cur.len() > 0 {
                (done.push(cur), Seq::empty())
            } else {
                (done, Seq::empty())
            }
        } else {
            (done, cur.push(s.last()))
        }
    }
}

/// The maximal runs of non-whitespace characters of `s`, in order.
pub open spec fn tokens(s: Seq<char>) -> Seq<Seq<char>> {
    let (done, cur) = scan(s);
    if cur.len() > 0 {
        done.push(cur)
    } else {
        done
    }
}

pub open spec fn views(v: Seq<String>) -> Seq<Seq<char>> {
    v.map_values(|t: String| t@)
}

/// Splits `s` at ASCII whitespace, dropping empty pieces.
pub fn split_ascii_ws(s: &str) -> (r: Vec<String>)
    ensures
        views(r@) == tokens(s@),
{
    let n = s.unicode_len();
    let mut out: Vec<String> = Vec::new();
    let mut start: usize = 0;
    let mut in_tok = false;
    let mut i: usize = 0;
    while i < n
        invariant
            n == s@.len(),
            0 <= start <= i <= n,
            views(out@) == scan(s@.subrange(0, i as int)).0,
            in_tok ==> scan(s@.subrange(0, i as int)).1 == s@.subrange(start as int, i as int),
            in_tok ==> start < i,
            !in_tok ==> scan(s@.subrange(0, i as int)).1.len() == 0,
        decreases n - i,
    {
        let c = s.get_char(i);
        let ghost pre = s@.subrange(0, i as int);
        assert(s@.subrange(0, i + 1).drop_last() == pre);
        assert(s@.subrange(0, i + 1).last() == c);
        if c == ' ' || c == '\t' || c == '\n' || c == '\r' || c == '\x0C' {
            if in_tok {
                let t = s.substring_char(start, i).to_owned();
                let ghost old_out = out@;
                out.push(t);
                assert(views(out@) == views(old_out).push(t@));
                in_tok = false;
            }
        } else {
            if !in_tok {
                start = i;
                in_tok = true;
            }
            assert(s@.subrange(start as int, i + 1) == s@.subrange(start as int, i as int).push(c));
        }
        i = i + 1;
    }
    assert(s@.subrange(0, n as int) == s@);
    if in_tok {
        let t = s.substring_char(start, n).to_owned();
        let ghost old_out = out@;
        out.push(t);
        assert(views(out@) == views(old_out).push(t@));
    }
    out
}

/// `s` begins with `p`.
pub open spec fn has_prefix(s: Seq<char>, p: Seq<char>) -> bool {
    p.len() <= s.len() && s.subrange(0, p.len() as int) == p
}

pub fn starts_with(s: &str, p: &str) -> (r: bool)
    ensures
        r == has_prefix(s@, p@),
{
    let n = s.unicode_len();
    let m = p.unicode_len();
    if m > n {
        return false;
    }
    let mut i: usize = 0;
    while i < m
        invariant
            n == s@.len(),
            m == p@.len(),
            m <= n,
            0 <= i <= m,
            forall|k: int| 0 <= k < i ==> s@[k] == p@[k],
        decreases m - i,
    {
        if s.get_char(i) != p.get_char(i) {
            assert(s@.subrange(0, m as int)[i as int] != p@[i as int]);
            return false;
        }
        i = i + 1;
    }
    assert(s@.subrange(0, m as int) == p@);
    true
}

/// `a` and `b` hold the same characters.
pub fn same_text(a: &str, b: &str) -> (r: bool)
    ensures
        r == (a@ == b@),
{
    if a.unicode_len() != b.unicode_len() {
        return false;
    }
    assert(a@.subrange(0, a@.len() as int) =~= a@);
    starts_with(a, b)
}

pub open spec fn is_digit(c: char) -> bool {
    '0' <= c <= '9'
}

pub open spec fn all_digits(s: Seq<char>) -> bool {
    forall|i: int| 0 <= i < s.len() ==> is_digit(#[trigger] s[i])
}

/// The value of a string of decimal digits.
pub open spec fn digits_value(s: Seq<char>) -> int
    decreases s.len(),
{
    if s.len() == 0 {
        0
    } else {
        10 * digits_value(s.drop_last()) + (s.last() as int - '0' as int)
    }
}

/// One or more decimal digits, and their value.
pub open spec fn digits(s: Seq<char>) -> Option<int> {
    if s.len() > 0 && all_digits(s) {
        Option::Some(digits_value(s))
    } else {
        Option::None
    }
}

/// What `str::parse::<u64>` accepts: an optional `+`, then digits, with a
/// value that fits.
pub open spec fn parse_u64_spec(s: Seq<char>) -> Option<u64> {
    let body = if s.len() > 0 && s[0] == '+' {
        s.drop_first()
    } else {
        s
    };
    match digits(body) {
        Option::Some(v) => if v <= u64::MAX {
            Option::Some(v as u64)
        } else {
            Option::None
        },
        Option::None => Option::None,
    }
}

/// What `str::parse::<i64>` accepts: an optional `+` or `-`, then digits,
/// with a value that fits.
pub open spec fn parse_i64_spec(s: Seq<char>) -> Option<i64> {
    if s.len() > 0 && s[0] == '-' {
        match digits(s.drop_first()) {
            Option::Some(v) => if v <= 0x8000_0000_0000_0000 {
                Option::Some((-v) as i64)
            } else {
                Option::None
            },
            Option::None => Option::None,
        }
    } else {
        let body = if s.len() > 0 && s[0] == '+' {
            s.drop_first()
        } else {
            s
        };
        match digits(body) {
            Option::Some(v) => if v <= i64::MAX {
                Option::Some(v as i64)
            } else {
                Option::None
            },
            Option::None => Option::None,
        }
    }
}

proof fn lemma_digits_value_grows(s: Seq<char>, k: int)
    requires
        all_digits(s),
        0 <= k <= s.len(),
    ensures
        0 <= digits_value(s.subrange(0, k)) <= digits_value(s),
    decreases s.len(),
{
    if k < s.len() {
        assert(all_digits(s.drop_last()));
        assert(s.drop_last().subrange(0, k) == s.subrange(0, k));
        lemma_digits_value_grows(s.drop_last(), k);
    } else {
        assert(s.subrange(0, k) == s);
        if s.len() > 0 {
            assert(all_digits(s.drop_last()));
            lemma_digits_value_grows(s.drop_last(), k - 1);
            assert(s.drop_last().subrange(0, k - 1) == s.drop_last());
        }
    }
}

/// Reads the digits of `s` from `from` on, up to `limit`.
fn digits_upto(s: &str, from: usize, limit: u64) -> (r: Option<u64>)
    requires
        from <= s@.len(),
    ensures
        r == (match digits(s@.subrange(from as int, s@.len() as int)) {
            Option::Some(v) => if v <= limit {
                Option::Some(v as u64)
            } else {
                Option::None
            },
            Option::None => Option::None,
        }),
        r matches Option::Some(v) ==> digits(s@.subrange(from as int, s@.len() as int)) == Option::Some(
            v as int,
        ),
{
    let n = s.unicode_len();
    let ghost body = s@.subrange(from as int, n as int);
    if from == n {
        return Option::None;
    }
    let mut acc: u64 = 0;
    let mut overflow = false;
    let mut i: usize = from;
    while i < n
        invariant
            n == s@.len(),
            body == s@.subrange(from as int, n as int),
            from <= i <= n,
            all_digits(body.subrange(0, i - from)),
            !overflow ==> acc == digits_value(body.subrange(0, i - from)),
            !overflow ==> acc <= limit,
            overflow ==> digits_value(body.subrange(0, i - from)) > limit,
        decreases n - i,
    {
        let c = s.get_char(i);
        assert(body[i - from] == c);
        if !('0' <= c && c <= '9') {
            assert(!all_digits(body));
            return Option::None;
        }
        let ghost prev = body.subrange(0, i - from);
        assert(body.subrange(0, i - from + 1).drop_last() == prev);
        let d = (c as u32 - '0' as u32) as u64;
        if !overflow {
            let next = (acc as u128) * 10 + (d as u128);
            if next > limit as u128 {
                overflow = true;
            } else {
                acc = next as u64;
            }
        } else {
            proof {
                assert(all_digits(body.subrange(0, i - from + 1)));
                lemma_digits_value_grows(body.subrange(0, i - from + 1), i - from);
            }
        }
        i = i + 1;
    }
    assert(body.subrange(0, n - from) == body);
    if overflow {
        Option::None
    } else {
        Option::Some(acc)
    }
}

pub fn parse_u64(s: &str) -> (r: Option<u64>)
    ensures
        r == parse_u64_spec(s@),
{
    let n = s.unicode_len();
    assert(s@.subrange(0, n as int) == s@);
    let from: usize = if n > 0 && s.get_char(0) == '+' {
        assert(s@.subrange(1, n as int) == s@.drop_first());
        1
    } else {
        0
    };
    digits_upto(s, from, u64::MAX)
}

pub fn parse_i64(s: &str) -> (r: Option<i64>)
    ensures
        r == parse_i64_spec(s@),
{
    let n = s.unicode_len();
    assert(s@.subrange(0, n as int) == s@);
    if n > 0 && s.get_char(0) == '-' {
        assert(s@.subrange(1, n as int) == s@.drop_first());
        match digits_upto(s, 1, 0x8000_0000_0000_0000) {
            Option::Some(v) => {
                if v == 0x8000_0000_0000_0000 {
                    Option::Some(i64::MIN)
                } else {
                    let m = v as i64;
                    Option::Some(-m)
                }
            },
            Option::None => Option::None,
        }
    } else {
        let from: usize = if n > 0 && s.get_char(0) == '+' {
            assert(s@.subrange(1, n as int) == s@.drop_first());
            1
        } else {
            0
        };
        match digits_upto(s, from, i64::MAX as u64) {
            Option::Some(v) => Option::Some(v as i64),
            Option::None => Option::None,
        }
    }
}

} // verus!
