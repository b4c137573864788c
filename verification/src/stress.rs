//! Load-test support: duration and batch pattern parsing, elapsed-time
//! formatting, success/failure counting and latency percentiles.

use std::time::Duration;
use vstd::prelude::*;
use vstd::string::StrSliceExecFns;

use crate::cli::{comma_pieces, split_snake_ids};
use crate::ids::{parse_uuid, uuid_parsed};
use crate::text::{owned, parse_unsigned, parse_unsigned_exec, push_zero_padded, trim, trimmed, zero_padded};

verus! {

/// The whole seconds of a duration, as `Duration::as_secs` returns them.
pub uninterp spec fn duration_secs(d: Duration) -> nat;

/// The whole microseconds of a duration, as `Duration::as_micros` returns
/// them.
pub uninterp spec fn duration_micros(d: Duration) -> nat;

/// The nanoseconds of a duration past its whole seconds, as
/// `Duration::subsec_nanos` returns them.
pub uninterp spec fn duration_subsec_nanos(d: Duration) -> nat;

/// Calls `Duration::from_secs`: a duration of exactly `secs` seconds, with
/// no fraction of a second.
#[verifier::external_body]
pub(crate) fn duration_from_secs(secs: u64) -> (d: Duration)
    ensures
        duration_secs(d) == secs,
        duration_subsec_nanos(d) == 0,
        duration_micros(d) == secs * 1_000_000,
{
    Duration::from_secs(secs)
}

/// Calls `Duration::as_secs`.
#[verifier::external_body]
pub(crate) fn duration_as_secs(d: &Duration) -> (s: u64)
    ensures
        s == duration_secs(*d),
{
    d.as_secs()
}

/// Calls `Duration::as_micros`: the whole microseconds, whose whole
/// millions are the whole seconds that `as_secs` gives.
#[verifier::external_body]
pub(crate) fn duration_as_micros(d: &Duration) -> (s: u128)
    ensures
        s == duration_micros(*d),
        s / 1_000_000 == duration_secs(*d),
{
    d.as_micros()
}

/// Seconds in a duration written as a number followed by 's', 'm' or 'h'
/// (after trimming white space), or the error message.
pub open spec fn duration_text_secs(s: Seq<char>) -> Result<nat, Seq<char>> {
    let t = trimmed(s);
    if t.len() > 0 && t.last() == 's' {
        match parse_unsigned(t.drop_last(), u64::MAX as nat) {
            Some(v) => Ok(v),
            None => Err("Invalid seconds"@),
        }
    } else if t.len() > 0 && t.last() == 'm' {
        match parse_unsigned(t.drop_last(), u64::MAX as nat) {
            Some(v) => Ok(v * 60),
            None => Err("Invalid minutes"@),
        }
    } else if t.len() > 0 && t.last() == 'h' {
        match parse_unsigned(t.drop_last(), u64::MAX as nat) {
            Some(v) => Ok(v * 3600),
            None => Err("Invalid hours"@),
        }
    } else {
        Err("Duration must end with 's', 'm', or 'h'"@)
    }
}

/// Minutes or hours so large that their seconds overflow `u64`.
pub open spec fn duration_text_overflows(s: Seq<char>) -> bool {
    duration_text_secs(s) matches Ok(v) && v > u64::MAX
}

/// Parses a duration such as "30s", "5m" or "1h".
pub fn parse_duration(s: &str) -> (r: Result<Duration, String>)
    requires
        !duration_text_overflows(s@),
    ensures
        match duration_text_secs(s@) {
            Ok(v) => r matches Ok(d) && duration_secs(d) == v && duration_subsec_nanos(d) == 0
                && duration_micros(d) == v * 1_000_000,
            Err(e) => r matches Err(m) && m@ == e,
        },
{
    let t = trim(s);
    let n = t.unicode_len();
    if n == 0 {
        return Err(owned("Duration must end with 's', 'm', or 'h'"));
    }
    let last = t.get_char(n - 1);
    let rest = t.substring_char(0, n - 1);
    assert(rest@ =~= trimmed(s@).drop_last());
    if last == 's' {
        match parse_unsigned_exec(rest, u64::MAX) {
            Some(v) => Ok(duration_from_secs(v)),
            None => Err(owned("Invalid seconds")),
        }
    } else if last == 'm' {
        match parse_unsigned_exec(rest, u64::MAX) {
            Some(v) => Ok(duration_from_secs(v * 60)),
            None => Err(owned("Invalid minutes")),
        }
    } else if last == 'h' {
        match parse_unsigned_exec(rest, u64::MAX) {
            Some(v) => Ok(duration_from_secs(v * 3600)),
            None => Err(owned("Invalid hours")),
        }
    } else {
        Err(owned("Duration must end with 's', 'm', or 'h'"))
    }
}

/// Formats a duration's whole seconds as `HH:MM:SS`, hours zero-padded to at
/// least two digits.
pub open spec fn hms_text(total: nat) -> Seq<char> {
    zero_padded(total / 3600, 2) + seq![':'] + zero_padded((total % 3600) / 60, 2) + seq![':']
        + zero_padded(total % 60, 2)
}

pub fn format_duration(d: Duration) -> (r: String)
    ensures
        r@ == hms_text(duration_secs(d)),
{
    let total_secs = duration_as_secs(&d);
    let hours = total_secs / 3600;
    let mins = (total_secs % 3600) / 60;
    let secs = total_secs % 60;
    let mut s = String::new();
    push_zero_padded(&mut s, hours, 2);
    crate::text::push_char(&mut s, ':');
    push_zero_padded(&mut s, mins, 2);
    crate::text::push_char(&mut s, ':');
    push_zero_padded(&mut s, secs, 2);
    assert(s@ =~= hms_text(duration_secs(d)));
    s
}

} // verus!

verus! {

/// Number of times `c` occurs in `s`.
pub open spec fn count_char(s: Seq<char>, c: char) -> nat
    decreases s.len(),
{
    if s.len() == 0 {
        0
    } else {
        count_char(s.drop_last(), c) + if s.last() == c {
            1nat
        } else {
            0nat
        }
    }
}

/// Index of the first `c` in `s`.
pub open spec fn first_char_index(s: Seq<char>, c: char) -> int {
    choose|k: int| 0 <= k < s.len() && s[k] == c && forall|j: int| 0 <= j < k ==> s[j] != c
}

/// The two comma-separated parts of a batch pattern.
pub open spec fn batch_parts(s: Seq<char>) -> (Seq<char>, Seq<char>) {
    let k = first_char_index(s, ',');
    (s.subrange(0, k), s.subrange(k + 1, s.len() as int))
}

/// What parsing a batch pattern "count,interval" gives: the batch size and
/// the interval in seconds, or the error message.
pub open spec fn batch_pattern_of(s: Seq<char>) -> Result<(nat, nat), Seq<char>> {
    if count_char(s, ',') != 1 {
        Err("Batch format: 'count,interval' (e.g., '100,30s')"@)
    } else {
        let (p0, p1) = batch_parts(s);
        match parse_unsigned(trimmed(p0), u32::MAX as nat) {
            None => Err("Invalid batch size"@),
            Some(size) => match duration_text_secs(trimmed(p1)) {
                Err(e) => Err(e),
                Ok(secs) => if size == 0 {
                    Err("Batch size must be positive"@)
                } else {
                    Ok((size, secs))
                },
            },
        }
    }
}

/// The interval part of a pattern that is parsed does not overflow.
pub open spec fn batch_pattern_in_range(s: Seq<char>) -> bool {
    count_char(s, ',') == 1 && parse_unsigned(trimmed(batch_parts(s).0), u32::MAX as nat) is Some
        ==> !duration_text_overflows(trimmed(batch_parts(s).1))
}

/// A batch load pattern: `batch_size` games every `interval`.
pub struct BatchPattern {
    pub batch_size: u32,
    pub interval: Duration,
}

fn comma_positions(s: &str) -> (r: (usize, usize))
    ensures
        r.0 == count_char(s@, ','),
        r.0 >= 1 ==> r.1 == first_char_index(s@, ',') && r.1 < s@.len(),
{
    let n = s.unicode_len();
    let mut count: usize = 0;
    let mut first: usize = 0;
    let mut i: usize = 0;
    while i < n
        invariant
            n == s@.len(),
            i <= n,
            count == count_char(s@.subrange(0, i as int), ','),
            count <= i,
            count >= 1 ==> first < i && s@[first as int] == ',' && forall|j: int|
                0 <= j < first ==> s@[j] != ',',
            count == 0 ==> forall|j: int| 0 <= j < i ==> s@[j] != ',',
        decreases n - i,
    {
        assert(s@.subrange(0, i + 1).drop_last() =~= s@.subrange(0, i as int));
        if s.get_char(i) == ',' {
            if count == 0 {
                first = i;
            }
            count = count + 1;
        }
        i = i + 1;
    }
    assert(s@.subrange(0, n as int) =~= s@);
    proof {
        if count >= 1 {
            let k = first_char_index(s@, ',');
            assert(0 <= first < s@.len() && s@[first as int] == ',' && forall|j: int|
                0 <= j < first ==> s@[j] != ',');
            assert(k == first) by {
                if k < first {
                } else if k > first {
                }
            }
        }
    }
    (count, first)
}

impl BatchPattern {
    /// Parses "count,interval", such as "100,30s"; the count is a positive
    /// `u32`.
    pub fn from_str(s: &str) -> (r: Result<BatchPattern, String>)
        requires
            batch_pattern_in_range(s@),
        ensures
            match batch_pattern_of(s@) {
                Ok((size, secs)) => r matches Ok(p) && p.batch_size == size && duration_secs(
                    p.interval,
                ) == secs && duration_subsec_nanos(p.interval) == 0 && duration_micros(p.interval)
                    == secs * 1_000_000,
                Err(e) => r matches Err(m) && m@ == e,
            },
    {
        let (count, k) = comma_positions(s);
        if count != 1 {
            return Err(owned("Batch format: 'count,interval' (e.g., '100,30s')"));
        }
        let n = s.unicode_len();
        let p0 = s.substring_char(0, k);
        let p1 = s.substring_char(k + 1, n);
        let size = match parse_unsigned_exec(trim(p0), u32::MAX as u64) {
            Some(v) => v as u32,
            None => {
                return Err(owned("Invalid batch size"));
            },
        };
        let interval = match parse_duration(trim(p1)) {
            Ok(d) => d,
            Err(e) => {
                return Err(e);
            },
        };
        if size == 0 {
            return Err(owned("Batch size must be positive"));
        }
        Ok(BatchPattern { batch_size: size, interval })
    }
}

} // verus!

verus! {

/// Counts of created and failed games and the latencies of the created
/// ones, in microseconds. Counters wrap around like atomic additions.
pub struct Stats {
    pub total_games: u64,
    pub successful: u64,
    pub failed: u64,
    pub latencies: Vec<u64>,
}

pub open spec fn wrapping_inc(x: u64) -> u64 {
    if x == u64::MAX {
        0
    } else {
        (x + 1) as u64
    }
}

impl Stats {
    pub fn new() -> (s: Stats)
        ensures
            s.total_games == 0,
            s.successful == 0,
            s.failed == 0,
            s.latencies@.len() == 0,
    {
        Stats { total_games: 0, successful: 0, failed: 0, latencies: Vec::new() }
    }

    /// Counts a created game and keeps its latency in microseconds.
    pub fn record_success(&mut self, latency: Duration)
        ensures
            final(self).total_games == wrapping_inc(old(self).total_games),
            final(self).successful == wrapping_inc(old(self).successful),
            final(self).failed == old(self).failed,
            final(self).latencies@ == old(self).latencies@.push(
                (duration_micros(latency) % 0x1_0000_0000_0000_0000) as u64,
            ),
    {
        self.total_games = self.total_games.wrapping_add(1);
        self.successful = self.successful.wrapping_add(1);
        let us = duration_as_micros(&latency);
        let low = (us % 0x1_0000_0000_0000_0000u128) as u64;
        self.latencies.push(low);
    }

    /// Counts a failed game.
    pub fn record_failure(&mut self)
        ensures
            final(self).total_games == wrapping_inc(old(self).total_games),
            final(self).successful == old(self).successful,
            final(self).failed == wrapping_inc(old(self).failed),
            final(self).latencies@ == old(self).latencies@,
    {
        self.total_games = self.total_games.wrapping_add(1);
        self.failed = self.failed.wrapping_add(1);
    }
}

/// Inserts `x` into a sequence sorted from smallest to largest.
pub open spec fn insert_asc(x: u64, s: Seq<u64>) -> Seq<u64>
    decreases s.len(),
{
    if s.len() == 0 {
        seq![x]
    } else if x <= s[0] {
        seq![x] + s
    } else {
        seq![s[0]] + insert_asc(x, s.drop_first())
    }
}

/// The sequence sorted from smallest to largest.
pub open spec fn sort_asc(s: Seq<u64>) -> Seq<u64>
    decreases s.len(),
{
    if s.len() == 0 {
        s
    } else {
        insert_asc(s.last(), sort_asc(s.drop_last()))
    }
}

proof fn lemma_insert_asc_at(x: u64, s: Seq<u64>, p: int)
    requires
        0 <= p <= s.len(),
        forall|j: int| 0 <= j < p ==> s[j] < x,
        p == s.len() || x <= s[p],
    ensures
        insert_asc(x, s) == s.insert(p, x),
    decreases s.len(),
{
    if s.len() == 0 {
        assert(s.insert(p, x) =~= seq![x]);
    } else if p == 0 {
        assert(s.insert(p, x) =~= seq![x] + s);
    } else {
        let t = s.drop_first();
        lemma_insert_asc_at(x, t, p - 1);
        assert(s.insert(p, x) =~= seq![s[0]] + t.insert(p - 1, x));
    }
}

proof fn lemma_insert_asc_len(x: u64, s: Seq<u64>)
    ensures
        insert_asc(x, s).len() == s.len() + 1,
    decreases s.len(),
{
    if s.len() > 0 {
        lemma_insert_asc_len(x, s.drop_first());
    }
}

proof fn lemma_sort_asc_len(s: Seq<u64>)
    ensures
        sort_asc(s).len() == s.len(),
    decreases s.len(),
{
    if s.len() > 0 {
        lemma_sort_asc_len(s.drop_last());
        lemma_insert_asc_len(s.last(), sort_asc(s.drop_last()));
    }
}

/// Whether a sequence is in ascending order.
pub open spec fn ascending(s: Seq<u64>) -> bool {
    forall|i: int, j: int| 0 <= i < j < s.len() ==> s[i] <= s[j]
}

/// Inserting by `insert_asc` puts `x` at some position of `s`.
proof fn lemma_insert_asc_is_insert(x: u64, s: Seq<u64>) -> (p: int)
    ensures
        0 <= p <= s.len(),
        insert_asc(x, s) == s.insert(p, x),
        forall|j: int| 0 <= j < p ==> s[j] < x,
        p < s.len() ==> x <= s[p],
    decreases s.len(),
{
    if s.len() == 0 {
        assert(s.insert(0, x) =~= seq![x]);
        0
    } else if x <= s[0] {
        assert(s.insert(0, x) =~= seq![x] + s);
        0
    } else {
        let t = s.drop_first();
        let q = lemma_insert_asc_is_insert(x, t);
        assert(s.insert(q + 1, x) =~= seq![s[0]] + t.insert(q, x));
        assert forall|j: int| 0 <= j < q + 1 implies s[j] < x by {
            if j > 0 {
                assert(s[j] == t[j - 1]);
            }
        }
        if q + 1 < s.len() {
            assert(s[q + 1] == t[q]);
        }
        q + 1
    }
}

proof fn lemma_insert_asc_sorted(x: u64, s: Seq<u64>)
    requires
        ascending(s),
    ensures
        ascending(insert_asc(x, s)),
{
    let p = lemma_insert_asc_is_insert(x, s);
    let r = s.insert(p, x);
    assert forall|i: int, j: int| 0 <= i < j < r.len() implies r[i] <= r[j] by {
        if j < p {
        } else if j == p {
            assert(r[i] == s[i]);
        } else if i == p {
            assert(r[j] == s[j - 1]);
            assert(r[i] == x);
            assert(x <= s[p]);
        } else if i < p {
            assert(r[i] == s[i] && r[j] == s[j - 1]);
        } else {
            assert(r[i] == s[i - 1] && r[j] == s[j - 1]);
        }
    }
}

/// Sorting puts the latencies in ascending order and keeps every one of
/// them, each as often as it occurs.
pub proof fn lemma_sort_asc_sorted_permutation(s: Seq<u64>)
    ensures
        ascending(sort_asc(s)),
        sort_asc(s).to_multiset() == s.to_multiset(),
    decreases s.len(),
{
    if s.len() == 0 {
    } else {
        let t = s.drop_last();
        lemma_sort_asc_sorted_permutation(t);
        lemma_insert_asc_sorted(s.last(), sort_asc(t));
        let p = lemma_insert_asc_is_insert(s.last(), sort_asc(t));
        vstd::seq_lib::to_multiset_insert(sort_asc(t), p, s.last());
        vstd::seq_lib::to_multiset_build(t, s.last());
        assert(t.push(s.last()) =~= s);
    }
}

/// Sorts latencies from smallest to largest.
pub fn sort_latencies(v: &Vec<u64>) -> (r: Vec<u64>)
    ensures
        r@ == sort_asc(v@),
{
    let mut r: Vec<u64> = Vec::new();
    let n = v.len();
    let mut i: usize = 0;
    while i < n
        invariant
            n == v@.len(),
            i <= n,
            r@ == sort_asc(v@.subrange(0, i as int)),
        decreases n - i,
    {
        let x = v[i];
        let m = r.len();
        let mut p: usize = 0;
        while p < m && r[p] < x
            invariant
                m == r@.len(),
                p <= m,
                forall|j: int| 0 <= j < p ==> r@[j] < x,
            decreases m - p,
        {
            p = p + 1;
        }
        proof {
            lemma_insert_asc_at(x, r@, p as int);
            let t = v@.subrange(0, i + 1);
            assert(t.drop_last() =~= v@.subrange(0, i as int));
        }
        r.insert(p, x);
        i = i + 1;
    }
    assert(v@.subrange(0, n as int) =~= v@);
    r
}

pub open spec fn seq_sum(s: Seq<u64>) -> nat
    decreases s.len(),
{
    if s.len() == 0 {
        0
    } else {
        (seq_sum(s.drop_last()) + s.last()) as nat
    }
}

/// Total, count and 50th, 95th and 99th percentile of a set of latencies,
/// all in microseconds.
pub struct LatencySummary {
    pub sum_us: u64,
    pub count: usize,
    pub p50_us: u64,
    pub p95_us: u64,
    pub p99_us: u64,
}

/// Percentile indices into the sorted latencies: `len * 50 / 100`,
/// `len * 95 / 100` and `min(len * 99 / 100, len - 1)`.
pub open spec fn summary_of(s: Seq<u64>) -> LatencySummary {
    let sorted = sort_asc(s);
    let len = s.len() as int;
    let i99 = if len * 99 / 100 < len - 1 {
        len * 99 / 100
    } else {
        len - 1
    };
    LatencySummary {
        sum_us: seq_sum(s) as u64,
        count: len as usize,
        p50_us: sorted[len * 50 / 100],
        p95_us: sorted[len * 95 / 100],
        p99_us: sorted[i99],
    }
}

proof fn lemma_sum_sort_insert(x: u64, s: Seq<u64>)
    ensures
        seq_sum(insert_asc(x, s)) == seq_sum(s) + x,
    decreases s.len(),
{
    if s.len() > 0 {
        lemma_seq_sum_front(s);
        if x <= s[0] {
            lemma_seq_sum_front(seq![x] + s);
            assert((seq![x] + s).drop_first() =~= s);
        } else {
            lemma_sum_sort_insert(x, s.drop_first());
            let r = seq![s[0]] + insert_asc(x, s.drop_first());
            assert(insert_asc(x, s) == r);
            lemma_seq_sum_front(r);
            assert(r.drop_first() =~= insert_asc(x, s.drop_first()));
            assert(r[0] == s[0]);
        }
    } else {
        assert(insert_asc(x, s) == seq![x]);
        assert(seq![x].drop_last() =~= Seq::<u64>::empty());
        assert(seq_sum(seq![x]) == seq_sum(Seq::<u64>::empty()) + x);
    }
}

/// The sum counts the first element, then the rest.
proof fn lemma_seq_sum_front(s: Seq<u64>)
    requires
        s.len() > 0,
    ensures
        seq_sum(s) == s[0] + seq_sum(s.drop_first()),
    decreases s.len(),
{
    if s.len() == 1 {
        assert(s.drop_last() =~= Seq::<u64>::empty());
        assert(s.drop_first() =~= Seq::<u64>::empty());
    } else {
        lemma_seq_sum_front(s.drop_last());
        assert(s.drop_last().drop_first() =~= s.drop_first().drop_last());
    }
}

/// Sorting keeps the total.
pub proof fn lemma_sort_keeps_sum(s: Seq<u64>)
    ensures
        seq_sum(sort_asc(s)) == seq_sum(s),
    decreases s.len(),
{
    if s.len() > 0 {
        lemma_sort_keeps_sum(s.drop_last());
        lemma_sum_sort_insert(s.last(), sort_asc(s.drop_last()));
    }
}

/// The percentiles of a non-empty set of latencies are latencies from the
/// set, and the 50th is at most the 95th, which is at most the 99th.
pub proof fn lemma_percentiles_ordered(s: Seq<u64>)
    requires
        s.len() > 0,
    ensures
        summary_of(s).p50_us <= summary_of(s).p95_us <= summary_of(s).p99_us,
        s.contains(summary_of(s).p50_us),
        s.contains(summary_of(s).p95_us),
        s.contains(summary_of(s).p99_us),
{
    let len = s.len() as int;
    let sorted = sort_asc(s);
    lemma_sort_asc_len(s);
    lemma_sort_asc_sorted_permutation(s);
    assert(len * 50 / 100 <= len * 95 / 100 <= len * 99 / 100) by (nonlinear_arith)
        requires
            len > 0,
    ;
    assert(len * 95 / 100 < len) by (nonlinear_arith)
        requires
            len > 0,
    ;
    let i99 = if len * 99 / 100 < len - 1 {
        len * 99 / 100
    } else {
        len - 1
    };
    assert(len * 95 / 100 <= i99);
    assert forall|k: int| 0 <= k < len implies s.contains(#[trigger] sorted[k]) by {
        assert(sorted.contains(sorted[k]));
        vstd::seq_lib::to_multiset_contains(sorted, sorted[k]);
        vstd::seq_lib::to_multiset_contains(s, sorted[k]);
    }
}

/// Latency total and percentiles for the stress test report; none for no
/// latencies.
pub fn calculate_percentiles(latencies: &Vec<u64>) -> (r: Option<LatencySummary>)
    requires
        seq_sum(latencies@) <= u64::MAX,
    ensures
        latencies@.len() == 0 ==> r is None,
        latencies@.len() > 0 ==> r == Some(summary_of(latencies@)),
{
    let len = latencies.len();
    if len == 0 {
        return None;
    }
    let sorted = sort_latencies(latencies);
    proof {
        lemma_sort_asc_len(latencies@);
        lemma_sort_keeps_sum(latencies@);
    }
    let mut sum: u64 = 0;
    let mut i: usize = 0;
    while i < len
        invariant
            len == sorted@.len(),
            sorted@ == sort_asc(latencies@),
            seq_sum(sorted@) <= u64::MAX,
            i <= len,
            sum as nat == seq_sum(sorted@.subrange(0, i as int)),
        decreases len - i,
    {
        assert(sorted@.subrange(0, i + 1).drop_last() =~= sorted@.subrange(0, i as int));
        proof {
            lemma_prefix_sum_bound(sorted@, i as int + 1);
        }
        sum = sum + sorted[i];
        i = i + 1;
    }
    assert(sorted@.subrange(0, len as int) =~= sorted@);
    assert(len * 50 / 100 < len) by (nonlinear_arith)
        requires
            len > 0,
    ;
    assert(len * 95 / 100 < len) by (nonlinear_arith)
        requires
            len > 0,
    ;
    let i50 = len / 100 * 50 + (len % 100) * 50 / 100;
    let i95 = len / 100 * 95 + (len % 100) * 95 / 100;
    let j99 = len / 100 * 99 + (len % 100) * 99 / 100;
    assert(i50 == len * 50 / 100) by (nonlinear_arith)
        requires
            i50 == len / 100 * 50 + (len % 100) * 50 / 100,
    ;
    assert(i95 == len * 95 / 100) by (nonlinear_arith)
        requires
            i95 == len / 100 * 95 + (len % 100) * 95 / 100,
    ;
    assert(j99 == len * 99 / 100) by (nonlinear_arith)
        requires
            j99 == len / 100 * 99 + (len % 100) * 99 / 100,
    ;
    let i99 = if j99 < len - 1 {
        j99
    } else {
        len - 1
    };
    Some(
        LatencySummary {
            sum_us: sum,
            count: len,
            p50_us: sorted[i50],
            p95_us: sorted[i95],
            p99_us: sorted[i99],
        },
    )
}

proof fn lemma_prefix_sum_bound(s: Seq<u64>, k: int)
    requires
        0 <= k <= s.len(),
    ensures
        seq_sum(s.subrange(0, k)) <= seq_sum(s),
    decreases s.len() - k,
{
    if k < s.len() {
        lemma_prefix_sum_bound(s, k + 1);
        assert(s.subrange(0, k + 1).drop_last() =~= s.subrange(0, k));
    } else {
        assert(s.subrange(0, k) =~= s);
    }
}

/// Two ascending sequences holding the same values, each as often, are
/// the same sequence.
proof fn lemma_ascending_same_values_equal(a: Seq<u64>, b: Seq<u64>)
    requires
        ascending(a),
        ascending(b),
        a.to_multiset() == b.to_multiset(),
    ensures
        a == b,
    decreases a.len(),
{
    broadcast use vstd::multiset::group_multiset_axioms;

    vstd::seq_lib::to_multiset_len(a);
    vstd::seq_lib::to_multiset_len(b);
    if a.len() > 0 {
        let n = a.len() as int;
        let x = a.last();
        let y = b.last();
        vstd::seq_lib::to_multiset_contains(a, x);
        vstd::seq_lib::to_multiset_contains(b, x);
        vstd::seq_lib::to_multiset_contains(a, y);
        vstd::seq_lib::to_multiset_contains(b, y);
        assert(a.contains(x));
        assert(b.contains(y));
        let i = choose|i: int| 0 <= i < b.len() && b[i] == x;
        let j = choose|j: int| 0 <= j < a.len() && a[j] == y;
        assert(x <= y);
        assert(y <= x);
        let a1 = a.drop_last();
        let b1 = b.drop_last();
        assert(a1.push(x) =~= a);
        assert(b1.push(y) =~= b);
        vstd::seq_lib::to_multiset_build(a1, x);
        vstd::seq_lib::to_multiset_build(b1, y);
        assert(a1.to_multiset() =~= b1.to_multiset()) by {
            assert(x == y);
            assert(a1.push(x).to_multiset() == a1.to_multiset().insert(x));
            assert(b1.push(y).to_multiset() == b1.to_multiset().insert(x));
            assert forall|v: u64| a1.to_multiset().count(v) == b1.to_multiset().count(v) by {
                assert(a.to_multiset().count(v) == b.to_multiset().count(v));
                assert(a1.to_multiset().insert(x).count(v) == b1.to_multiset().insert(x).count(v));
            }
        }
        lemma_ascending_same_values_equal(a1, b1);
    }
}

/// The summary of latencies does not depend on their order: any reordering
/// gives the same total, count and percentiles.
pub proof fn lemma_summary_ignores_order(s1: Seq<u64>, s2: Seq<u64>)
    requires
        s1.to_multiset() == s2.to_multiset(),
    ensures
        summary_of(s1) == summary_of(s2),
{
    lemma_sort_asc_sorted_permutation(s1);
    lemma_sort_asc_sorted_permutation(s2);
    lemma_ascending_same_values_equal(sort_asc(s1), sort_asc(s2));
    lemma_sort_keeps_sum(s1);
    lemma_sort_keeps_sum(s2);
    vstd::seq_lib::to_multiset_len(s1);
    vstd::seq_lib::to_multiset_len(s2);
}

/// Values all between `lo` and `hi` sum to between `lo` and `hi` times
/// their count.
proof fn lemma_sum_between(t: Seq<u64>, lo: int, hi: int)
    requires
        forall|k: int| 0 <= k < t.len() ==> lo <= #[trigger] t[k] <= hi,
    ensures
        lo * t.len() <= seq_sum(t) <= hi * t.len(),
    decreases t.len(),
{
    if t.len() > 0 {
        let n = t.len() as int;
        lemma_sum_between(t.drop_last(), lo, hi);
        assert(lo * n == lo * (n - 1) + lo) by (nonlinear_arith);
        assert(hi * n == hi * (n - 1) + hi) by (nonlinear_arith);
        assert(lo <= t[n - 1] <= hi);
    }
}

/// The total of a non-empty set of latencies lies between the smallest
/// and the largest latency times their count, so their average lies
/// between the smallest and the largest; the percentiles lie there too.
pub proof fn lemma_total_between_extremes(s: Seq<u64>)
    requires
        s.len() > 0,
    ensures
        sort_asc(s)[0] * s.len() <= seq_sum(s) <= sort_asc(s)[s.len() - 1] * s.len(),
        sort_asc(s)[0] <= summary_of(s).p50_us,
        summary_of(s).p99_us <= sort_asc(s)[s.len() - 1],
{
    let t = sort_asc(s);
    let n = s.len() as int;
    lemma_sort_asc_len(s);
    lemma_sort_asc_sorted_permutation(s);
    lemma_sort_keeps_sum(s);
    lemma_sum_between(t, t[0] as int, t[n - 1] as int);
    assert(n * 50 / 100 < n) by (nonlinear_arith)
        requires
            n > 0,
    ;
    assert(0 <= n * 50 / 100) by (nonlinear_arith)
        requires
            n > 0,
    ;
}

} // verus!

verus! {

/// The ids read from trimmed pieces, skipping empty ones; none as soon as
/// a piece is not a UUID.
pub open spec fn ids_of_pieces(ts: Seq<Seq<char>>) -> Option<Seq<u128>>
    decreases ts.len(),
{
    if ts.len() == 0 {
        Some(Seq::empty())
    } else {
        match ids_of_pieces(ts.drop_last()) {
            None => None,
            Some(prev) => if ts.last().len() == 0 {
                Some(prev)
            } else {
                match uuid_parsed(ts.last()) {
                    Some(id) => Some(prev.push(id)),
                    None => None,
                }
            },
        }
    }
}

/// The comma-separated pieces of a text, each trimmed.
pub open spec fn trimmed_pieces(s: Seq<char>) -> Seq<Seq<char>> {
    comma_pieces(s).map_values(|p: Seq<char>| trimmed(p))
}

/// The snake ids of a `--snakes` list: its comma-separated pieces, trimmed,
/// the empty ones dropped, each read as a UUID; an error when a piece is not
/// a UUID or when no piece is left.
pub open spec fn snake_list_outcome(s: Seq<char>) -> Result<Seq<u128>, Seq<char>> {
    match ids_of_pieces(trimmed_pieces(s)) {
        None => Err("Invalid snake UUID format"@),
        Some(ids) => if ids.len() == 0 {
            Err("At least one snake UUID is required"@)
        } else {
            Ok(ids)
        },
    }
}

/// A failed prefix fails the whole list.
proof fn lemma_ids_none_extends(ts: Seq<Seq<char>>, k: int)
    requires
        0 <= k <= ts.len(),
        ids_of_pieces(ts.subrange(0, k)) is None,
    ensures
        ids_of_pieces(ts) is None,
    decreases ts.len(),
{
    if k == ts.len() {
        assert(ts.subrange(0, k) =~= ts);
    } else {
        assert(ts.drop_last().subrange(0, k) =~= ts.subrange(0, k));
        lemma_ids_none_extends(ts.drop_last(), k);
    }
}

/// Reads the snake ids of a `--snakes` list.
pub fn parse_snake_list(s: &str) -> (r: Result<Vec<u128>, String>)
    ensures
        match snake_list_outcome(s@) {
            Ok(v) => r matches Ok(ids) && ids@ == v,
            Err(m) => r matches Err(e) && e@ == m,
        },
{
    let pieces = split_snake_ids(s);
    let ghost ts = trimmed_pieces(s@);
    assert(ts.len() == pieces@.len());
    let n = pieces.len();
    let mut ids: Vec<u128> = Vec::new();
    let mut i: usize = 0;
    while i < n
        invariant
            n == pieces@.len(),
            ts == trimmed_pieces(s@),
            n == ts.len(),
            forall|k: int| 0 <= k < n ==> (#[trigger] pieces@[k])@ == ts[k],
            i <= n,
            ids_of_pieces(ts.subrange(0, i as int)) == Some(ids@),
        decreases n - i,
    {
        let ghost t = ts.subrange(0, i + 1);
        assert(t.drop_last() =~= ts.subrange(0, i as int));
        assert(t.last() == pieces@[i as int]@);
        if pieces[i].unicode_len() > 0 {
            match parse_uuid(pieces[i].as_str()) {
                Some(id) => {
                    ids.push(id);
                },
                None => {
                    proof {
                        lemma_ids_none_extends(ts, i + 1);
                    }
                    return Err(owned("Invalid snake UUID format"));
                },
            }
        }
        i = i + 1;
    }
    assert(ts.subrange(0, n as int) =~= ts);
    if ids.len() == 0 {
        return Err(owned("At least one snake UUID is required"));
    }
    Ok(ids)
}

} // verus!
