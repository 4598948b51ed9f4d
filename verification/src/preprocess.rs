//! Silence trimming of 16 kHz mono speech before it goes to speech-to-text.
//! Speech-to-text invents text on pure silence, so silence is an error, not audio.

use vstd::prelude::*;

verus! {

/// Trim threshold −30 dBFS: 0.032 of full scale, i.e. 0.032 · 32767 ≈ 1049.
pub const TRIM_THRESHOLD: i16 = 1049;

/// Trim granularity: 10 ms at 16 kHz.
pub const TRIM_CHUNK: usize = 160;

/// At least 300 ms (0.3 s · 16 000) must remain after trimming.
pub const MIN_SAMPLES: usize = 4800;

/// A sample at or above the threshold in magnitude.
pub open spec fn loud(x: i16) -> bool {
    x >= TRIM_THRESHOLD || x <= -TRIM_THRESHOLD
}

/// Index of the first loud sample at or after `i` (the length when there is none).
pub open spec fn first_loud_from(s: Seq<i16>, i: int) -> int
    decreases s.len() - i,
{
    if i < 0 || i >= s.len() {
        s.len() as int
    } else if loud(s[i]) {
        i
    } else {
        first_loud_from(s, i + 1)
    }
}

/// Index of the last loud sample before `j` (−1 when there is none).
pub open spec fn last_loud_before(s: Seq<i16>, j: int) -> int
    decreases j,
{
    if j <= 0 || j > s.len() {
        -1
    } else if loud(s[j - 1]) {
        j - 1
    } else {
        last_loud_before(s, j - 1)
    }
}

/// The kept range: from the start of the first 10 ms chunk that holds a loud sample
/// to the end of the last such chunk (the last chunk may be short).
pub open spec fn kept_start(s: Seq<i16>) -> int {
    (first_loud_from(s, 0) / TRIM_CHUNK as int) * TRIM_CHUNK as int
}

pub open spec fn kept_end(s: Seq<i16>) -> int {
    let e = (last_loud_before(s, s.len() as int) / TRIM_CHUNK as int + 1) * TRIM_CHUNK as int;
    if e < s.len() {
        e
    } else {
        s.len() as int
    }
}

/// What `trim_silence` keeps, or `None` for silence and for too short a rest.
pub open spec fn trimmed(s: Seq<i16>) -> Option<Seq<i16>> {
    if first_loud_from(s, 0) >= s.len() {
        None
    } else if kept_end(s) - kept_start(s) < MIN_SAMPLES {
        None
    } else {
        Some(s.subrange(kept_start(s), kept_end(s)))
    }
}

proof fn lemma_first_loud_bounds(s: Seq<i16>, i: int)
    requires
        0 <= i <= s.len(),
    ensures
        i <= first_loud_from(s, i) <= s.len(),
        first_loud_from(s, i) < s.len() ==> loud(s[first_loud_from(s, i)]),
    decreases s.len() - i,
{
    if i < s.len() && !loud(s[i]) {
        lemma_first_loud_bounds(s, i + 1);
    }
}

proof fn lemma_last_loud_bounds(s: Seq<i16>, j: int)
    requires
        0 <= j <= s.len(),
    ensures
        -1 <= last_loud_before(s, j) < j,
        last_loud_before(s, j) >= 0 ==> loud(s[last_loud_before(s, j)]),
        first_loud_from(s, 0) < j ==> first_loud_from(s, 0) <= last_loud_before(s, j),
    decreases j,
{
    if j > 0 && !loud(s[j - 1]) {
        lemma_last_loud_bounds(s, j - 1);
        if first_loud_from(s, 0) < j {
            lemma_first_loud_bounds(s, 0);
            if first_loud_from(s, 0) == j - 1 {
                assert(loud(s[j - 1]));
            }
        }
    } else if j > 0 {
        lemma_first_loud_before_loud(s, 0, j - 1);
    }
}

proof fn lemma_first_loud_before_loud(s: Seq<i16>, i: int, k: int)
    requires
        0 <= i <= k < s.len(),
        loud(s[k]),
    ensures
        first_loud_from(s, i) <= k,
    decreases k - i,
{
    if !loud(s[i]) {
        lemma_first_loud_before_loud(s, i + 1, k);
    }
}

/// Cuts the leading and trailing 10 ms chunks whose peak stays under −30 dBFS.
/// A chunk is loud when one of its samples reaches the threshold. Pure silence,
/// or less than 300 ms left after the cut, gives "Recording too short".
pub fn trim_silence(samples: &[i16]) -> (r: Result<Vec<i16>, String>)
    ensures
        r is Ok <==> trimmed(samples@) is Some,
        r matches Ok(v) ==> Some(v@) == trimmed(samples@),
        r matches Err(e) ==> e@ == "Recording too short"@,
{
    let n = samples.len();
    if n == 0 {
        return Err(String::from_str("Recording too short"));
    }
    let mut i: usize = 0;
    while i < n && samples[i] < TRIM_THRESHOLD && samples[i] > -TRIM_THRESHOLD
        invariant
            n == samples@.len(),
            i <= n,
            first_loud_from(samples@, 0) == first_loud_from(samples@, i as int),
        decreases n - i,
    {
        i = i + 1;
    }
    assert(first_loud_from(samples@, i as int) == i as int);
    if i == n {
        return Err(String::from_str("Recording too short"));
    }
    let mut j: usize = n;
    assert(!loud(samples@[i as int]) ==> false);
    while j > 0 && samples[j - 1] < TRIM_THRESHOLD && samples[j - 1] > -TRIM_THRESHOLD
        invariant
            n == samples@.len(),
            0 < i < n || i == 0,
            i < n,
            loud(samples@[i as int]),
            j <= n,
            j > i,
            last_loud_before(samples@, n as int) == last_loud_before(samples@, j as int),
        decreases j,
    {
        j = j - 1;
    }
    let first = i;
    let last = j - 1;
    proof {
        lemma_first_loud_bounds(samples@, 0);
        lemma_last_loud_bounds(samples@, n as int);
        assert(last_loud_before(samples@, j as int) == last as int);
        assert(first <= last);
    }
    let start = (first / TRIM_CHUNK) * TRIM_CHUNK;
    let end_chunk = last / TRIM_CHUNK + 1;
    let end = if end_chunk <= n / TRIM_CHUNK {
        end_chunk * TRIM_CHUNK
    } else {
        n
    };
    proof {
        let e = end_chunk as int * 160;
        assert(end_chunk <= n / 160 ==> e <= n as int) by (nonlinear_arith)
            requires
                e == end_chunk as int * 160,
        ;
        assert(end_chunk > n / 160 ==> e >= n as int) by (nonlinear_arith)
            requires
                e == end_chunk as int * 160,
                n >= 0,
        ;
        assert(start <= first);
        assert(last < e);
        assert(start as int == kept_start(samples@));
        assert(end as int == kept_end(samples@));
    }
    if end - start < MIN_SAMPLES {
        return Err(String::from_str("Recording too short"));
    }
    let mut out: Vec<i16> = Vec::new();
    let mut k: usize = start;
    while k < end
        invariant
            start <= k <= end <= n,
            n == samples@.len(),
            out@ =~= samples@.subrange(start as int, k as int),
        decreases end - k,
    {
        out.push(samples[k]);
        k = k + 1;
    }
    Ok(out)
}

proof fn lemma_no_loud_from(s: Seq<i16>, i: int)
    requires
        0 <= i <= s.len(),
        forall|k: int| i <= k < s.len() ==> !loud(#[trigger] s[k]),
    ensures
        first_loud_from(s, i) == s.len(),
    decreases s.len() - i,
{
    if i < s.len() {
        lemma_no_loud_from(s, i + 1);
    }
}

proof fn lemma_last_loud_at_least(s: Seq<i16>, j: int, k: int)
    requires
        0 <= k < j <= s.len(),
        loud(s[k]),
    ensures
        k <= last_loud_before(s, j),
    decreases j,
{
    if j - 1 != k && !loud(s[j - 1]) {
        lemma_last_loud_at_least(s, j - 1, k);
    }
}

/// Pure silence never goes to speech-to-text: a recording without a sample at or
/// above the threshold is refused.
pub proof fn law_silence_is_refused(s: Seq<i16>)
    requires
        forall|k: int| 0 <= k < s.len() ==> !loud(#[trigger] s[k]),
    ensures
        trimmed(s) is None,
{
    lemma_no_loud_from(s, 0);
}

/// Trimming cuts only silence: every loud sample lies in the kept range.
pub proof fn law_loud_samples_are_kept(s: Seq<i16>, k: int)
    requires
        0 <= k < s.len(),
        loud(s[k]),
    ensures
        kept_start(s) <= k < kept_end(s),
{
    lemma_first_loud_before_loud(s, 0, k);
    lemma_first_loud_bounds(s, 0);
    lemma_last_loud_at_least(s, s.len() as int, k);
    lemma_last_loud_bounds(s, s.len() as int);
    let f = first_loud_from(s, 0);
    let l = last_loud_before(s, s.len() as int);
    assert((f / 160) * 160 <= f) by (nonlinear_arith)
        requires
            f >= 0,
    ;
    assert(l < (l / 160 + 1) * 160) by (nonlinear_arith)
        requires
            l >= 0,
    ;
}

/// Before the first loud sample the search gives the same answer from any start.
proof fn lemma_first_loud_same_before(s: Seq<i16>, i: int)
    requires
        0 <= i <= first_loud_from(s, 0),
    ensures
        first_loud_from(s, i) == first_loud_from(s, 0),
    decreases i,
{
    if i > 0 {
        lemma_first_loud_same_before(s, i - 1);
        lemma_first_loud_bounds(s, 0);
        if i - 1 < s.len() {
            assert(!loud(s[i - 1])) by {
                if loud(s[i - 1]) {
                    lemma_first_loud_before_loud(s, 0, i - 1);
                }
            }
        }
    }
}

/// After the last loud sample the backward search gives the same answer from any end.
proof fn lemma_last_loud_same_after(s: Seq<i16>, j: int)
    requires
        last_loud_before(s, s.len() as int) < j <= s.len(),
    ensures
        last_loud_before(s, j) == last_loud_before(s, s.len() as int),
    decreases s.len() - j,
{
    if j < s.len() {
        lemma_last_loud_same_after(s, j + 1);
        assert(!loud(s[j])) by {
            if loud(s[j]) {
                lemma_last_loud_at_least(s, s.len() as int, j);
            }
        }
    }
}

/// The forward search inside `s[a..b]` is the search in `s` shifted by `a`.
proof fn lemma_first_loud_sub(s: Seq<i16>, a: int, b: int, i: int)
    requires
        0 <= a <= b <= s.len(),
        0 <= i <= b - a,
    ensures
        first_loud_from(s.subrange(a, b), i) == if first_loud_from(s, a + i) < b {
            first_loud_from(s, a + i) - a
        } else {
            b - a
        },
    decreases b - a - i,
{
    let t = s.subrange(a, b);
    lemma_first_loud_bounds(s, a + i);
    if i < b - a {
        assert(t[i] == s[a + i]);
        if !loud(s[a + i]) {
            lemma_first_loud_sub(s, a, b, i + 1);
        }
    }
}

/// The backward search inside `s[a..b]` is the search in `s` shifted by `a`.
proof fn lemma_last_loud_sub(s: Seq<i16>, a: int, b: int, j: int)
    requires
        0 <= a <= b <= s.len(),
        0 <= j <= b - a,
    ensures
        last_loud_before(s.subrange(a, b), j) == if last_loud_before(s, a + j) >= a {
            last_loud_before(s, a + j) - a
        } else {
            -1
        },
    decreases j,
{
    let t = s.subrange(a, b);
    lemma_last_loud_bounds(s, a + j);
    if j > 0 {
        assert(t[j - 1] == s[a + j - 1]);
        if !loud(s[a + j - 1]) {
            lemma_last_loud_sub(s, a, b, j - 1);
        }
    } else {
        assert(last_loud_before(s, a) < a);
    }
}

/// Trimming twice is trimming once: what the trim keeps starts and ends with a
/// loud 10 ms chunk, so a second trim keeps all of it.
pub proof fn law_trim_is_idempotent(s: Seq<i16>)
    requires
        trimmed(s) is Some,
    ensures
        trimmed(trimmed(s)->0) == trimmed(s),
{
    let n = s.len() as int;
    let f = first_loud_from(s, 0);
    let l = last_loud_before(s, n);
    let ks = kept_start(s);
    let ke = kept_end(s);
    let t = s.subrange(ks, ke);
    lemma_first_loud_bounds(s, 0);
    lemma_last_loud_bounds(s, n);
    law_loud_samples_are_kept(s, f);
    law_loud_samples_are_kept(s, l);
    assert(ks >= 0) by (nonlinear_arith)
        requires
            ks == (f / 160) * 160,
            f >= 0,
    ;
    assert(f - ks < 160) by (nonlinear_arith)
        requires
            ks == (f / 160) * 160,
            f >= 0,
    ;
    lemma_first_loud_same_before(s, ks);
    lemma_first_loud_sub(s, ks, ke, 0);
    assert(first_loud_from(t, 0) == f - ks);
    assert(kept_start(t) == 0) by (nonlinear_arith)
        requires
            kept_start(t) == ((f - ks) / 160) * 160,
            0 <= f - ks < 160,
    ;
    lemma_last_loud_same_after(s, ke);
    lemma_last_loud_sub(s, ks, ke, ke - ks);
    assert(last_loud_before(t, t.len() as int) == l - ks);
    let e = (l / 160 + 1) * 160;
    assert(((l - ks) / 160 + 1) * 160 == e - ks) by (nonlinear_arith)
        requires
            ks == (f / 160) * 160,
            f >= 0,
            ks <= l,
            e == (l / 160 + 1) * 160,
    ;
    assert(kept_end(t) == t.len());
    assert(t.subrange(0, t.len() as int) =~= t);
}

} // verus!
