use vstd::prelude::*;


verus! {

// ---------------------------------------------------------------------------
// Sliding windows

/// The window after `v` is appended to `window` and, when that makes it longer
/// than `length`, the oldest entry is dropped.
pub open spec fn slide<T>(window: Seq<T>, v: T, length: nat) -> Seq<T> {
    if window.len() + 1 > length {
        window.push(v).drop_first()
    } else {
        window.push(v)
    }
}

/// The window after each of `vs` is slid into `window` in order.
pub open spec fn slide_all<T>(window: Seq<T>, vs: Seq<T>, length: nat) -> Seq<T>
    decreases vs.len(),
{
    if vs.len() == 0 {
        window
    } else {
        slide(slide_all(window, vs.drop_last(), length), vs.last(), length)
    }
}

/// The last `n` entries of `s`, or all of `s` when it has fewer.
pub open spec fn last_n<T>(s: Seq<T>, n: nat) -> Seq<T> {
    if s.len() <= n {
        s
    } else {
        s.subrange(s.len() - n, s.len() as int)
    }
}

/// Sliding values into a window of at most `length` entries keeps exactly the
/// last `length` values seen, the earlier window's included.
pub proof fn lemma_slide_all_keeps_last<T>(window: Seq<T>, vs: Seq<T>, length: nat)
    requires
        window.len() <= length,
    ensures
        slide_all(window, vs, length) == last_n(window + vs, length),
    decreases vs.len(),
{
    if vs.len() == 0 {
        assert(window + vs =~= window);
    } else {
        lemma_slide_all_keeps_last(window, vs.drop_last(), length);
        let all = window + vs;
        let before = window + vs.drop_last();
        assert(before.push(vs.last()) =~= all);
        let w = last_n(before, length);
        if before.len() < length {
            assert(slide(w, vs.last(), length) =~= last_n(all, length));
        } else {
            assert(slide(w, vs.last(), length) =~= last_n(all, length));
        }
    }
}

// ---------------------------------------------------------------------------
// Temporal smoother

/// Sum of a sequence of channel values.
pub open spec fn seq_sum(s: Seq<u8>) -> nat
    decreases s.len(),
{
    if s.len() == 0 {
        0
    } else {
        seq_sum(s.drop_last()) + s.last() as nat
    }
}

proof fn lemma_seq_sum_bound(s: Seq<u8>)
    ensures
        seq_sum(s) <= 255 * s.len(),
    decreases s.len(),
{
    if s.len() > 0 {
        lemma_seq_sum_bound(s.drop_last());
    }
}

/// An exact arithmetic mean, kept as `total / count`.
#[derive(Clone, Copy, Debug, PartialEq, Eq, Structural)]
pub struct Mean {
    pub total: u128,
    pub count: usize,
}

proof fn lemma_cross_compare(a: int, n: int, b: int, m: int)
    requires
        n > 0,
        m > 0,
        a >= 0,
        b >= 0,
    ensures
        (a * m > b * n) == (a / n > b / m || (a / n == b / m && (a % n) * m > (b % m) * n)),
{
    let q1 = a / n;
    let r1 = a % n;
    let q2 = b / m;
    let r2 = b % m;
    assert(a == q1 * n + r1 && 0 <= r1 < n) by (nonlinear_arith)
        requires
            n > 0,
            q1 == a / n,
            r1 == a % n,
    ;
    assert(b == q2 * m + r2 && 0 <= r2 < m) by (nonlinear_arith)
        requires
            m > 0,
            q2 == b / m,
            r2 == b % m,
    ;
    assert(a * m - b * n == (q1 - q2) * n * m + r1 * m - r2 * n) by (nonlinear_arith)
        requires
            a == q1 * n + r1,
            b == q2 * m + r2,
    ;
    if q1 > q2 {
        assert((q1 - q2) * n * m >= n * m) by (nonlinear_arith)
            requires
                q1 - q2 >= 1,
                n > 0,
                m > 0,
        ;
        assert(r2 * n < m * n) by (nonlinear_arith)
            requires
                0 <= r2 < m,
                n > 0,
        ;
        assert(r1 * m >= 0) by (nonlinear_arith)
            requires
                r1 >= 0,
                m > 0,
        ;
    } else if q1 < q2 {
        assert((q1 - q2) * n * m <= -(n * m)) by (nonlinear_arith)
            requires
                q2 - q1 >= 1,
                n > 0,
                m > 0,
        ;
        assert(r1 * m < n * m) by (nonlinear_arith)
            requires
                0 <= r1 < n,
                m > 0,
        ;
        assert(r2 * n >= 0) by (nonlinear_arith)
            requires
                r2 >= 0,
                n > 0,
        ;
    } else {
        assert((q1 - q2) * n * m == 0) by (nonlinear_arith)
            requires
                q1 == q2,
        ;
    }
}

impl Mean {
    /// The mean is strictly below `k`.
    pub open spec fn below(self, k: nat) -> bool {
        self.total < k * self.count
    }

    /// The mean is strictly above `k`.
    pub open spec fn above(self, k: nat) -> bool {
        self.total > k * self.count
    }

    /// This mean is strictly greater than `other`.
    pub open spec fn greater(self, other: Mean) -> bool {
        self.total * other.count > other.total * self.count
    }

    pub fn is_below(&self, k: u8) -> (r: bool)
        ensures
            r == self.below(k as nat),
    {
        proof {
            assert(k * self.count <= 255 * usize::MAX) by (nonlinear_arith)
                requires
                    k <= 255,
                    self.count <= usize::MAX,
            ;
        }
        self.total < (k as u128) * (self.count as u128)
    }

    pub fn is_above(&self, k: u8) -> (r: bool)
        ensures
            r == self.above(k as nat),
    {
        proof {
            assert(k * self.count <= 255 * usize::MAX) by (nonlinear_arith)
                requires
                    k <= 255,
                    self.count <= usize::MAX,
            ;
        }
        self.total > (k as u128) * (self.count as u128)
    }

    /// Compares two means exactly.
    pub fn exceeds(&self, other: &Mean) -> (r: bool)
        requires
            self.count > 0,
            other.count > 0,
        ensures
            r == self.greater(*other),
    {
        let n = self.count as u128;
        let m = other.count as u128;
        let q1 = self.total / n;
        let q2 = other.total / m;
        proof {
            lemma_cross_compare(self.total as int, n as int, other.total as int, m as int);
        }
        if q1 != q2 {
            q1 > q2
        } else {
            let r1 = self.total % n;
            let r2 = other.total % m;
            proof {
                assert(r1 * m < n * m && r2 * n < m * n) by (nonlinear_arith)
                    requires
                        r1 < n,
                        r2 < m,
                        n > 0,
                        m > 0,
                ;
                assert(n * m <= usize::MAX * usize::MAX) by (nonlinear_arith)
                    requires
                        n <= usize::MAX,
                        m <= usize::MAX,
                ;
            }
            r1 * m > r2 * n
        }
    }

    /// The mean rounded down to an integer.
    pub fn truncated(&self) -> (r: u8)
        requires
            self.count > 0,
            self.total <= 255 * self.count,
        ensures
            r == (self.total as nat) / (self.count as nat),
    {
        proof {
            assert((self.total as nat) / (self.count as nat) <= 255) by (nonlinear_arith)
                requires
                    self.count > 0,
                    self.total <= 255 * self.count,
            ;
        }
        (self.total / (self.count as u128)) as u8
    }
}

/// Windowed mean of the last `length` channel values pushed.
pub struct MovingAvg {
    length: usize,
    values: Vec<u8>,
}

impl MovingAvg {
    pub closed spec fn spec_length(&self) -> nat {
        self.length as nat
    }

    /// The values currently held, oldest first.
    pub closed spec fn window(&self) -> Seq<u8> {
        self.values@
    }

    pub open spec fn wf(&self) -> bool {
        self.window().len() <= self.spec_length()
    }

    pub fn new(length: usize) -> (r: MovingAvg)
        ensures
            r.wf(),
            r.spec_length() == length,
            r.window() == Seq::<u8>::empty(),
    {
        MovingAvg { length, values: Vec::new() }
    }

    /// The mean of the values held.
    pub fn avg(&self) -> (r: Mean)
        ensures
            r.total == seq_sum(self.window()),
            r.count == self.window().len(),
    {
        let n = self.values.len();
        let mut total: u128 = 0;
        let mut i: usize = 0;
        while i < n
            invariant
                n == self.values@.len(),
                0 <= i <= n,
                total == seq_sum(self.values@.subrange(0, i as int)),
                total <= 255 * i,
            decreases n - i,
        {
            proof {
                assert(self.values@.subrange(0, i + 1).drop_last() =~= self.values@.subrange(
                    0,
                    i as int,
                ));
            }
            total = total + self.values[i] as u128;
            i = i + 1;
        }
        proof {
            assert(self.values@.subrange(0, n as int) =~= self.values@);
        }
        Mean { total, count: n }
    }

    /// Adds `value`, evicting the oldest when over capacity, and returns the
    /// mean of what is then held.
    pub fn push(&mut self, value: u8) -> (r: Mean)
        requires
            old(self).wf(),
        ensures
            final(self).wf(),
            final(self).spec_length() == old(self).spec_length(),
            final(self).window() == slide(old(self).window(), value, old(self).spec_length()),
            r.total == seq_sum(final(self).window()),
            r.count == final(self).window().len(),
            old(self).spec_length() >= 1 ==> r.count >= 1,
            r.total <= 255 * r.count,
    {
        self.values.push(value);
        if self.values.len() > self.length {
            self.values.remove(0);
        }
        proof {
            let w = self.values@;
            assert(w =~= slide(old(self).values@, value, old(self).length as nat));
            lemma_seq_sum_bound(w);
        }
        self.avg()
    }
}

/// A smoother of window `length` that starts empty and is pushed `vs` holds
/// all of `vs` while at most `length` values were pushed, and only the last
/// `length` once more were; `push` returns the mean of exactly what is held.
pub proof fn lemma_smoother_holds_last(length: nat, vs: Seq<u8>)
    ensures
        vs.len() <= length ==> slide_all(Seq::empty(), vs, length) == vs,
        vs.len() > length ==> slide_all(Seq::empty(), vs, length) == vs.subrange(
            vs.len() - length,
            vs.len() as int,
        ),
{
    lemma_slide_all_keeps_last(Seq::<u8>::empty(), vs, length);
    assert(Seq::<u8>::empty() + vs =~= vs);
}

// ---------------------------------------------------------------------------
// Debouncer

/// How many times `x` occurs in `s`.
pub open spec fn occurrences<T>(s: Seq<T>, x: T) -> nat
    decreases s.len(),
{
    if s.len() == 0 {
        0
    } else {
        occurrences(s.drop_last(), x) + if s.last() == x {
            1nat
        } else {
            0nat
        }
    }
}

/// `s[i]` occurs at least as often as any entry of `s`, and every entry after
/// position `i` occurs strictly less often: among the most frequent entries,
/// `s[i]` is the one pushed last.
pub open spec fn is_mode_index<T>(s: Seq<T>, i: int) -> bool {
    &&& 0 <= i < s.len()
    &&& forall|j: int|
        0 <= j < s.len() ==> #[trigger] occurrences(s, s[j]) <= occurrences(s, s[i])
    &&& forall|j: int|
        i < j < s.len() ==> #[trigger] occurrences(s, s[j]) < occurrences(s, s[i])
}

/// The most frequent entry of `s`; ties go to the most recently pushed one.
pub open spec fn mode<T>(s: Seq<T>) -> T {
    s[choose|i: int| is_mode_index(s, i)]
}

/// The index that `is_mode_index` describes is unique, so `mode` is that entry.
pub proof fn lemma_mode_at<T>(s: Seq<T>, i: int)
    requires
        is_mode_index(s, i),
    ensures
        mode(s) == s[i],
{
    let j = choose|j: int| is_mode_index(s, j);
    assert(is_mode_index(s, j));
    if j < i {
        assert(occurrences(s, s[i]) < occurrences(s, s[j]));
        assert(occurrences(s, s[j]) <= occurrences(s, s[i]));
    } else if i < j {
        assert(occurrences(s, s[j]) < occurrences(s, s[i]));
        assert(occurrences(s, s[i]) <= occurrences(s, s[j]));
    }
}

/// Values that can be told apart: `same_as` is exactly equality.
pub trait Discrete: Copy {
    fn same_as(&self, other: &Self) -> (r: bool)
        ensures
            r == (*self == *other),
    ;
}

/// Majority vote over the last `length` items pushed.
pub struct MostFrequent<T> {
    items: Vec<T>,
    length: usize,
}

impl<T: Discrete> MostFrequent<T> {
    pub closed spec fn spec_length(&self) -> nat {
        self.length as nat
    }

    /// The items currently held, oldest first.
    pub closed spec fn window(&self) -> Seq<T> {
        self.items@
    }

    pub open spec fn wf(&self) -> bool {
        self.window().len() <= self.spec_length()
    }

    pub fn new(length: usize) -> (r: MostFrequent<T>)
        ensures
            r.wf(),
            r.spec_length() == length,
            r.window() == Seq::<T>::empty(),
    {
        MostFrequent { items: Vec::new(), length }
    }

    fn count_of(&self, x: T) -> (r: usize)
        ensures
            r == occurrences(self.items@, x),
    {
        let n = self.items.len();
        let mut c: usize = 0;
        let mut j: usize = 0;
        while j < n
            invariant
                n == self.items@.len(),
                0 <= j <= n,
                c == occurrences(self.items@.subrange(0, j as int), x),
                c <= j,
            decreases n - j,
        {
            proof {
                assert(self.items@.subrange(0, j + 1).drop_last() =~= self.items@.subrange(
                    0,
                    j as int,
                ));
            }
            if self.items[j].same_as(&x) {
                c = c + 1;
            }
            j = j + 1;
        }
        proof {
            assert(self.items@.subrange(0, n as int) =~= self.items@);
        }
        c
    }

    /// Adds `item`, evicting the oldest when over capacity, and returns the
    /// most frequent item held; among equally frequent items, the one pushed last.
    pub fn push(&mut self, item: T) -> (r: T)
        requires
            old(self).wf(),
            old(self).spec_length() >= 1,
        ensures
            final(self).wf(),
            final(self).spec_length() == old(self).spec_length(),
            final(self).window() == slide(old(self).window(), item, old(self).spec_length()),
            r == mode(final(self).window()),
    {
        self.items.push(item);
        if self.items.len() > self.length {
            self.items.remove(0);
        }
        proof {
            assert(self.items@ =~= slide(old(self).items@, item, old(self).length as nat));
        }
        let n = self.items.len();
        let ghost s = self.items@;
        let mut best: usize = n - 1;
        let mut best_count: usize = self.count_of(self.items[n - 1]);
        let mut k: usize = n - 1;
        while k > 0
            invariant
                s == self.items@,
                n == s.len(),
                n >= 1,
                0 <= k <= best < n,
                best_count == occurrences(s, s[best as int]),
                forall|j: int| k <= j < n ==> #[trigger] occurrences(s, s[j]) <= best_count,
                forall|j: int| best < j < n ==> #[trigger] occurrences(s, s[j]) < best_count,
            decreases k,
        {
            k = k - 1;
            let c = self.count_of(self.items[k]);
            if c > best_count {
                best = k;
                best_count = c;
            }
        }
        proof {
            assert(is_mode_index(s, best as int));
            lemma_mode_at(s, best as int);
        }
        self.items[best]
    }
}

/// A run of at least `length` equal items leaves that item as the debounced output.
pub proof fn lemma_run_wins<T>(window: Seq<T>, x: T, m: nat, length: nat)
    requires
        length >= 1,
        window.len() <= length,
        m >= length,
    ensures
        mode(slide_all(window, Seq::new(m, |i: int| x), length)) == x,
{
    let run = Seq::new(m, |i: int| x);
    lemma_slide_all_keeps_last(window, run, length);
    let s = slide_all(window, run, length);
    let all = window + run;
    assert(s == all.subrange(all.len() - length, all.len() as int));
    assert forall|j: int| 0 <= j < s.len() implies s[j] == x by {
        assert(s[j] == all[all.len() - length + j]);
    }
    let last = s.len() - 1;
    assert forall|j: int| 0 <= j < s.len() implies #[trigger] occurrences(s, s[j]) <= occurrences(
        s,
        s[last],
    ) by {
        assert(s[j] == s[last]);
    }
    assert(is_mode_index(s, last));
    lemma_mode_at(s, last);
}

// ---------------------------------------------------------------------------
// Discrete first derivative

/// Difference of each pushed value from the previous one.
pub struct DiscreteFirstDerivative {
    prev: Option<u8>,
}

impl DiscreteFirstDerivative {
    /// The value pushed last, if any.
    pub closed spec fn previous(&self) -> Option<u8> {
        self.prev
    }

    pub fn new() -> (r: DiscreteFirstDerivative)
        ensures
            r.previous() is None,
    {
        DiscreteFirstDerivative { prev: None }
    }

    /// `value` minus the value pushed before it; `None` on the first push.
    pub fn push(&mut self, value: u8) -> (r: Option<i16>)
        ensures
            final(self).previous() == Some(value),
            r == match old(self).previous() {
                None => None,
                Some(p) => Some((value - p) as i16),
            },
    {
        let r = match self.prev {
            None => None,
            Some(p) => Some(value as i16 - p as i16),
        };
        self.prev = Some(value);
        r
    }
}

} // verus!
