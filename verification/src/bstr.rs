use vstd::prelude::*;

verus! {

/// `p` is a prefix of `s`.
pub open spec fn has_prefix(s: Seq<u8>, p: Seq<u8>) -> bool {
    p.len() <= s.len() && s.subrange(0, p.len() as int) == p
}

/// `p` is a suffix of `s`.
pub open spec fn has_suffix(s: Seq<u8>, p: Seq<u8>) -> bool {
    p.len() <= s.len() && s.subrange(s.len() - p.len(), s.len() as int) == p
}

/// `s` holds byte `b` somewhere.
pub open spec fn holds_byte(s: Seq<u8>, b: u8) -> bool {
    exists|i: int| 0 <= i < s.len() && s[i] == b
}

/// `s` holds two consecutive bytes equal to `b`.
pub open spec fn holds_pair(s: Seq<u8>, b: u8) -> bool {
    exists|i: int| 0 <= i && i + 1 < s.len() && #[trigger] s[i] == b && s[i + 1] == b
}

/// Index of the first byte of `s` past its leading copies of `b`.
pub open spec fn leading_run_end(s: Seq<u8>, b: u8, i: int) -> int
    decreases s.len() - i,
{
    if i < 0 || i >= s.len() {
        s.len() as int
    } else if s[i] == b {
        leading_run_end(s, b, i + 1)
    } else {
        i
    }
}

/// Length of `s[..end]` once its trailing copies of `b` are removed.
pub open spec fn trailing_run_start(s: Seq<u8>, b: u8, end: int) -> int
    decreases end,
{
    if end <= 0 || end > s.len() {
        if end <= 0 { 0 } else { trailing_run_start(s, b, s.len() as int) }
    } else if s[end - 1] == b {
        trailing_run_start(s, b, end - 1)
    } else {
        end
    }
}

/// `s` with every trailing copy of `b` removed.
pub open spec fn trim_end_byte(s: Seq<u8>, b: u8) -> Seq<u8> {
    s.subrange(0, trailing_run_start(s, b, s.len() as int))
}

pub proof fn lemma_leading_run_end_bounds(s: Seq<u8>, b: u8, i: int)
    requires
        0 <= i <= s.len(),
    ensures
        i <= leading_run_end(s, b, i) <= s.len(),
    decreases s.len() - i,
{
    if i < s.len() && s[i] == b {
        lemma_leading_run_end_bounds(s, b, i + 1);
    }
}

pub proof fn lemma_leading_run_end_stops(s: Seq<u8>, b: u8, i: int)
    requires
        0 <= i <= s.len(),
        leading_run_end(s, b, i) < s.len(),
    ensures
        s[leading_run_end(s, b, i)] != b,
    decreases s.len() - i,
{
    if i < s.len() && s[i] == b {
        lemma_leading_run_end_stops(s, b, i + 1);
    }
}

pub proof fn lemma_trailing_run_start_bounds(s: Seq<u8>, b: u8, end: int)
    requires
        0 <= end <= s.len(),
    ensures
        0 <= trailing_run_start(s, b, end) <= end,
    decreases end,
{
    if end > 0 && s[end - 1] == b {
        lemma_trailing_run_start_bounds(s, b, end - 1);
    }
}

/// Whether `s` starts with `p`.
pub fn starts_with(s: &[u8], p: &[u8]) -> (b: bool)
    ensures
        b == has_prefix(s@, p@),
{
    if p.len() > s.len() {
        return false;
    }
    let mut i: usize = 0;
    while i < p.len()
        invariant
            p@.len() <= s@.len(),
            i <= p@.len(),
            forall|j: int| 0 <= j < i ==> s@[j] == p@[j],
        decreases p.len() - i,
    {
        if s[i] != p[i] {
            assert(s@.subrange(0, p@.len() as int)[i as int] != p@[i as int]);
            return false;
        }
        i = i + 1;
    }
    assert(s@.subrange(0, p@.len() as int) =~= p@);
    true
}

/// Whether `s` ends with `p`.
pub fn ends_with(s: &[u8], p: &[u8]) -> (b: bool)
    ensures
        b == has_suffix(s@, p@),
{
    if p.len() > s.len() {
        return false;
    }
    let base = s.len() - p.len();
    let mut i: usize = 0;
    while i < p.len()
        invariant
            p@.len() <= s@.len(),
            s@.len() <= usize::MAX,
            base == s@.len() - p@.len(),
            i <= p@.len(),
            forall|j: int| 0 <= j < i ==> s@[base + j] == p@[j],
        decreases p.len() - i,
    {
        if s[base + i] != p[i] {
            assert(s@.subrange(base as int, s@.len() as int)[i as int] != p@[i as int]);
            return false;
        }
        i = i + 1;
    }
    assert(s@.subrange(base as int, s@.len() as int) =~= p@);
    true
}

/// Whether `a` and `b` hold the same bytes.
pub fn bytes_eq(a: &[u8], b: &[u8]) -> (eq: bool)
    ensures
        eq == (a@ == b@),
{
    if a.len() != b.len() {
        return false;
    }
    let mut i: usize = 0;
    while i < a.len()
        invariant
            a@.len() == b@.len(),
            i <= a@.len(),
            forall|j: int| 0 <= j < i ==> a@[j] == b@[j],
        decreases a.len() - i,
    {
        if a[i] != b[i] {
            return false;
        }
        i = i + 1;
    }
    assert(a@ =~= b@);
    true
}

/// Whether `s` holds the byte `b`.
pub fn contains_byte(s: &[u8], b: u8) -> (found: bool)
    ensures
        found == holds_byte(s@, b),
{
    let mut i: usize = 0;
    while i < s.len()
        invariant
            i <= s@.len(),
            forall|j: int| 0 <= j < i ==> s@[j] != b,
        decreases s.len() - i,
    {
        if s[i] == b {
            return true;
        }
        i = i + 1;
    }
    false
}

/// Whether `s` holds two consecutive copies of `b`.
pub fn contains_pair(s: &[u8], b: u8) -> (found: bool)
    ensures
        found == holds_pair(s@, b),
{
    if s.len() < 2 {
        return false;
    }
    let mut i: usize = 0;
    while i + 1 < s.len()
        invariant
            s@.len() >= 2,
            i + 1 <= s@.len(),
            forall|j: int| 0 <= j < i ==> !(#[trigger] s@[j] == b && s@[j + 1] == b),
        decreases s.len() - i,
    {
        if s[i] == b && s[i + 1] == b {
            return true;
        }
        i = i + 1;
    }
    false
}

/// Index of the first byte of `s` at or after `from` that is not `b`.
pub fn skip_leading(s: &[u8], b: u8, from: usize) -> (end: usize)
    requires
        from <= s@.len(),
    ensures
        end == leading_run_end(s@, b, from as int),
        from <= end <= s@.len(),
{
    proof {
        lemma_leading_run_end_bounds(s@, b, from as int);
    }
    let mut i = from;
    while i < s.len()
        invariant
            from <= i <= s@.len(),
            leading_run_end(s@, b, from as int) == leading_run_end(s@, b, i as int),
        decreases s.len() - i,
    {
        if s[i] != b {
            return i;
        }
        i = i + 1;
    }
    i
}

/// Length of `s[..end]` without its trailing copies of `b`.
pub fn trim_trailing(s: &[u8], b: u8, end: usize) -> (start: usize)
    requires
        end <= s@.len(),
    ensures
        start == trailing_run_start(s@, b, end as int),
        start <= end,
{
    proof {
        lemma_trailing_run_start_bounds(s@, b, end as int);
    }
    let mut i = end;
    while i > 0
        invariant
            i <= end,
            end <= s@.len(),
            trailing_run_start(s@, b, end as int) == trailing_run_start(s@, b, i as int),
        decreases i,
    {
        if s[i - 1] != b {
            return i;
        }
        i = i - 1;
    }
    0
}

/// Appends the bytes of `tail` to `out`.
pub fn push_all(out: &mut Vec<u8>, tail: &[u8])
    ensures
        final(out)@ == old(out)@ + tail@,
{
    let mut i: usize = 0;
    while i < tail.len()
        invariant
            i <= tail@.len(),
            out@ == old(out)@ + tail@.subrange(0, i as int),
        decreases tail.len() - i,
    {
        out.push(tail[i]);
        proof {
            assert(tail@.subrange(0, i + 1) =~= tail@.subrange(0, i as int).push(tail@[i as int]));
        }
        i = i + 1;
    }
    assert(tail@.subrange(0, tail@.len() as int) =~= tail@);
}

/// An ASCII byte that `str::trim` removes: tab, line feed, vertical tab, form feed, carriage return, space.
pub open spec fn is_trim_ws(b: u8) -> bool {
    (0x09 <= b && b <= 0x0d) || b == 0x20
}

/// Index of the first byte of `s` from `i` on that is not trimmable whitespace.
pub open spec fn trim_start_from(s: Seq<u8>, i: int) -> int
    decreases s.len() - i,
{
    if i < 0 || i >= s.len() {
        s.len() as int
    } else if is_trim_ws(s[i]) {
        trim_start_from(s, i + 1)
    } else {
        i
    }
}

/// One past the last byte of `s[..end]` that is not trimmable whitespace, but not below `lo`.
pub open spec fn trim_end_to(s: Seq<u8>, lo: int, end: int) -> int
    decreases end - lo,
{
    if end <= lo || end > s.len() {
        lo
    } else if is_trim_ws(s[end - 1]) {
        trim_end_to(s, lo, end - 1)
    } else {
        end
    }
}

/// `s` without leading and trailing ASCII whitespace.
pub open spec fn trimmed(s: Seq<u8>) -> Seq<u8> {
    let a = trim_start_from(s, 0);
    s.subrange(a, trim_end_to(s, a, s.len() as int))
}

proof fn lemma_trim_start_bounds(s: Seq<u8>, i: int)
    requires
        0 <= i <= s.len(),
    ensures
        i <= trim_start_from(s, i) <= s.len(),
    decreases s.len() - i,
{
    if i < s.len() && is_trim_ws(s[i]) {
        lemma_trim_start_bounds(s, i + 1);
    }
}

proof fn lemma_trim_end_bounds(s: Seq<u8>, lo: int, end: int)
    requires
        0 <= lo <= end <= s.len(),
    ensures
        lo <= trim_end_to(s, lo, end) <= end,
    decreases end - lo,
{
    if end > lo && is_trim_ws(s[end - 1]) {
        lemma_trim_end_bounds(s, lo, end - 1);
    }
}

/// The bounds of `s` once leading and trailing ASCII whitespace is removed.
pub fn trim_bounds(s: &[u8]) -> (r: (usize, usize))
    ensures
        r.0 == trim_start_from(s@, 0),
        r.1 == trim_end_to(s@, r.0 as int, s@.len() as int),
        r.0 <= r.1 <= s@.len(),
{
    proof {
        lemma_trim_start_bounds(s@, 0);
    }
    let mut a: usize = 0;
    while a < s.len()
        invariant
            a <= s@.len(),
            trim_start_from(s@, 0) == trim_start_from(s@, a as int),
        ensures
            a == trim_start_from(s@, 0),
        decreases s@.len() - a,
    {
        let b = s[a];
        if !((0x09 <= b && b <= 0x0d) || b == 0x20) {
            break;
        }
        a = a + 1;
    }
    proof {
        lemma_trim_end_bounds(s@, a as int, s@.len() as int);
    }
    let mut e: usize = s.len();
    while e > a
        invariant
            a <= e <= s@.len(),
            trim_end_to(s@, a as int, s@.len() as int) == trim_end_to(s@, a as int, e as int),
        ensures
            e == trim_end_to(s@, a as int, s@.len() as int),
        decreases e,
    {
        let b = s[e - 1];
        if !((0x09 <= b && b <= 0x0d) || b == 0x20) {
            break;
        }
        e = e - 1;
    }
    (a, e)
}

} // verus!
