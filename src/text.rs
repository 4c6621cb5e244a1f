use vstd::prelude::*;

verus! {

/// `pat` occurs in `s` at position `i`.
pub open spec fn occurs_at(s: Seq<u8>, pat: Seq<u8>, i: int) -> bool {
    0 <= i && i + pat.len() <= s.len() && s.subrange(i, i + pat.len()) == pat
}

/// The first position at or after `from` where `pat` occurs in `s`.
pub open spec fn first_from(s: Seq<u8>, pat: Seq<u8>, from: int) -> Option<int>
    decreases s.len() + 1 - from,
{
    if from < 0 || from + pat.len() > s.len() {
        None
    } else if occurs_at(s, pat, from) {
        Some(from)
    } else {
        first_from(s, pat, from + 1)
    }
}

/// `pat` occurs somewhere in `s`.
pub open spec fn contains(s: Seq<u8>, pat: Seq<u8>) -> bool {
    first_from(s, pat, 0) is Some
}

pub open spec fn starts_with(s: Seq<u8>, pat: Seq<u8>) -> bool {
    occurs_at(s, pat, 0)
}

pub open spec fn is_digit(b: u8) -> bool {
    48 <= b <= 57
}

/// The number written by the decimal digits `s` (most significant first).
pub open spec fn digits_value(s: Seq<u8>) -> nat
    decreases s.len(),
{
    if s.len() == 0 {
        0
    } else {
        digits_value(s.drop_last()) * 10 + (s.last() - 48) as nat
    }
}

/// `s` read as a decimal `u32`: one or more ASCII digits whose value fits.
pub open spec fn parse_u32(s: Seq<u8>) -> Option<u32> {
    if s.len() > 0 && (forall|i: int| 0 <= i < s.len() ==> is_digit(#[trigger] s[i]))
        && digits_value(s) <= u32::MAX {
        Some(digits_value(s) as u32)
    } else {
        None
    }
}

proof fn lemma_first_from_step(s: Seq<u8>, pat: Seq<u8>, from: int)
    requires
        0 <= from,
        from + pat.len() <= s.len(),
        !occurs_at(s, pat, from),
    ensures
        first_from(s, pat, from) == first_from(s, pat, from + 1),
{
}

/// Position of the first occurrence of `pat` in `s` at or after `from`.
pub fn find_from(s: &[u8], pat: &[u8], from: usize) -> (r: Option<usize>)
    ensures
        r matches Some(i) ==> first_from(s@, pat@, from as int) == Some(i as int) && from <= i
            && i + pat@.len() <= s@.len() && occurs_at(s@, pat@, i as int),
        r is None ==> first_from(s@, pat@, from as int) is None,
{
    if pat.len() > s.len() {
        return None;
    }
    let last = s.len() - pat.len();
    let mut i = from;
    while i <= last
        invariant
            last == s.len() - pat.len(),
            from <= i,
            first_from(s@, pat@, from as int) == first_from(s@, pat@, i as int),
        decreases last + 1 - i,
    {
        if matches_at(s, pat, i) {
            return Some(i);
        }
        proof {
            lemma_first_from_step(s@, pat@, i as int);
        }
        if i == last {
            return None;
        }
        i = i + 1;
    }
    None
}

/// Whether `pat` occurs in `s` at position `i`.
pub fn matches_at(s: &[u8], pat: &[u8], i: usize) -> (r: bool)
    ensures
        r == occurs_at(s@, pat@, i as int),
{
    if i > s.len() || pat.len() > s.len() - i {
        return false;
    }
    let mut k: usize = 0;
    while k < pat.len()
        invariant
            i + pat.len() <= s.len(),
            k <= pat.len(),
            forall|j: int| 0 <= j < k ==> s@[i + j] == pat@[j],
        decreases pat.len() - k,
    {
        if s[i + k] != pat[k] {
            assert(s@.subrange(i as int, i + pat.len())[k as int] != pat@[k as int]);
            return false;
        }
        k = k + 1;
    }
    assert(s@.subrange(i as int, i + pat.len()) =~= pat@);
    true
}

/// Whether `pat` occurs in `s`.
pub fn contains_bytes(s: &[u8], pat: &[u8]) -> (r: bool)
    ensures
        r == contains(s@, pat@),
{
    find_from(s, pat, 0).is_some()
}

/// Reads `s` as a decimal `u32`.
pub fn parse_decimal(s: &[u8]) -> (r: Option<u32>)
    ensures
        r == parse_u32(s@),
{
    let limit: u64 = u32::MAX as u64 + 1;
    let mut acc: u64 = 0;
    let mut k: usize = 0;
    while k < s.len()
        invariant
            limit == u32::MAX + 1,
            k <= s.len(),
            acc == (if digits_value(s@.take(k as int)) < limit {
                digits_value(s@.take(k as int))
            } else {
                limit as nat
            }),
            forall|i: int| 0 <= i < k ==> is_digit(#[trigger] s@[i]),
        decreases s.len() - k,
    {
        let b = s[k];
        if b < 48 || b > 57 {
            assert(!is_digit(s@[k as int]));
            return None;
        }
        proof {
            assert(s@.take(k + 1).drop_last() =~= s@.take(k as int));
        }
        let next: u64 = acc * 10 + (b as u64 - 48);
        acc = if next >= limit { limit } else { next };
        k = k + 1;
    }
    assert(s@.take(s.len() as int) =~= s@);
    if s.len() > 0 && acc < limit {
        Some(acc as u32)
    } else {
        None
    }
}

/// Whether `s` ends with a carriage return followed by a line feed.
pub open spec fn ends_with_crlf(s: Seq<u8>) -> bool {
    s.len() >= 2 && s[s.len() - 2] == 13 && s[s.len() - 1] == 10
}

/// The decimal digits of `n`, most significant first, without leading zeros.
pub open spec fn decimal_digits(n: nat) -> Seq<u8>
    decreases n,
{
    if n < 10 {
        seq![(48 + n) as u8]
    } else {
        decimal_digits(n / 10).push((48 + n % 10) as u8)
    }
}

/// `s` with zeros put in front until it is `width` long.
pub open spec fn zero_padded(s: Seq<u8>, width: nat) -> Seq<u8> {
    if s.len() < width {
        Seq::new((width - s.len()) as nat, |i: int| 48u8) + s
    } else {
        s
    }
}

/// Writes `n` in decimal.
pub fn decimal(n: u32) -> (r: Vec<u8>)
    ensures
        r@ == decimal_digits(n as nat),
    decreases n,
{
    if n < 10 {
        let mut v: Vec<u8> = Vec::new();
        v.push(48u8 + n as u8);
        v
    } else {
        let mut v = decimal(n / 10);
        v.push(48u8 + (n % 10) as u8);
        v
    }
}

/// Appends the bytes of `s` to `v`.
pub fn append_bytes(v: &mut Vec<u8>, s: &[u8])
    ensures
        final(v)@ == old(v)@ + s@,
{
    let mut k: usize = 0;
    while k < s.len()
        invariant
            k <= s.len(),
            v@ == old(v)@ + s@.take(k as int),
        decreases s.len() - k,
    {
        v.push(s[k]);
        k = k + 1;
        assert(v@ =~= old(v)@ + s@.take(k as int));
    }
    assert(s@.take(s.len() as int) =~= s@);
}

/// Puts zeros in front of `v` until it is `width` long.
pub fn pad_zeros(v: &mut Vec<u8>, width: usize)
    ensures
        final(v)@ == zero_padded(old(v)@, width as nat),
{
    let ghost orig = v@;
    if v.len() >= width {
        return;
    }
    let mut out: Vec<u8> = Vec::new();
    let missing = width - v.len();
    while out.len() < missing
        invariant
            missing == width - orig.len(),
            out.len() <= missing,
            v@ == orig,
            forall|i: int| 0 <= i < out.len() ==> out@[i] == 48u8,
        decreases missing - out.len(),
    {
        out.push(48u8);
    }
    append_bytes(&mut out, v.as_slice());
    assert(out@ =~= zero_padded(orig, width as nat));
    *v = out;
}

} // verus!
