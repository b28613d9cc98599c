//! Byte-string helpers for header values: the visible-ASCII check that
//! header text must pass, decimal numbers, and splitting at a delimiter.
use vstd::prelude::*;

verus! {

/// Why a decimal number could not be read.
#[derive(Debug, Clone, Copy, PartialEq, Eq, Structural)]
pub enum IntErrorKind {
    Empty,
    InvalidDigit,
    PosOverflow,
}

pub open spec fn is_digit(b: u8) -> bool {
    48 <= b <= 57
}

/// A byte that header text may contain: visible ASCII or a tab.
pub open spec fn is_visible_ascii(b: u8) -> bool {
    (32 <= b && b < 127) || b == 9
}

/// The value of a run of decimal digits, read left to right: the first
/// byte that is not a digit, or the first digit that takes the value past
/// `u64::MAX`, ends the reading with that error.
pub open spec fn digits_value(s: Seq<u8>) -> Result<u64, IntErrorKind>
    decreases s.len(),
{
    if s.len() == 0 {
        Ok(0)
    } else {
        match digits_value(s.drop_last()) {
            Err(e) => Err(e),
            Ok(acc) => {
                let b = s.last();
                if !is_digit(b) {
                    Err(IntErrorKind::InvalidDigit)
                } else if acc * 10 + (b - 48) > u64::MAX {
                    Err(IntErrorKind::PosOverflow)
                } else {
                    Ok((acc * 10 + (b - 48)) as u64)
                }
            },
        }
    }
}

/// How a `u64` is read from text: an optional leading `+`, then at least
/// one decimal digit.
pub open spec fn parse_u64_spec(s: Seq<u8>) -> Result<u64, IntErrorKind> {
    if s.len() == 0 {
        Err(IntErrorKind::Empty)
    } else if s.len() == 1 && (s[0] == 43u8 || s[0] == 45u8) {
        Err(IntErrorKind::InvalidDigit)
    } else if s[0] == 43u8 {
        digits_value(s.drop_first())
    } else {
        digits_value(s)
    }
}

/// The decimal digits of `n`, most significant first, without leading zeros.
pub open spec fn dec_string(n: nat) -> Seq<u8>
    decreases n,
{
    if n < 10 {
        seq![(48 + n) as u8]
    } else {
        dec_string(n / 10).push((48 + n % 10) as u8)
    }
}

/// `i` is the last position of `c` in `s`.
pub open spec fn is_last_index_of(s: Seq<u8>, c: u8, i: int) -> bool {
    &&& 0 <= i < s.len()
    &&& s[i] == c
    &&& forall|j: int| i < j < s.len() ==> s[j] != c
}

/// `i` is the first position of `c` in `s`.
pub open spec fn is_first_index_of(s: Seq<u8>, c: u8, i: int) -> bool {
    &&& 0 <= i < s.len()
    &&& s[i] == c
    &&& forall|j: int| 0 <= j < i ==> s[j] != c
}

/// Whether all of `s` is valid header text.
pub fn is_header_text(s: &[u8]) -> (r: bool)
    ensures
        r == (forall|i: int| 0 <= i < s@.len() ==> is_visible_ascii(#[trigger] s@[i])),
{
    let mut i: usize = 0;
    while i < s.len()
        invariant
            i <= s@.len(),
            forall|k: int| 0 <= k < i ==> is_visible_ascii(#[trigger] s@[k]),
        decreases s.len() - i,
    {
        let b = s[i];
        if !((32 <= b && b < 127) || b == 9) {
            return false;
        }
        i += 1;
    }
    true
}

/// Reads a `u64` from `s` as Rust's `u64::from_str` does.
pub fn parse_u64(s: &[u8]) -> (r: Result<u64, IntErrorKind>)
    ensures
        r == parse_u64_spec(s@),
{
    if s.len() == 0 {
        return Err(IntErrorKind::Empty);
    }
    if s.len() == 1 && (s[0] == 43u8 || s[0] == 45u8) {
        return Err(IntErrorKind::InvalidDigit);
    }
    let first: usize = if s[0] == 43u8 { 1 } else { 0 };
    let ghost d = s@.subrange(first as int, s@.len() as int);
    assert(first == 1 ==> d =~= s@.drop_first());
    assert(first == 0 ==> d =~= s@);
    assert(parse_u64_spec(s@) == digits_value(d));
    assert(d.take(0) =~= Seq::<u8>::empty());
    let mut acc: u64 = 0;
    let mut i: usize = first;
    while i < s.len()
        invariant
            first <= i <= s@.len(),
            d == s@.subrange(first as int, s@.len() as int),
            parse_u64_spec(s@) == digits_value(d),
            digits_value(d.take(i - first)) == Ok::<u64, IntErrorKind>(acc),
        decreases s.len() - i,
    {
        let b = s[i];
        proof {
            assert(d.take(i - first + 1).drop_last() =~= d.take(i - first));
            assert(d.take(i - first + 1).last() == b);
        }
        if !(48u8 <= b && b <= 57u8) {
            proof {
                assert(digits_value(d.take(i - first + 1)) == Err::<u64, IntErrorKind>(
                    IntErrorKind::InvalidDigit,
                ));
                lemma_digits_error_sticks(d, (i - first + 1) as int);
            }
            return Err(IntErrorKind::InvalidDigit);
        }
        let digit = (b - 48u8) as u64;
        if acc > (u64::MAX - digit) / 10 {
            proof {
                assert(acc * 10 + digit > u64::MAX) by (nonlinear_arith)
                    requires
                        acc > (u64::MAX - digit) / 10,
                        digit <= 9,
                ;
                assert(digits_value(d.take(i - first + 1)) == Err::<u64, IntErrorKind>(
                    IntErrorKind::PosOverflow,
                ));
                lemma_digits_error_sticks(d, (i - first + 1) as int);
            }
            return Err(IntErrorKind::PosOverflow);
        }
        assert(acc * 10 + digit <= u64::MAX) by (nonlinear_arith)
            requires
                acc <= (u64::MAX - digit) / 10,
                digit <= 9,
        ;
        acc = acc * 10 + digit;
        i += 1;
        assert(digits_value(d.take(i - first)) == Ok::<u64, IntErrorKind>(acc));
    }
    assert(d.take(i - first) =~= d);
    Ok(acc)
}

/// Once reading the digits of a prefix fails, reading the whole fails the
/// same way.
proof fn lemma_digits_error_sticks(d: Seq<u8>, k: int)
    requires
        0 <= k <= d.len(),
        digits_value(d.take(k)) is Err,
    ensures
        digits_value(d) == digits_value(d.take(k)),
    decreases d.len() - k,
{
    if k == d.len() {
        assert(d.take(k) =~= d);
    } else {
        assert(d.take(k + 1).drop_last() =~= d.take(k));
        lemma_digits_error_sticks(d, k + 1);
    }
}

/// Appends the decimal digits of `n` to `out`.
pub fn push_decimal(n: u64, out: &mut Vec<u8>)
    ensures
        final(out)@ == old(out)@ + dec_string(n as nat),
    decreases n,
{
    if n >= 10 {
        push_decimal(n / 10, out);
    }
    out.push(48u8 + (n % 10) as u8);
    proof {
        if n < 10 {
            assert(dec_string(n as nat) =~= seq![(48 + n) as u8]);
        }
    }
}

/// Reading back a written number gives the number.
pub proof fn lemma_parse_dec_string(n: u64)
    ensures
        parse_u64_spec(dec_string(n as nat)) == Ok::<u64, IntErrorKind>(n),
{
    lemma_digits_dec_string(n as nat);
    lemma_dec_string_first_is_digit(n as nat);
}

proof fn lemma_digits_dec_string(n: nat)
    requires
        n <= u64::MAX,
    ensures
        digits_value(dec_string(n)) == Ok::<u64, IntErrorKind>(n as u64),
    decreases n,
{
    if n < 10 {
        assert(dec_string(n).drop_last() =~= Seq::<u8>::empty());
        assert(digits_value(Seq::<u8>::empty()) == Ok::<u64, IntErrorKind>(0));
        assert(dec_string(n).last() == (48 + n) as u8);
    } else {
        lemma_digits_dec_string(n / 10);
        assert(dec_string(n).drop_last() =~= dec_string(n / 10));
        assert(dec_string(n).last() == (48 + n % 10) as u8);
        assert(n == (n / 10) * 10 + n % 10);
    }
}

proof fn lemma_dec_string_first_is_digit(n: nat)
    ensures
        dec_string(n).len() >= 1,
        is_digit(dec_string(n)[0]),
    decreases n,
{
    if n >= 10 {
        lemma_dec_string_first_is_digit(n / 10);
    }
}

/// The last position of `c` in `s`, if any.
pub fn find_last(s: &[u8], c: u8) -> (r: Option<usize>)
    ensures
        r matches Some(i) ==> is_last_index_of(s@, c, i as int),
        r is None ==> forall|j: int| 0 <= j < s@.len() ==> s@[j] != c,
{
    let mut i: usize = s.len();
    while i > 0
        invariant
            i <= s@.len(),
            forall|j: int| i <= j < s@.len() ==> s@[j] != c,
        decreases i,
    {
        if s[i - 1] == c {
            return Some(i - 1);
        }
        i -= 1;
    }
    None
}

/// The first position of `c` in `s`, if any.
pub fn find_first(s: &[u8], c: u8) -> (r: Option<usize>)
    ensures
        r matches Some(i) ==> is_first_index_of(s@, c, i as int),
        r is None ==> forall|j: int| 0 <= j < s@.len() ==> s@[j] != c,
{
    let mut i: usize = 0;
    while i < s.len()
        invariant
            i <= s@.len(),
            forall|j: int| 0 <= j < i ==> s@[j] != c,
        decreases s.len() - i,
    {
        if s[i] == c {
            return Some(i);
        }
        i += 1;
    }
    None
}

/// Whether `s` starts with `prefix`.
pub fn starts_with(s: &[u8], prefix: &[u8]) -> (r: bool)
    ensures
        r == (prefix@.len() <= s@.len() && s@.subrange(0, prefix@.len() as int) == prefix@),
{
    if prefix.len() > s.len() {
        return false;
    }
    let mut i: usize = 0;
    while i < prefix.len()
        invariant
            i <= prefix@.len() <= s@.len(),
            forall|j: int| 0 <= j < i ==> s@[j] == prefix@[j],
        decreases prefix.len() - i,
    {
        if s[i] != prefix[i] {
            assert(s@.subrange(0, prefix@.len() as int)[i as int] != prefix@[i as int]);
            return false;
        }
        i += 1;
    }
    assert(s@.subrange(0, prefix@.len() as int) =~= prefix@);
    true
}

/// The last position of `c` in `s`, if any.
pub open spec fn last_index_of(s: Seq<u8>, c: u8) -> Option<int> {
    if exists|i: int| is_last_index_of(s, c, i) {
        Some(choose|i: int| is_last_index_of(s, c, i))
    } else {
        None
    }
}

/// The first position of `c` in `s`, if any.
pub open spec fn first_index_of(s: Seq<u8>, c: u8) -> Option<int> {
    if exists|i: int| is_first_index_of(s, c, i) {
        Some(choose|i: int| is_first_index_of(s, c, i))
    } else {
        None
    }
}

/// `s` split around the last `c` (`str::rsplit_once`).
pub open spec fn rsplit_once_spec(s: Seq<u8>, c: u8) -> Option<(Seq<u8>, Seq<u8>)> {
    match last_index_of(s, c) {
        Some(i) => Some((s.take(i), s.skip(i + 1))),
        None => None,
    }
}

/// `s` split around the first `c` (`str::split_once`).
pub open spec fn split_once_spec(s: Seq<u8>, c: u8) -> Option<(Seq<u8>, Seq<u8>)> {
    match first_index_of(s, c) {
        Some(i) => Some((s.take(i), s.skip(i + 1))),
        None => None,
    }
}

/// What follows `prefix` in `s`, if `s` starts with it (`str::strip_prefix`).
pub open spec fn strip_prefix_spec(s: Seq<u8>, prefix: Seq<u8>) -> Option<Seq<u8>> {
    if prefix.len() <= s.len() && s.take(prefix.len() as int) == prefix {
        Some(s.skip(prefix.len() as int))
    } else {
        None
    }
}

proof fn lemma_last_index_unique(s: Seq<u8>, c: u8, i: int)
    requires
        is_last_index_of(s, c, i),
    ensures
        last_index_of(s, c) == Some(i),
{
    let k = choose|k: int| is_last_index_of(s, c, k);
    assert(is_last_index_of(s, c, k));
}

proof fn lemma_first_index_unique(s: Seq<u8>, c: u8, i: int)
    requires
        is_first_index_of(s, c, i),
    ensures
        first_index_of(s, c) == Some(i),
{
    let k = choose|k: int| is_first_index_of(s, c, k);
    assert(is_first_index_of(s, c, k));
}

/// Splits `s` around the last `c`.
pub fn rsplit_once(s: &[u8], c: u8) -> (r: Option<(&[u8], &[u8])>)
    ensures
        match (r, rsplit_once_spec(s@, c)) {
            (Some((a, b)), Some((sa, sb))) => a@ == sa && b@ == sb,
            (None, None) => true,
            _ => false,
        },
{
    match find_last(s, c) {
        Some(i) => {
            proof {
                lemma_last_index_unique(s@, c, i as int);
            }
            assert(i < s.len());
            let a = vstd::slice::slice_subrange(s, 0, i);
            let b = vstd::slice::slice_subrange(s, i + 1, s.len());
            assert(a@ =~= s@.take(i as int));
            assert(b@ =~= s@.skip(i + 1));
            Some((a, b))
        },
        None => {
            proof {
                if exists|k: int| is_last_index_of(s@, c, k) {
                    let k = choose|k: int| is_last_index_of(s@, c, k);
                    assert(s@[k] == c);
                }
            }
            None
        },
    }
}

/// Splits `s` around the first `c`.
pub fn split_once(s: &[u8], c: u8) -> (r: Option<(&[u8], &[u8])>)
    ensures
        match (r, split_once_spec(s@, c)) {
            (Some((a, b)), Some((sa, sb))) => a@ == sa && b@ == sb,
            (None, None) => true,
            _ => false,
        },
{
    match find_first(s, c) {
        Some(i) => {
            proof {
                lemma_first_index_unique(s@, c, i as int);
            }
            assert(i < s.len());
            let a = vstd::slice::slice_subrange(s, 0, i);
            let b = vstd::slice::slice_subrange(s, i + 1, s.len());
            assert(a@ =~= s@.take(i as int));
            assert(b@ =~= s@.skip(i + 1));
            Some((a, b))
        },
        None => {
            proof {
                if exists|k: int| is_first_index_of(s@, c, k) {
                    let k = choose|k: int| is_first_index_of(s@, c, k);
                    assert(s@[k] == c);
                }
            }
            None
        },
    }
}

/// What follows `prefix` in `s`, if `s` starts with it.
pub fn strip_prefix<'a>(s: &'a [u8], prefix: &[u8]) -> (r: Option<&'a [u8]>)
    ensures
        match (r, strip_prefix_spec(s@, prefix@)) {
            (Some(a), Some(sa)) => a@ == sa,
            (None, None) => true,
            _ => false,
        },
{
    if starts_with(s, prefix) {
        let rest = vstd::slice::slice_subrange(s, prefix.len(), s.len());
        assert(rest@ =~= s@.skip(prefix@.len() as int));
        assert(s@.take(prefix@.len() as int) =~= s@.subrange(0, prefix@.len() as int));
        Some(rest)
    } else {
        assert(prefix@.len() <= s@.len() ==> s@.take(prefix@.len() as int) =~= s@.subrange(
            0,
            prefix@.len() as int,
        ));
        None
    }
}

/// Whether `s` is exactly `*`.
pub fn is_star(s: &[u8]) -> (r: bool)
    ensures
        r == (s@ == seq![42u8]),
{
    if s.len() == 1 && s[0] == 42u8 {
        assert(s@ =~= seq![42u8]);
        true
    } else {
        false
    }
}

/// Every byte of a written number is a digit.
pub proof fn lemma_dec_string_digits(n: nat)
    ensures
        dec_string(n).len() >= 1,
        forall|i: int| 0 <= i < dec_string(n).len() ==> is_digit(#[trigger] dec_string(n)[i]),
    decreases n,
{
    if n >= 10 {
        lemma_dec_string_digits(n / 10);
        assert forall|i: int| 0 <= i < dec_string(n).len() implies is_digit(
            #[trigger] dec_string(n)[i],
        ) by {
            if i < dec_string(n / 10).len() {
                assert(dec_string(n)[i] == dec_string(n / 10)[i]);
            }
        }
    }
}

/// The first `c` in `a + seq![c] + b` is right after `a` when `a` holds no `c`.
pub proof fn lemma_split_at_first(a: Seq<u8>, c: u8, b: Seq<u8>)
    requires
        forall|i: int| 0 <= i < a.len() ==> a[i] != c,
    ensures
        split_once_spec(a + seq![c] + b, c) == Some((a, b)),
{
    let s = a + seq![c] + b;
    assert(is_first_index_of(s, c, a.len() as int));
    lemma_first_index_unique(s, c, a.len() as int);
    assert(s.take(a.len() as int) =~= a);
    assert(s.skip(a.len() as int + 1) =~= b);
}

/// The last `c` in `a + seq![c] + b` is right after `a` when `b` holds no `c`.
pub proof fn lemma_rsplit_at_last(a: Seq<u8>, c: u8, b: Seq<u8>)
    requires
        forall|i: int| 0 <= i < b.len() ==> b[i] != c,
    ensures
        rsplit_once_spec(a + seq![c] + b, c) == Some((a, b)),
{
    let s = a + seq![c] + b;
    assert forall|j: int| a.len() < j < s.len() implies s[j] != c by {
        assert(s[j] == b[j - a.len() - 1]);
    }
    assert(is_last_index_of(s, c, a.len() as int));
    lemma_last_index_unique(s, c, a.len() as int);
    assert(s.take(a.len() as int) =~= a);
    assert(s.skip(a.len() as int + 1) =~= b);
}

} // verus!
