use vstd::prelude::*;

verus! {

/// Field separators of the kernel's text tables.
pub open spec fn is_blank(c: u8) -> bool {
    c == 32 || c == 9 || c == 10 || c == 13
}

/// Reading `s` up to `i`: the fields completed so far, as `[start, end)`
/// ranges, and the start of the field still open, if any. A field is a
/// maximal run of non-blank bytes.
pub open spec fn field_state(s: Seq<u8>, i: nat) -> (Seq<(int, int)>, Option<int>)
    decreases i,
{
    if i == 0 || i > s.len() {
        (Seq::empty(), None)
    } else {
        let (done, open) = field_state(s, (i - 1) as nat);
        if is_blank(s[i - 1]) {
            match open {
                Some(a) => (done.push((a, i - 1)), None),
                None => (done, None),
            }
        } else {
            match open {
                Some(a) => (done, Some(a)),
                None => (done, Some(i - 1)),
            }
        }
    }
}

/// The fields of `s`, in order.
pub open spec fn fields_of(s: Seq<u8>) -> Seq<(int, int)> {
    let (done, open) = field_state(s, s.len());
    match open {
        Some(a) => done.push((a, s.len() as int)),
        None => done,
    }
}

/// Reading `s` up to `i`: the lines completed so far and where the current
/// one starts. Lines end at a newline, which belongs to neither.
pub open spec fn line_state(s: Seq<u8>, i: nat) -> (Seq<(int, int)>, int)
    decreases i,
{
    if i == 0 || i > s.len() {
        (Seq::empty(), 0)
    } else {
        let (done, cur) = line_state(s, (i - 1) as nat);
        if s[i - 1] == 10 {
            (done.push((cur, i - 1)), i as int)
        } else {
            (done, cur)
        }
    }
}

/// The lines of `s`, in order; text after the last newline is a line too.
pub open spec fn lines_of(s: Seq<u8>) -> Seq<(int, int)> {
    let (done, cur) = line_state(s, s.len());
    done.push((cur, s.len() as int))
}

/// `r` holds the ranges of `f`.
pub open spec fn same_ranges(r: Seq<(usize, usize)>, f: Seq<(int, int)>) -> bool {
    &&& r.len() == f.len()
    &&& forall|k: int| 0 <= k < r.len() ==> r[k].0 == f[k].0 && r[k].1 == f[k].1
}

pub open spec fn is_digit(c: u8) -> bool {
    48 <= c <= 57
}

pub open spec fn all_digits(s: Seq<u8>) -> bool {
    forall|i: int| 0 <= i < s.len() ==> is_digit(s[i])
}

/// The number that the decimal digits `s` spell.
pub open spec fn decimal(s: Seq<u8>) -> int
    decreases s.len(),
{
    if s.len() == 0 {
        0
    } else {
        decimal(s.drop_last()) * 10 + (s.last() - 48)
    }
}

/// The decimal number `s` spells, if it is one non-empty run of digits whose
/// value fits in a `u64`.
pub open spec fn decimal_of(s: Seq<u8>) -> Option<u64> {
    if s.len() > 0 && all_digits(s) && decimal(s) <= u64::MAX {
        Some(decimal(s) as u64)
    } else {
        None
    }
}

proof fn lemma_decimal_grows(s: Seq<u8>, i: int, j: int)
    requires
        0 <= i <= j <= s.len(),
        all_digits(s),
    ensures
        decimal(s.subrange(0, i)) <= decimal(s.subrange(0, j)),
    decreases j - i,
{
    if i < j {
        lemma_decimal_grows(s, i, j - 1);
        assert(s.subrange(0, j).drop_last() =~= s.subrange(0, j - 1));
        assert(all_digits(s.subrange(0, j - 1))) by {
            assert forall|k: int| 0 <= k < j - 1 implies is_digit(#[trigger] s.subrange(0, j - 1)[k]) by {
                assert(s.subrange(0, j - 1)[k] == s[k]);
            }
        }
        lemma_decimal_nonneg(s.subrange(0, j - 1));
    }
}

proof fn lemma_decimal_nonneg(s: Seq<u8>)
    requires
        all_digits(s),
    ensures
        decimal(s) >= 0,
    decreases s.len(),
{
    if s.len() > 0 {
        assert(all_digits(s.drop_last())) by {
            assert forall|i: int| 0 <= i < s.len() - 1 implies is_digit(#[trigger] s.drop_last()[i]) by {
                assert(s.drop_last()[i] == s[i]);
            }
        }
        lemma_decimal_nonneg(s.drop_last());
    }
}

/// Parses `s` as an unsigned decimal number.
pub fn parse_decimal(s: &[u8]) -> (r: Option<u64>)
    ensures
        r == decimal_of(s@),
{
    if s.len() == 0 {
        return None;
    }
    let mut v: u64 = 0;
    let mut i: usize = 0;
    while i < s.len()
        invariant
            i <= s@.len(),
            all_digits(s@.subrange(0, i as int)),
            v == decimal(s@.subrange(0, i as int)),
        decreases s@.len() - i,
    {
        let c = s[i];
        assert(s@.subrange(0, i + 1).drop_last() =~= s@.subrange(0, i as int));
        if c < 48 || c > 57 {
            assert(!all_digits(s@));
            return None;
        }
        let d = (c - 48) as u64;
        if v > (u64::MAX - d) / 10 {
            proof {
                if all_digits(s@) {
                    lemma_decimal_grows(s@, i + 1, s@.len() as int);
                    assert(s@.subrange(0, s@.len() as int) =~= s@);
                }
            }
            return None;
        }
        v = v * 10 + d;
        i = i + 1;
    }
    assert(s@.subrange(0, s@.len() as int) =~= s@);
    Some(v)
}

/// The fields of `s`, as `[start, end)` ranges.
pub fn split_fields(s: &[u8]) -> (r: Vec<(usize, usize)>)
    ensures
        same_ranges(r@, fields_of(s@)),
        forall|k: int| 0 <= k < r@.len() ==> (#[trigger] r@[k]).0 <= r@[k].1 <= s@.len(),
{
    let mut r: Vec<(usize, usize)> = Vec::new();
    let mut open: Option<usize> = None;
    let mut i: usize = 0;
    while i < s.len()
        invariant
            i <= s@.len(),
            same_ranges(r@, field_state(s@, i as nat).0),
            forall|k: int| 0 <= k < r@.len() ==> (#[trigger] r@[k]).0 <= r@[k].1 <= i,
            match field_state(s@, i as nat).1 {
                Some(a) => 0 <= a < i && open == Some(a as usize),
                None => open.is_none(),
            },
        decreases s@.len() - i,
    {
        let ghost before = r@;
        let c = s[i];
        if c == 32 || c == 9 || c == 10 || c == 13 {
            if let Some(a) = open {
                r.push((a, i));
                open = None;
                assert(r@ == before.push((a, i)));
            }
        } else if open.is_none() {
            open = Some(i);
        }
        assert(field_state(s@, (i + 1) as nat) == {
            let (done, op) = field_state(s@, i as nat);
            if is_blank(s@[i as int]) {
                match op {
                    Some(a) => (done.push((a, i as int)), None),
                    None => (done, None),
                }
            } else {
                match op {
                    Some(a) => (done, Some(a)),
                    None => (done, Some(i as int)),
                }
            }
        });
        i = i + 1;
    }
    let ghost before = r@;
    if let Some(a) = open {
        r.push((a, s.len()));
        assert(r@ == before.push((a, s.len())));
    }
    r
}

/// The lines of `s`, as `[start, end)` ranges.
pub fn split_lines(s: &[u8]) -> (r: Vec<(usize, usize)>)
    ensures
        same_ranges(r@, lines_of(s@)),
        forall|k: int| 0 <= k < r@.len() ==> (#[trigger] r@[k]).0 <= r@[k].1 <= s@.len(),
{
    let mut r: Vec<(usize, usize)> = Vec::new();
    let mut cur: usize = 0;
    let mut i: usize = 0;
    while i < s.len()
        invariant
            i <= s@.len(),
            cur <= i,
            same_ranges(r@, line_state(s@, i as nat).0),
            forall|k: int| 0 <= k < r@.len() ==> (#[trigger] r@[k]).0 <= r@[k].1 <= i,
            cur == line_state(s@, i as nat).1,
        decreases s@.len() - i,
    {
        let ghost before = r@;
        if s[i] == 10 {
            r.push((cur, i));
            assert(r@ == before.push((cur, i)));
            cur = i + 1;
        }
        i = i + 1;
    }
    let ghost before = r@;
    r.push((cur, s.len()));
    assert(r@ == before.push((cur, s.len())));
    r
}

} // verus!
