//! Character-level helpers shared by the two time parsers: splitting a
//! string on `:`, reading a decimal number, and trimming surrounding
//! whitespace.

use vstd::prelude::*;

verus! {

/// A decimal digit `'0'..='9'`.
pub open spec fn is_decimal_digit(c: char) -> bool {
    '0' as int <= c as int <= '9' as int
}

/// The numeric value of one decimal digit.
pub open spec fn digit_value(c: char) -> int {
    c as int - '0' as int
}

/// The value of a digit string read in base ten.
pub open spec fn digits_value(s: Seq<char>) -> int
    decreases s.len(),
{
    if s.len() == 0 {
        0
    } else {
        digits_value(s.drop_last()) * 10 + digit_value(s.last())
    }
}

/// A well-formed numeric field: non-empty and made of digits only.
pub open spec fn is_numeric_field(s: Seq<char>) -> bool {
    s.len() > 0 && forall|i: int| 0 <= i < s.len() ==> is_decimal_digit(s[i])
}

/// The fields of `s` split on `':'`, in order. Always at least one field;
/// an empty string yields one empty field, as `str::split` does.
pub open spec fn split_colon(s: Seq<char>) -> Seq<Seq<char>>
    decreases s.len(),
{
    if s.len() == 0 {
        seq![Seq::<char>::empty()]
    } else if s[0] == ':' {
        seq![Seq::<char>::empty()] + split_colon(s.skip(1))
    } else {
        let rest = split_colon(s.skip(1));
        seq![seq![s[0]] + rest[0]] + rest.skip(1)
    }
}

pub proof fn lemma_split_colon_nonempty(s: Seq<char>)
    ensures
        split_colon(s).len() >= 1,
    decreases s.len(),
{
    if s.len() == 0 {
    } else if s[0] == ':' {
        lemma_split_colon_nonempty(s.skip(1));
    } else {
        lemma_split_colon_nonempty(s.skip(1));
    }
}

/// The views of a sequence of character vectors.
pub open spec fn views_of(fields: Seq<Vec<char>>) -> Seq<Seq<char>> {
    fields.map_values(|f: Vec<char>| f@)
}

/// The fields of `s` once a prefix of the current field has already been
/// read: `pre` extends the first remaining field.
pub open spec fn attach(pre: Seq<char>, fs: Seq<Seq<char>>) -> Seq<Seq<char>>
    recommends
        fs.len() >= 1,
{
    seq![pre + fs[0]] + fs.skip(1)
}

/// Splits `s` on `':'` into its fields, exactly as [`split_colon`]
/// describes.
pub fn split_colon_fields(s: &str) -> (fields: Vec<Vec<char>>)
    ensures
        views_of(fields@) == split_colon(s@),
{
    let n: usize = s.unicode_len();
    let mut done: Vec<Vec<char>> = Vec::new();
    let mut cur: Vec<char> = Vec::new();
    let mut i: usize = 0;
    proof {
        lemma_split_colon_nonempty(s@);
        assert(s@.skip(0) =~= s@);
        assert(attach(cur@, split_colon(s@)) =~~= split_colon(s@));
        assert(views_of(done@) + split_colon(s@) =~~= split_colon(s@));
    }
    while i < n
        invariant
            n == s@.len(),
            i <= n,
            split_colon(s@) =~~= views_of(done@) + attach(cur@, split_colon(s@.skip(i as int))),
        decreases n - i,
    {
        let ghost pre_done = views_of(done@);
        let ghost pre_cur = cur@;
        let ghost tail = s@.skip(i + 1);
        let c = s.get_char(i);
        proof {
            lemma_split_colon_nonempty(tail);
            assert(s@.skip(i as int)[0] == s@[i as int]);
            assert(s@.skip(i as int).skip(1) =~= tail);
        }
        let ghost g = split_colon(tail);
        if c == ':' {
            let finished = cur;
            done.push(finished);
            cur = Vec::new();
            proof {
                // The fields read so far gain one finished field; the current
                // field starts over empty.
                assert(split_colon(s@.skip(i as int)) =~~= seq![Seq::<char>::empty()] + g);
                assert(attach(pre_cur, seq![Seq::<char>::empty()] + g) =~~= seq![pre_cur] + g);
                assert(attach(cur@, g) =~~= g);
                assert(views_of(done@) =~~= pre_done.push(pre_cur));
                assert(pre_done + (seq![pre_cur] + g) =~~= pre_done.push(pre_cur) + g);
            }
        } else {
            cur.push(c);
            proof {
                // The character joins the current field.
                assert(split_colon(s@.skip(i as int)) =~~= seq![seq![c] + g[0]] + g.skip(1));
                assert(attach(pre_cur, seq![seq![c] + g[0]] + g.skip(1)) =~~= attach(
                    pre_cur.push(c),
                    g,
                ));
            }
        }
        i = i + 1;
    }
    let ghost pre_done = views_of(done@);
    let ghost cur_snap = cur@;
    proof {
        assert(s@.skip(n as int) =~= Seq::<char>::empty());
        assert(attach(cur_snap, split_colon(Seq::<char>::empty())) =~~= seq![cur_snap]);
    }
    done.push(cur);
    proof {
        assert(views_of(done@) =~~= pre_done.push(cur_snap));
        assert(pre_done + seq![cur_snap] =~~= pre_done.push(cur_snap));
        assert(split_colon(s@) =~~= views_of(done@));
    }
    done
}

pub proof fn lemma_digits_value_nonneg(s: Seq<char>)
    requires
        forall|i: int| 0 <= i < s.len() ==> is_decimal_digit(s[i]),
    ensures
        digits_value(s) >= 0,
    decreases s.len(),
{
    if s.len() > 0 {
        lemma_digits_value_nonneg(s.drop_last());
    }
}

/// A longer digit string never has a smaller value than its prefix.
pub proof fn lemma_digits_value_prefix(s: Seq<char>, k: int)
    requires
        forall|i: int| 0 <= i < s.len() ==> is_decimal_digit(s[i]),
        0 <= k <= s.len(),
    ensures
        digits_value(s) >= digits_value(s.take(k)),
    decreases s.len(),
{
    if k < s.len() {
        let shorter = s.drop_last();
        assert(shorter.take(k) =~= s.take(k));
        lemma_digits_value_prefix(shorter, k);
        lemma_digits_value_nonneg(shorter);
    } else {
        assert(s.take(k) =~= s);
    }
}

/// Reads a base-ten number from `f`. `None` when `f` is empty, holds a
/// non-digit, or its value does not fit in `u64`.
pub fn parse_u64_digits(f: &Vec<char>) -> (r: Option<u64>)
    ensures
        match r {
            Some(v) => is_numeric_field(f@) && digits_value(f@) == v,
            None => !is_numeric_field(f@) || digits_value(f@) > u64::MAX,
        },
{
    if f.len() == 0 {
        return None;
    }
    let mut val: u64 = 0;
    let mut j: usize = 0;
    while j < f.len()
        invariant
            j <= f@.len(),
            f@.len() > 0,
            forall|i: int| 0 <= i < j ==> is_decimal_digit(f@[i]),
            digits_value(f@.take(j as int)) == val,
        decreases f@.len() - j,
    {
        let c = f[j];
        if c < '0' || c > '9' {
            assert(!is_decimal_digit(f@[j as int]));
            return None;
        }
        let d: u64 = (c as u32 - 48) as u64;
        proof {
            assert(c as u32 == c as int);
            assert(d == digit_value(c));
        }
        proof {
            assert(f@.take(j + 1).drop_last() =~= f@.take(j as int));
            assert(f@.take(j + 1).last() == f@[j as int]);
        }
        if val > (u64::MAX - d) / 10 {
            proof {
                // The value read so far already overflows, and appending
                // further digits can only grow it.
                assert(val * 10 + d > u64::MAX) by (nonlinear_arith)
                    requires
                        val > (u64::MAX - d) / 10,
                        0 <= d <= 9,
                ;
                assert(digits_value(f@.take(j + 1)) > u64::MAX);
                if forall|i: int| 0 <= i < f@.len() ==> is_decimal_digit(f@[i]) {
                    lemma_digits_value_prefix(f@, j + 1);
                }
            }
            return None;
        }
        proof {
            assert(val * 10 + d <= u64::MAX) by (nonlinear_arith)
                requires
                    val <= (u64::MAX - d) / 10,
                    0 <= d <= 9,
            ;
        }
        val = val * 10 + d;
        j = j + 1;
    }
    proof {
        assert(f@.take(f@.len() as int) =~= f@);
    }
    Some(val)
}

/// ASCII whitespace, the kind that can surround a field typed on a
/// command line.
pub open spec fn is_space(c: char) -> bool {
    c == ' ' || c == '\t' || c == '\n' || c == '\r'
}

pub open spec fn trim_front(s: Seq<char>) -> Seq<char>
    decreases s.len(),
{
    if s.len() > 0 && is_space(s[0]) {
        trim_front(s.skip(1))
    } else {
        s
    }
}

pub open spec fn trim_back(s: Seq<char>) -> Seq<char>
    decreases s.len(),
{
    if s.len() > 0 && is_space(s.last()) {
        trim_back(s.drop_last())
    } else {
        s
    }
}

/// `s` with leading and trailing whitespace removed.
pub open spec fn trim_spaces(s: Seq<char>) -> Seq<char> {
    trim_back(trim_front(s))
}

/// The characters of `s`, in order.
pub fn chars_of(s: &str) -> (v: Vec<char>)
    ensures
        v@ == s@,
{
    let n: usize = s.unicode_len();
    let mut v: Vec<char> = Vec::new();
    let mut i: usize = 0;
    while i < n
        invariant
            n == s@.len(),
            i <= n,
            v@ =~= s@.take(i as int),
        decreases n - i,
    {
        v.push(s.get_char(i));
        i = i + 1;
    }
    proof {
        assert(s@.take(n as int) =~= s@);
    }
    v
}

fn is_space_char(c: char) -> (r: bool)
    ensures
        r == is_space(c),
{
    c == ' ' || c == '\t' || c == '\n' || c == '\r'
}

/// Removes leading and trailing whitespace, exactly as [`trim_spaces`]
/// describes.
pub fn trim_field(f: &Vec<char>) -> (r: Vec<char>)
    ensures
        r@ == trim_spaces(f@),
{
    let n: usize = f.len();
    let mut lo: usize = 0;
    proof {
        assert(f@.skip(0) =~= f@);
    }
    while lo < n && is_space_char(f[lo])
        invariant
            n == f@.len(),
            lo <= n,
            trim_front(f@) == trim_front(f@.skip(lo as int)),
        decreases n - lo,
    {
        proof {
            assert(f@.skip(lo as int)[0] == f@[lo as int]);
            assert(f@.skip(lo as int).skip(1) =~= f@.skip(lo + 1));
        }
        lo = lo + 1;
    }
    proof {
        if lo == n {
            assert(f@.skip(lo as int) =~= Seq::<char>::empty());
        }
        assert(trim_front(f@) == f@.skip(lo as int));
        assert(f@.skip(lo as int) =~= f@.subrange(lo as int, n as int));
    }
    let mut hi: usize = n;
    while hi > lo && is_space_char(f[hi - 1])
        invariant
            n == f@.len(),
            lo <= hi <= n,
            trim_back(f@.subrange(lo as int, n as int)) == trim_back(
                f@.subrange(lo as int, hi as int),
            ),
        decreases hi,
    {
        proof {
            let sub = f@.subrange(lo as int, hi as int);
            assert(sub.last() == f@[hi - 1]);
            assert(sub.drop_last() =~= f@.subrange(lo as int, hi - 1));
        }
        hi = hi - 1;
    }
    proof {
        assert(trim_spaces(f@) == f@.subrange(lo as int, hi as int));
    }
    let mut r: Vec<char> = Vec::new();
    let mut j: usize = lo;
    while j < hi
        invariant
            lo <= j <= hi <= f@.len(),
            r@ =~= f@.subrange(lo as int, j as int),
        decreases hi - j,
    {
        r.push(f[j]);
        j = j + 1;
    }
    proof {
        assert(r@ =~= trim_spaces(f@));
    }
    r
}

} // verus!
