//! Text substitution and number formatting used to build batch scripts.

use vstd::prelude::*;

verus! {

/// Does `pat` occur in `s` starting at character position `i`?
pub open spec fn occurs_at(s: Seq<char>, pat: Seq<char>, i: int) -> bool {
    &&& 0 <= i
    &&& i + pat.len() <= s.len()
    &&& s.subrange(i, i + pat.len()) == pat
}

/// The characters of `s` from position `i` on, where each occurrence of a
/// non-empty `pat`, found scanning left to right and never overlapping the
/// previous one, is replaced by `rep`.
pub open spec fn replaced_from(s: Seq<char>, pat: Seq<char>, rep: Seq<char>, i: int) -> Seq<char>
    decreases s.len() - i,
{
    if i < 0 || i >= s.len() {
        Seq::empty()
    } else if pat.len() == 0 {
        s.subrange(i, s.len() as int)
    } else if occurs_at(s, pat, i) {
        rep + replaced_from(s, pat, rep, i + pat.len())
    } else {
        seq![s[i]] + replaced_from(s, pat, rep, i + 1)
    }
}

/// `s` with every occurrence of the non-empty `pat` replaced by `rep`, as
/// `str::replace` does it.
pub open spec fn replace_seq(s: Seq<char>, pat: Seq<char>, rep: Seq<char>) -> Seq<char> {
    replaced_from(s, pat, rep, 0)
}

/// Does `pat` occur in `s` at character position `i`?
fn matches_at(s: &str, pat: &str, i: usize, n: usize, m: usize) -> (res: bool)
    requires
        n == s@.len(),
        m == pat@.len(),
        i <= n,
    ensures
        res == occurs_at(s@, pat@, i as int),
{
    if m > n - i {
        return false;
    }
    let mut k: usize = 0;
    while k < m
        invariant
            n == s@.len(),
            m == pat@.len(),
            i + m <= n,
            k <= m,
            forall|j: int| 0 <= j < k ==> s@[i + j] == pat@[j],
        decreases m - k,
    {
        if s.get_char(i + k) != pat.get_char(k) {
            assert(s@.subrange(i as int, i + m)[k as int] != pat@[k as int]);
            return false;
        }
        k = k + 1;
    }
    assert(s@.subrange(i as int, i + m) =~= pat@);
    true
}

/// Replaces every occurrence of `pat` in `s` with `rep`, left to right.
pub fn replace_all(s: &str, pat: &str, rep: &str) -> (res: String)
    requires
        pat@.len() > 0,
    ensures
        res@ == replace_seq(s@, pat@, rep@),
{
    let n = s.unicode_len();
    let m = pat.unicode_len();
    let mut res = String::new();
    let mut i: usize = 0;
    while i < n
        invariant
            n == s@.len(),
            m == pat@.len(),
            m > 0,
            i <= n,
            res@ + replaced_from(s@, pat@, rep@, i as int) == replace_seq(s@, pat@, rep@),
        decreases n - i,
    {
        let ghost before = res@;
        if matches_at(s, pat, i, n, m) {
            res.append(rep);
            assert(before + replaced_from(s@, pat@, rep@, i as int) == res@ + replaced_from(s@, pat@, rep@, i + m));
            i = i + m;
        } else {
            let one = s.substring_char(i, i + 1);
            res.append(one);
            assert(one@ =~= seq![s@[i as int]]);
            assert(before + replaced_from(s@, pat@, rep@, i as int) =~= res@ + replaced_from(s@, pat@, rep@, i + 1));
            i = i + 1;
        }
    }
    assert(replaced_from(s@, pat@, rep@, i as int) =~= Seq::<char>::empty());
    assert(res@ =~= res@ + Seq::<char>::empty());
    res
}

/// The decimal digit character for `d < 10`.
pub open spec fn digit_char(d: nat) -> char {
    (48 + d) as char
}

/// The decimal representation of `n`, without sign or leading zeros, as
/// `usize`'s `Display` writes it.
pub open spec fn decimal(n: nat) -> Seq<char>
    decreases n,
{
    if n < 10 {
        seq![digit_char(n)]
    } else {
        decimal(n / 10).push(digit_char(n % 10))
    }
}

fn digit_str(d: usize) -> (res: &'static str)
    requires
        d < 10,
    ensures
        res@ == seq![digit_char(d as nat)],
{
    proof {
        reveal_strlit("0");
        reveal_strlit("1");
        reveal_strlit("2");
        reveal_strlit("3");
        reveal_strlit("4");
        reveal_strlit("5");
        reveal_strlit("6");
        reveal_strlit("7");
        reveal_strlit("8");
        reveal_strlit("9");
    }
    let r = match d {
        0 => "0",
        1 => "1",
        2 => "2",
        3 => "3",
        4 => "4",
        5 => "5",
        6 => "6",
        7 => "7",
        8 => "8",
        _ => "9",
    };
    assert(r@ =~= seq![digit_char(d as nat)]);
    r
}

/// Formats `n` in decimal.
pub fn usize_to_decimal(n: usize) -> (res: String)
    ensures
        res@ == decimal(n as nat),
    decreases n,
{
    if n < 10 {
        String::from_str(digit_str(n))
    } else {
        let head = usize_to_decimal(n / 10);
        let res = head.concat(digit_str(n % 10));
        assert(res@ =~= decimal(n as nat));
        res
    }
}

/// Where no occurrence of `pat` starts in `[i, j)`, replacing from `i` keeps
/// those characters and goes on from `j`.
pub proof fn lemma_replaced_skip(s: Seq<char>, pat: Seq<char>, rep: Seq<char>, i: int, j: int)
    requires
        0 <= i <= j <= s.len(),
        pat.len() > 0,
        forall|k: int| i <= k < j ==> !occurs_at(s, pat, k),
    ensures
        replaced_from(s, pat, rep, i) == s.subrange(i, j) + replaced_from(s, pat, rep, j),
    decreases j - i,
{
    if i < j {
        lemma_replaced_skip(s, pat, rep, i + 1, j);
        assert(s.subrange(i, j) =~= seq![s[i]] + s.subrange(i + 1, j));
    } else {
        assert(s.subrange(i, j) =~= Seq::<char>::empty());
    }
}

/// A pattern that starts with a character absent from `s[i..j)` occurs at
/// no position there.
pub proof fn lemma_no_occurrence_without_first_char(s: Seq<char>, pat: Seq<char>, i: int, j: int)
    requires
        pat.len() > 0,
        forall|k: int| i <= k < j && 0 <= k < s.len() ==> s[k] != pat[0],
    ensures
        forall|k: int| i <= k < j ==> !occurs_at(s, pat, k),
{
    assert forall|k: int| i <= k < j implies !occurs_at(s, pat, k) by {
        if occurs_at(s, pat, k) {
            assert(s.subrange(k, k + pat.len())[0] == s[k]);
        }
    }
}

/// Every character of a decimal representation is a digit.
pub proof fn lemma_decimal_digits(n: nat)
    ensures
        forall|k: int| 0 <= k < decimal(n).len() ==> 48 <= #[trigger] decimal(n)[k] as int <= 57,
    decreases n,
{
    if n >= 10 {
        lemma_decimal_digits(n / 10);
        let d = digit_char(n % 10);
        assert(d as int == 48 + n % 10);
        assert forall|k: int| 0 <= k < decimal(n).len() implies 48 <= #[trigger] decimal(n)[k] as int
            <= 57 by {
            if k < decimal(n / 10).len() {
                assert(decimal(n)[k] == decimal(n / 10)[k]);
            }
        }
    } else {
        assert(digit_char(n) as int == 48 + n);
    }
}

/// Replacing `pat` in `pat + rest`, where the first character of `pat` is
/// nowhere in `rest`, gives `rep + rest`.
pub proof fn lemma_replace_leading(pat: Seq<char>, rest: Seq<char>, rep: Seq<char>)
    requires
        pat.len() > 0,
        forall|k: int| 0 <= k < rest.len() ==> rest[k] != pat[0],
    ensures
        replace_seq(pat + rest, pat, rep) == rep + rest,
{
    let s = pat + rest;
    assert(s.subrange(0, pat.len() as int) =~= pat);
    assert(occurs_at(s, pat, 0));
    lemma_no_occurrence_without_first_char(s, pat, pat.len() as int, s.len() as int);
    lemma_replaced_skip(s, pat, rep, pat.len() as int, s.len() as int);
    assert(replaced_from(s, pat, rep, s.len() as int) =~= Seq::<char>::empty());
    assert(s.subrange(pat.len() as int, s.len() as int) =~= rest);
    assert(replace_seq(s, pat, rep) =~= rep + rest);
}

/// The number that the base-10 digit characters `s` denote.
pub open spec fn digits_value(s: Seq<char>) -> int
    decreases s.len(),
{
    if s.len() == 0 {
        0
    } else {
        digits_value(s.drop_last()) * 10 + (s.last() as int - 48)
    }
}

/// The decimal text of `n` denotes `n`: it is made of digits, reading them
/// back in base 10 gives `n`, and it has no leading zero, so it is the one
/// text that `usize`'s `Display` writes for `n`.
pub proof fn lemma_decimal_denotes(n: nat)
    ensures
        decimal(n).len() > 0,
        forall|k: int| 0 <= k < decimal(n).len() ==> 48 <= #[trigger] decimal(n)[k] as int <= 57,
        digits_value(decimal(n)) == n,
        n > 0 ==> decimal(n)[0] != '0',
        n == 0 ==> decimal(n) == seq!['0'],
    decreases n,
{
    lemma_decimal_digits(n);
    if n >= 10 {
        lemma_decimal_denotes(n / 10);
        let d = decimal(n);
        assert(d.drop_last() =~= decimal(n / 10));
        assert(digit_char(n % 10) as int == 48 + n % 10);
        assert(d[0] == decimal(n / 10)[0]);
        assert(d.last() == digit_char(n % 10));
        assert(digits_value(d) == digits_value(d.drop_last()) * 10 + (d.last() as int - 48));
        assert(digits_value(d.drop_last()) == n / 10);
        assert((n / 10) * 10 + n % 10 == n);
    } else {
        assert(digit_char(n) as int == 48 + n);
        assert(seq![digit_char(n)].drop_last() =~= Seq::<char>::empty());
        assert(digits_value(Seq::<char>::empty()) == 0);
        assert(digits_value(seq![digit_char(n)]) == digits_value(seq![digit_char(n)].drop_last()) * 10
            + (digit_char(n) as int - 48));
        if n == 0 {
            assert(digit_char(0) == '0');
        } else {
            assert(digit_char(n) != '0');
        }
    }
}

/// A character that `pat` does not hold survives replacing `pat`: where it
/// stands in `s` from position `i` on, it stands in the result.
pub proof fn lemma_replace_keeps_char(s: Seq<char>, pat: Seq<char>, rep: Seq<char>, i: int, k: int)
    requires
        0 <= i <= k < s.len(),
        pat.len() > 0,
        !pat.contains(s[k]),
    ensures
        replaced_from(s, pat, rep, i).contains(s[k]),
    decreases s.len() - i,
{
    if occurs_at(s, pat, i) {
        if k < i + pat.len() {
            assert(s.subrange(i, i + pat.len())[k - i] == s[k]);
            assert(pat[k - i] == s[k]);
        }
        lemma_replace_keeps_char(s, pat, rep, i + pat.len(), k);
        let r = replaced_from(s, pat, rep, i + pat.len());
        let j = choose|j: int| 0 <= j < r.len() && r[j] == s[k];
        assert((rep + r)[rep.len() + j] == s[k]);
    } else if k == i {
        assert(replaced_from(s, pat, rep, i)[0] == s[k]);
    } else {
        lemma_replace_keeps_char(s, pat, rep, i + 1, k);
        let r = replaced_from(s, pat, rep, i + 1);
        let j = choose|j: int| 0 <= j < r.len() && r[j] == s[k];
        assert((seq![s[i]] + r)[1 + j] == s[k]);
    }
}

/// Replacing from position `i` is replacing in what is left from `i` on.
proof fn lemma_replaced_from_shift(s: Seq<char>, pat: Seq<char>, rep: Seq<char>, i: int)
    requires
        0 <= i <= s.len(),
        pat.len() > 0,
    ensures
        replaced_from(s, pat, rep, i) == replaced_from(s.skip(i), pat, rep, 0),
    decreases s.len() - i,
{
    let t = s.skip(i);
    if i < s.len() {
        if occurs_at(s, pat, i) {
            assert(t.subrange(0, pat.len() as int) =~= s.subrange(i, i + pat.len()));
            assert(occurs_at(t, pat, 0));
            lemma_replaced_from_shift(s, pat, rep, i + pat.len());
            lemma_replaced_from_shift(t, pat, rep, pat.len() as int);
            assert(t.skip(pat.len() as int) =~= s.skip(i + pat.len()));
        } else {
            if occurs_at(t, pat, 0) {
                assert(t.subrange(0, pat.len() as int) =~= s.subrange(i, i + pat.len()));
            }
            lemma_replaced_from_shift(s, pat, rep, i + 1);
            lemma_replaced_from_shift(t, pat, rep, 1);
            assert(t.skip(1) =~= s.skip(i + 1));
        }
    }
}

/// Replacing a non-empty pattern, scanning left to right: where the text
/// starts with the pattern, the result starts with the replacement and goes
/// on with the rest of the text after the pattern; otherwise it starts with
/// the text's first character and goes on with the rest after it; empty
/// text stays empty; and a text where the pattern occurs nowhere is kept as
/// it is.
pub proof fn lemma_replace_steps(s: Seq<char>, pat: Seq<char>, rep: Seq<char>)
    requires
        pat.len() > 0,
    ensures
        s.len() == 0 ==> replace_seq(s, pat, rep) == s,
        pat.len() <= s.len() && s.subrange(0, pat.len() as int) == pat ==> replace_seq(s, pat, rep)
            == rep + replace_seq(s.skip(pat.len() as int), pat, rep),
        s.len() > 0 && !(pat.len() <= s.len() && s.subrange(0, pat.len() as int) == pat)
            ==> replace_seq(s, pat, rep) == seq![s[0]] + replace_seq(s.skip(1), pat, rep),
        (forall|k: int|
            0 <= k && k + pat.len() <= s.len() ==> #[trigger] s.subrange(k, k + pat.len()) != pat)
            ==> replace_seq(s, pat, rep) == s,
{
    if s.len() > 0 {
        if occurs_at(s, pat, 0) {
            lemma_replaced_from_shift(s, pat, rep, pat.len() as int);
        } else {
            lemma_replaced_from_shift(s, pat, rep, 1);
        }
    }
    if forall|k: int| 0 <= k && k + pat.len() <= s.len() ==> #[trigger] s.subrange(k, k + pat.len()) != pat {
        lemma_replaced_skip(s, pat, rep, 0, s.len() as int);
        assert(replaced_from(s, pat, rep, s.len() as int) =~= Seq::<char>::empty());
        assert(s.subrange(0, s.len() as int) =~= s);
    }
}

} // verus!
