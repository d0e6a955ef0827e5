//! Character and decimal-number machinery shared by the address parser and
//! the engine output parser.
use vstd::prelude::*;

verus! {

/// A decimal digit character.
pub open spec fn is_digit(c: char) -> bool {
    '0' <= c && c <= '9'
}

/// Numeric value of a digit character.
pub open spec fn digit_val(c: char) -> nat {
    (c as nat - '0' as nat) as nat
}

/// The digit character for a value below ten.
pub open spec fn digit_char(d: nat) -> char {
    ((48 + d) as u8) as char
}

/// Every character of `s` is a decimal digit.
pub open spec fn all_digits(s: Seq<char>) -> bool {
    forall|i: int| 0 <= i < s.len() ==> is_digit(#[trigger] s[i])
}

/// Value of a digit string, most significant digit first.
pub open spec fn dec_val(s: Seq<char>) -> nat
    decreases s.len(),
{
    if s.len() == 0 {
        0
    } else {
        dec_val(s.drop_last()) * 10 + digit_val(s.last())
    }
}

/// A canonical decimal numeral: non-empty, all digits, no leading zero.
pub open spec fn is_canon_dec(s: Seq<char>) -> bool {
    s.len() > 0 && all_digits(s) && (s[0] == '0' ==> s.len() == 1)
}

/// The canonical decimal numeral of `n`.
pub open spec fn dec_str(n: nat) -> Seq<char>
    decreases n,
{
    if n < 10 {
        seq![digit_char(n)]
    } else {
        dec_str(n / 10) + seq![digit_char(n % 10)]
    }
}

/// Ten to the `n`.
pub open spec fn pow10(n: nat) -> nat
    decreases n,
{
    if n == 0 {
        1
    } else {
        10 * pow10((n - 1) as nat)
    }
}

/// Index of the first occurrence of `c` in `s` at or after `i`.
pub open spec fn find_from(s: Seq<char>, c: char, i: int) -> Option<int>
    decreases s.len() - i,
{
    if i < 0 || i >= s.len() {
        None
    } else if s[i] == c {
        Some(i)
    } else {
        find_from(s, c, i + 1)
    }
}

/// Index of the first occurrence of `c` in `s`.
pub open spec fn find_char(s: Seq<char>, c: char) -> Option<int> {
    find_from(s, c, 0)
}

/// `find_from` returns the first occurrence at or after `i`, or reports that
/// there is none.
pub proof fn lemma_find_from(s: Seq<char>, c: char, i: int)
    requires
        0 <= i <= s.len(),
    ensures
        match find_from(s, c, i) {
            Some(k) => i <= k < s.len() && s[k] == c && (forall|j: int| i <= j < k ==> s[j] != c),
            None => forall|j: int| i <= j < s.len() ==> s[j] != c,
        },
    decreases s.len() - i,
{
    if i < s.len() && s[i] != c {
        lemma_find_from(s, c, i + 1);
    }
}

/// A position whose earlier positions all miss `c` is the first occurrence.
pub proof fn lemma_find_is(s: Seq<char>, c: char, k: int)
    requires
        0 <= k < s.len(),
        s[k] == c,
        forall|j: int| 0 <= j < k ==> s[j] != c,
    ensures
        find_char(s, c) == Some(k),
{
    lemma_find_from(s, c, 0);
    match find_char(s, c) {
        Some(m) => {
            if m < k {
                assert(s[m] != c);
            }
            if m > k {
                assert(s[k] != c);
            }
        },
        None => {
            assert(s[k] != c);
        },
    }
}

/// In a subrange, the first occurrence of `c` is the first occurrence in the
/// underlying sequence, shifted, provided it falls before the cut.
pub proof fn lemma_find_offset(s: Seq<char>, c: char, from: int, to: int)
    requires
        0 <= from <= to <= s.len(),
    ensures
        ({
            let sub = s.subrange(from, to);
            match find_from(s, c, from) {
                Some(k) => if k < to {
                    find_char(sub, c) == Some(k - from)
                } else {
                    find_char(sub, c) is None
                },
                None => find_char(sub, c) is None,
            }
        }),
{
    let sub = s.subrange(from, to);
    lemma_find_from(s, c, from);
    lemma_find_from(sub, c, 0);
    match find_from(s, c, from) {
        Some(k) => {
            if k < to {
                assert(sub[k - from] == c);
                assert(forall|j: int| 0 <= j < k - from ==> sub[j] != c) by {
                    assert(forall|j: int| 0 <= j < k - from ==> sub[j] == s[from + j]);
                }
                lemma_find_is(sub, c, k - from);
            } else {
                match find_char(sub, c) {
                    Some(m) => {
                        assert(s[from + m] == c);
                        assert(s[from + m] != c);
                    },
                    None => {},
                }
            }
        },
        None => {
            match find_char(sub, c) {
                Some(m) => {
                    assert(s[from + m] == c);
                    assert(s[from + m] != c);
                },
                None => {},
            }
        },
    }
}

/// A digit string is bounded by ten to its length.
pub proof fn lemma_dec_val_bound(s: Seq<char>)
    requires
        all_digits(s),
    ensures
        dec_val(s) < pow10(s.len()),
    decreases s.len(),
{
    if s.len() > 0 {
        assert(is_digit(s[s.len() - 1]));
        assert(forall|i: int| 0 <= i < s.drop_last().len() ==> is_digit(#[trigger] s.drop_last()[i]));
        lemma_dec_val_bound(s.drop_last());
    }
}

/// The canonical numeral of `n` is made of digits, has no leading zero, and
/// evaluates back to `n`; its length is at most `k` whenever `n < pow10(k)`.
pub proof fn lemma_dec_str(n: nat)
    ensures
        all_digits(dec_str(n)),
        is_canon_dec(dec_str(n)),
        dec_val(dec_str(n)) == n,
        dec_str(n).len() >= 1,
        n >= 1 ==> dec_str(n)[0] != '0',
        forall|k: nat| k >= 1 && n < pow10(k) ==> dec_str(n).len() <= k,
    decreases n,
{
    if n < 10 {
        assert(dec_str(n) =~= seq![digit_char(n)]);
        assert(is_digit(digit_char(n)));
        assert(dec_str(n).drop_last() =~= Seq::<char>::empty());
        assert(dec_val(Seq::<char>::empty()) == 0);
        assert(dec_str(n).last() == digit_char(n));
        assert(dec_val(dec_str(n)) == digit_val(digit_char(n)));
        assert(digit_val(digit_char(n)) == n);
        assert(n >= 1 ==> digit_char(n) != '0');
    } else {
        lemma_dec_str(n / 10);
        let pre = dec_str(n / 10);
        let s = dec_str(n);
        assert(s =~= pre + seq![digit_char(n % 10)]);
        assert(s.drop_last() =~= pre);
        assert(s.last() == digit_char(n % 10));
        assert(is_digit(digit_char(n % 10)));
        assert(all_digits(s)) by {
            assert(forall|i: int| 0 <= i < s.len() - 1 ==> s[i] == pre[i]);
        }
        assert(digit_val(digit_char(n % 10)) == n % 10);
        assert(dec_val(s) == dec_val(pre) * 10 + n % 10);
        assert((n / 10) * 10 + n % 10 == n) by (nonlinear_arith);
        assert(s[0] == pre[0]);
        assert(n / 10 >= 1);
        assert(s[0] != '0');
        assert(forall|k: nat| k >= 1 && n < pow10(k) ==> dec_str(n).len() <= k) by {
            assert forall|k: nat| k >= 1 && n < pow10(k) implies dec_str(n).len() <= k by {
                lemma_pow10_step(n, k);
            }
        }
    }
}

/// Helper: if `n >= 10` and `n < pow10(k)` then `n / 10 < pow10(k - 1)`.
proof fn lemma_pow10_step(n: nat, k: nat)
    requires
        n >= 10,
        k >= 1,
        n < pow10(k),
    ensures
        n / 10 < pow10((k - 1) as nat),
        dec_str(n).len() <= k,
    decreases n,
{
    assert(pow10(k) == 10 * pow10((k - 1) as nat));
    assert(n / 10 < pow10((k - 1) as nat)) by (nonlinear_arith)
        requires
            n < 10 * pow10((k - 1) as nat),
    ;
    if n / 10 >= 10 {
        lemma_pow10_step(n / 10, (k - 1) as nat);
    } else {
        assert(pow10((k - 1) as nat) >= 1) by {
            lemma_pow10_pos((k - 1) as nat);
        }
        assert(dec_str(n / 10).len() == 1);
        assert(k - 1 >= 1) by {
            if k == 1 {
                assert(pow10(0nat) == 1);
            }
        }
    }
    assert(dec_str(n) =~= dec_str(n / 10) + seq![digit_char(n % 10)]);
}

/// A digit string of at most 19 digits fits in a `u64`.
pub proof fn lemma_dec_val_u64(s: Seq<char>)
    requires
        all_digits(s),
        s.len() <= 19,
    ensures
        dec_val(s) < 18446744073709551616,
{
    lemma_dec_val_bound(s);
    lemma_pow10_mono(s.len(), 19);
    assert(pow10(19) == 10000000000000000000) by {
        reveal_with_fuel(pow10, 20);
    }
}

/// Ten to anything is positive.
pub proof fn lemma_pow10_pos(n: nat)
    ensures
        pow10(n) >= 1,
    decreases n,
{
    if n > 0 {
        lemma_pow10_pos((n - 1) as nat);
    }
}

/// `pow10` is monotone.
pub proof fn lemma_pow10_mono(a: nat, b: nat)
    requires
        a <= b,
    ensures
        pow10(a) <= pow10(b),
    decreases b,
{
    if a < b {
        lemma_pow10_mono(a, (b - 1) as nat);
        lemma_pow10_pos((b - 1) as nat);
    }
}

/// Find the first occurrence of `c` in `s` at or after position `from`.
pub fn find_in_str(s: &str, from: usize, c: char) -> (r: Option<usize>)
    requires
        from <= s@.len(),
    ensures
        match r {
            Some(i) => from <= i < s@.len() && find_from(s@, c, from as int) == Some(i as int),
            None => find_from(s@, c, from as int) is None,
        },
{
    let n = s.unicode_len();
    let mut i: usize = from;
    while i < n
        invariant
            from <= i <= n == s@.len(),
            find_from(s@, c, from as int) == find_from(s@, c, i as int),
        decreases n - i,
    {
        if s.get_char(i) == c {
            return Some(i);
        }
        i += 1;
    }
    None
}

/// Parse `s[from..to]` as a canonical decimal numeral of at most 19 digits.
pub fn parse_dec(s: &str, from: usize, to: usize) -> (r: Option<u64>)
    requires
        from <= to <= s@.len(),
    ensures
        ({
            let sub = s@.subrange(from as int, to as int);
            match r {
                Some(v) => is_canon_dec(sub) && sub.len() <= 19 && v == dec_val(sub),
                None => !(is_canon_dec(sub) && sub.len() <= 19),
            }
        }),
{
    let ghost sub = s@.subrange(from as int, to as int);
    if to - from == 0 || to - from > 19 {
        return None;
    }
    let c0 = s.get_char(from);
    if c0 == '0' && to - from > 1 {
        proof {
            assert(sub[0] == s@[from as int]);
        }
        return None;
    }
    let mut val: u64 = 0;
    let mut i: usize = from;
    while i < to
        invariant
            from <= i <= to <= s@.len(),
            to - from <= 19,
            sub == s@.subrange(from as int, to as int),
            all_digits(s@.subrange(from as int, i as int)),
            val == dec_val(s@.subrange(from as int, i as int)),
            val < pow10((i - from) as nat),
        decreases to - i,
    {
        let c = s.get_char(i);
        if !('0' <= c && c <= '9') {
            proof {
                assert(sub[i - from] == s@[i as int]);
                assert(!is_digit(sub[i - from]));
                assert(!all_digits(sub));
            }
            return None;
        }
        let d = (c as u32) - ('0' as u32);
        proof {
            lemma_pow10_mono((i - from) as nat, 18);
            assert(pow10(18) == 1000000000000000000) by {
                reveal_with_fuel(pow10, 20);
            }
            let pre = s@.subrange(from as int, i as int);
            let pre2 = s@.subrange(from as int, i + 1);
            assert(pre2.drop_last() =~= pre);
            assert(pre2.last() == s@[i as int]);
            assert(digit_val(s@[i as int]) == d);
            assert(forall|j: int| 0 <= j < pre2.len() ==> is_digit(#[trigger] pre2[j]));
        }
        val = val * 10 + (d as u64);
        i += 1;
    }
    proof {
        assert(sub =~= s@.subrange(from as int, i as int));
        assert(sub[0] == s@[from as int]);
        assert(is_canon_dec(sub));
    }
    Some(val)
}

/// The digit string for a value below ten.
fn digit_str(d: u64) -> (r: &'static str)
    requires
        d < 10,
    ensures
        r@ == seq![digit_char(d as nat)],
{
    proof {
        reveal_strlit("0");
        reveal_strlit("1");
        reveal_strlit("2");
        reveal_strlit("3");
        reveal_strlit("4");
        reveal_strlit("5");
        reveal_strlit("6");
        reveal_strlit("7");
        reveal_strlit("8");
        reveal_strlit("9");
    }
    let r = if d == 0 {
        "0"
    } else if d == 1 {
        "1"
    } else if d == 2 {
        "2"
    } else if d == 3 {
        "3"
    } else if d == 4 {
        "4"
    } else if d == 5 {
        "5"
    } else if d == 6 {
        "6"
    } else if d == 7 {
        "7"
    } else {
        "8"
    };
    let r = if d == 9 {
        "9"
    } else {
        r
    };
    proof {
        assert(r@ =~= seq![digit_char(d as nat)]);
    }
    r
}

/// Render `n` as its canonical decimal numeral.
pub fn u64_to_string(n: u64) -> (r: String)
    ensures
        r@ == dec_str(n as nat),
    decreases n,
{
    let mut s = if n >= 10 {
        u64_to_string(n / 10)
    } else {
        String::new()
    };
    let ds = digit_str(n % 10);
    s.append(ds);
    proof {
        if n < 10 {
            assert(s@ =~= seq![digit_char(n as nat)]);
            assert(s@ =~= dec_str(n as nat));
        } else {
            assert(s@ =~= dec_str((n / 10) as nat) + seq![digit_char((n % 10) as nat)]);
            assert(s@ =~= dec_str(n as nat));
        }
    }
    s
}

} // verus!
