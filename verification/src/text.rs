//! Verified text helpers: decimal formatting of entity ids and mesh
//! indices, character-wise string equality, and parsing of unsigned
//! decimal numbers as the mesh-type selector syntax uses them.

use vstd::prelude::*;
use vstd::string::StrSliceExecFns;
use vstd::string::StringExecFns;

verus! {

pub open spec fn digit_char(d: int) -> char {
    if d == 0 {
        '0'
    } else if d == 1 {
        '1'
    } else if d == 2 {
        '2'
    } else if d == 3 {
        '3'
    } else if d == 4 {
        '4'
    } else if d == 5 {
        '5'
    } else if d == 6 {
        '6'
    } else if d == 7 {
        '7'
    } else if d == 8 {
        '8'
    } else {
        '9'
    }
}

/// The decimal digits of `n`, most significant first.
pub open spec fn dec_digits(n: nat) -> Seq<char>
    decreases n,
{
    if n < 10 {
        seq![digit_char(n as int)]
    } else {
        dec_digits(n / 10).push(digit_char((n % 10) as int))
    }
}

fn digit_str(d: u64) -> (r: &'static str)
    requires
        d < 10,
    ensures
        r@ == seq![digit_char(d as int)],
{
    proof {
        reveal_strlit("0");
        reveal_strlit("1");
        reveal_strlit("2");
        reveal_strlit("3");
        reveal_strlit("4");
        reveal_strlit("5");
        reveal_strlit("6");
        reveal_strlit("7");
        reveal_strlit("8");
        reveal_strlit("9");
    }
    let r = match d {
        0 => "0",
        1 => "1",
        2 => "2",
        3 => "3",
        4 => "4",
        5 => "5",
        6 => "6",
        7 => "7",
        8 => "8",
        _ => "9",
    };
    proof {
        assert(r@ =~= seq![digit_char(d as int)]);
    }
    r
}

/// Formats `n` in decimal.
pub fn fmt_u64(n: u64) -> (s: String)
    ensures
        s@ == dec_digits(n as nat),
    decreases n,
{
    if n < 10 {
        digit_str(n).to_owned()
    } else {
        let mut s = fmt_u64(n / 10);
        s.append(digit_str(n % 10));
        proof {
            assert(s@ =~= dec_digits(n as nat));
        }
        s
    }
}

/// Character-wise string equality.
pub fn str_eq(a: &str, b: &str) -> (r: bool)
    ensures
        r == (a@ == b@),
{
    let la = a.unicode_len();
    let lb = b.unicode_len();
    if la != lb {
        return false;
    }
    let mut i: usize = 0;
    while i < la
        invariant
            i <= la,
            la == a@.len(),
            la == b@.len(),
            forall|q: int| 0 <= q < i ==> a@[q] == b@[q],
        decreases la - i,
    {
        if a.get_char(i) != b.get_char(i) {
            return false;
        }
        i = i + 1;
    }
    proof {
        assert(a@ =~= b@);
    }
    true
}

pub open spec fn is_digit(c: char) -> bool {
    48 <= c as int && c as int <= 57
}

pub open spec fn digit_val(c: char) -> int {
    c as int - 48
}

/// The value of a digit string, most significant first.
pub open spec fn digits_value(s: Seq<char>) -> int
    decreases s.len(),
{
    if s.len() == 0 {
        0
    } else {
        digits_value(s.drop_last()) * 10 + digit_val(s.last())
    }
}

pub open spec fn all_digits(s: Seq<char>) -> bool {
    s.len() > 0 && forall|i: int| 0 <= i < s.len() ==> is_digit(#[trigger] s[i])
}

/// The number a string parses to: an optional leading plus sign, then
/// digits whose value fits the machine word; anything else counts as zero.
pub open spec fn parse_usize_spec(s: Seq<char>) -> usize {
    let t = if s.len() >= 1 && s[0] == '+' {
        s.skip(1)
    } else {
        s
    };
    if all_digits(t) && digits_value(t) <= usize::MAX {
        digits_value(t) as usize
    } else {
        0
    }
}

proof fn lemma_digits_nonneg(s: Seq<char>)
    requires
        forall|i: int| 0 <= i < s.len() ==> is_digit(#[trigger] s[i]),
    ensures
        digits_value(s) >= 0,
    decreases s.len(),
{
    if s.len() > 0 {
        lemma_digits_nonneg(s.drop_last());
        assert(digits_value(s.drop_last()) * 10 >= 0) by (nonlinear_arith)
            requires digits_value(s.drop_last()) >= 0;
    }
}

proof fn lemma_digits_prefix_le(s: Seq<char>, j: int)
    requires
        0 <= j <= s.len(),
        forall|i: int| 0 <= i < s.len() ==> is_digit(#[trigger] s[i]),
    ensures
        digits_value(s.take(j)) <= digits_value(s),
    decreases s.len() - j,
{
    if j < s.len() {
        lemma_digits_prefix_le(s, j + 1);
        let p = s.take(j);
        let q = s.take(j + 1);
        assert(q.drop_last() =~= p);
        assert(forall|i: int| 0 <= i < q.len() ==> is_digit(#[trigger] q[i]));
        lemma_digits_nonneg(p);
        assert(digits_value(q) == digits_value(p) * 10 + digit_val(q.last()));
        assert(digits_value(p) * 10 >= digits_value(p)) by (nonlinear_arith)
            requires digits_value(p) >= 0;
    } else {
        assert(s.take(j) =~= s);
    }
}

/// Parses an unsigned decimal number; a malformed or overflowing string
/// parses to zero.
pub fn parse_usize(s: &str) -> (n: usize)
    ensures
        n == parse_usize_spec(s@),
{
    let len = s.unicode_len();
    let mut start: usize = 0;
    if len >= 1 && s.get_char(0) == '+' {
        start = 1;
    }
    let ghost t = if s@.len() >= 1 && s@[0] == '+' { s@.skip(1) } else { s@ };
    if start >= len {
        proof {
            assert(!all_digits(t));
        }
        return 0;
    }
    let mut acc: usize = 0;
    let mut i: usize = start;
    while i < len
        invariant
            start <= i <= len,
            start == 0 || start == 1,
            len == s@.len(),
            start == 1 ==> s@.len() >= 1 && s@[0] == '+',
            start == 0 ==> !(s@.len() >= 1 && s@[0] == '+'),
            t == (if s@.len() >= 1 && s@[0] == '+' { s@.skip(1) } else { s@ }),
            start < len,
            forall|q: int| 0 <= q < i - start ==> is_digit(#[trigger] t[q]),
            acc == digits_value(t.take(i - start)),
        decreases len - i,
    {
        let c = s.get_char(i);
        let cv = c as u32;
        proof {
            if start == 1 {
                assert(t == s@.skip(1));
                assert(s@.skip(1)[i - 1] == s@[i as int]);
                assert(t[i - start] == s@.skip(1)[i - 1]);
            } else {
                assert(t == s@);
                assert(t[i - start] == s@[i as int]);
            }
            assert(t[i - start] == c);
        }
        if cv < 48 || cv > 57 {
            proof {
                assert(t[i - start] == c);
                assert(!all_digits(t));
            }
            return 0;
        }
        let d = (cv - 48) as usize;
        proof {
            assert(t.take(i + 1 - start).drop_last() =~= t.take(i - start));
            assert(t.take(i + 1 - start).last() == t[i - start]);
            lemma_digits_nonneg(t.take(i - start));
        }
        if acc > (usize::MAX - d) / 10 {
            proof {
                assert((acc as int) * 10 + d > usize::MAX) by (nonlinear_arith)
                    requires
                        acc as int > ((usize::MAX - d) as int) / 10,
                        0 <= d <= 9,
                        acc as int >= 0,
                        usize::MAX >= 9,
                ;
                assert(digits_value(t.take(i + 1 - start)) > usize::MAX);
                if all_digits(t) {
                    lemma_digits_prefix_le(t, i + 1 - start);
                }
            }
            return 0;
        }
        acc = acc * 10 + d;
        i = i + 1;
    }
    proof {
        assert(t.take(len - start) =~= t);
        assert(all_digits(t));
        assert(digits_value(t) <= usize::MAX);
    }
    acc
}

} // verus!
