//! Small text helpers: character access, lexicographic order on strings,
//! and decimal-digit parsing, shared by the address and order parsers.

use vstd::prelude::*;
use vstd::string::StrSliceExecFns;

verus! {

/// Strict lexicographic order on character sequences, by code point.
/// This is the order Rust gives to `str` values, since UTF-8 byte order
/// agrees with code-point order.
pub open spec fn lex_lt(a: Seq<char>, b: Seq<char>) -> bool
    decreases a.len(),
{
    if b.len() == 0 {
        false
    } else if a.len() == 0 {
        true
    } else if a[0] != b[0] {
        (a[0] as u32) < (b[0] as u32)
    } else {
        lex_lt(a.drop_first(), b.drop_first())
    }
}

/// Dropping one equal head character on both sides keeps the order.
proof fn lemma_lex_lt_step(a: Seq<char>, b: Seq<char>, i: int)
    requires
        0 <= i < a.len(),
        i < b.len(),
        a[i] == b[i],
    ensures
        lex_lt(a.skip(i), b.skip(i)) == lex_lt(a.skip(i + 1), b.skip(i + 1)),
{
    assert(a.skip(i).drop_first() =~= a.skip(i + 1));
    assert(b.skip(i).drop_first() =~= b.skip(i + 1));
    assert(a.skip(i)[0] == a[i]);
    assert(b.skip(i)[0] == b[i]);
}

/// Whether `a` comes strictly before `b` in lexicographic order.
pub fn str_lt(a: &str, b: &str) -> (r: bool)
    ensures
        r == lex_lt(a@, b@),
{
    let la = a.unicode_len();
    let lb = b.unicode_len();
    let mut i: usize = 0;
    proof {
        assert(a@.skip(0) =~= a@);
        assert(b@.skip(0) =~= b@);
    }
    while i < la && i < lb
        invariant
            i <= la,
            i <= lb,
            la == a@.len(),
            lb == b@.len(),
            lex_lt(a@, b@) == lex_lt(a@.skip(i as int), b@.skip(i as int)),
        decreases la - i,
    {
        let ca = a.get_char(i);
        let cb = b.get_char(i);
        if ca != cb {
            assert(a@.skip(i as int)[0] == a@[i as int]);
            assert(b@.skip(i as int)[0] == b@[i as int]);
            return (ca as u32) < (cb as u32);
        }
        proof {
            lemma_lex_lt_step(a@, b@, i as int);
        }
        i = i + 1;
    }
    proof {
        assert(a@.skip(i as int).len() == la - i);
        assert(b@.skip(i as int).len() == lb - i);
    }
    i < lb
}

/// First position of the character in the sequence, or the length if
/// it does not occur.
pub open spec fn index_of(s: Seq<char>, c: char) -> int
    decreases s.len(),
{
    if s.len() == 0 {
        0
    } else if s[0] == c {
        0
    } else {
        1 + index_of(s.drop_first(), c)
    }
}

/// Where the first occurrence sits: within bounds, on the character,
/// with none of it before.
pub proof fn lemma_index_of(s: Seq<char>, c: char)
    ensures
        0 <= index_of(s, c) <= s.len(),
        index_of(s, c) < s.len() ==> s[index_of(s, c)] == c,
        forall|k: int| 0 <= k < index_of(s, c) ==> s[k] != c,
    decreases s.len(),
{
    if s.len() > 0 && s[0] != c {
        lemma_index_of(s.drop_first(), c);
        assert forall|k: int| 0 <= k < index_of(s, c) implies s[k] != c by {
            if k > 0 {
                assert(s.drop_first()[k - 1] == s[k]);
            }
        }
    }
}

/// ASCII whitespace: what separates the tokens of a control line.
pub open spec fn is_space(c: char) -> bool {
    c == ' ' || c == '\t' || c == '\n' || c == '\r'
}

/// First whitespace position, or the length.
pub open spec fn index_space(s: Seq<char>) -> int
    decreases s.len(),
{
    if s.len() == 0 {
        0
    } else if is_space(s[0]) {
        0
    } else {
        1 + index_space(s.drop_first())
    }
}

/// First non-whitespace position, or the length.
pub open spec fn index_non_space(s: Seq<char>) -> int
    decreases s.len(),
{
    if s.len() == 0 {
        0
    } else if !is_space(s[0]) {
        0
    } else {
        1 + index_non_space(s.drop_first())
    }
}

pub proof fn lemma_index_space(s: Seq<char>)
    ensures
        0 <= index_space(s) <= s.len(),
        index_space(s) < s.len() ==> is_space(s[index_space(s)]),
        forall|k: int| 0 <= k < index_space(s) ==> !is_space(s[k]),
    decreases s.len(),
{
    if s.len() > 0 && !is_space(s[0]) {
        lemma_index_space(s.drop_first());
        assert forall|k: int| 0 <= k < index_space(s) implies !is_space(s[k]) by {
            if k > 0 {
                assert(s.drop_first()[k - 1] == s[k]);
            }
        }
    }
}

pub proof fn lemma_index_non_space(s: Seq<char>)
    ensures
        0 <= index_non_space(s) <= s.len(),
        index_non_space(s) < s.len() ==> !is_space(s[index_non_space(s)]),
        forall|k: int| 0 <= k < index_non_space(s) ==> is_space(s[k]),
    decreases s.len(),
{
    if s.len() > 0 && is_space(s[0]) {
        lemma_index_non_space(s.drop_first());
        assert forall|k: int| 0 <= k < index_non_space(s) implies is_space(s[k]) by {
            if k > 0 {
                assert(s.drop_first()[k - 1] == s[k]);
            }
        }
    }
}

/// First position of the character at or after `from`, or the length.
pub fn find_char(v: &Vec<char>, from: usize, c: char) -> (r: usize)
    requires
        from <= v@.len(),
    ensures
        r - from == index_of(v@.skip(from as int), c),
        from <= r <= v@.len(),
        r < v@.len() ==> v@[r as int] == c,
        forall|k: int| from <= k < r ==> v@[k] != c,
    {
    let ghost tail = v@.skip(from as int);
    proof {
        lemma_index_of(tail, c);
    }
    let mut i = from;
    while i < v.len()
        invariant
            from <= i <= v@.len(),
            tail == v@.skip(from as int),
            forall|k: int| from <= k < i ==> v@[k] != c,
        decreases v@.len() - i,
    {
        if v[i] == c {
            proof {
                assert(tail[i - from] == v@[i as int]);
                assert forall|k: int| 0 <= k < i - from implies tail[k] != c by {
                    assert(tail[k] == v@[k + from]);
                }
                lemma_index_of(tail, c);
                let m = index_of(tail, c);
                if m < i - from {
                    assert(tail[m] == c);
                    assert(tail[m] != c);
                } else if m > i - from {
                    assert(tail[i - from] != c);
                }
            }
            return i;
        }
        i = i + 1;
    }
    proof {
        lemma_index_of(tail, c);
        assert forall|k: int| 0 <= k < tail.len() implies tail[k] != c by {
            assert(tail[k] == v@[k + from]);
        }
    }
    i
}

/// First whitespace position at or after `from`, or the length.
pub fn find_space(v: &Vec<char>, from: usize) -> (r: usize)
    requires
        from <= v@.len(),
    ensures
        r - from == index_space(v@.skip(from as int)),
        from <= r <= v@.len(),
    {
    let ghost tail = v@.skip(from as int);
    proof {
        lemma_index_space(tail);
    }
    let mut i = from;
    while i < v.len()
        invariant
            from <= i <= v@.len(),
            tail == v@.skip(from as int),
            forall|k: int| from <= k < i ==> !is_space(v@[k]),
        decreases v@.len() - i,
    {
        let c = v[i];
        if c == ' ' || c == '\t' || c == '\n' || c == '\r' {
            proof {
                assert(tail[i - from] == v@[i as int]);
                assert forall|k: int| 0 <= k < i - from implies !is_space(tail[k]) by {
                    assert(tail[k] == v@[k + from]);
                }
                lemma_index_space(tail);
                let m = index_space(tail);
                if m < i - from {
                    assert(is_space(tail[m]));
                    assert(!is_space(tail[m]));
                } else if m > i - from {
                    assert(!is_space(tail[i - from]));
                }
            }
            return i;
        }
        i = i + 1;
    }
    proof {
        lemma_index_space(tail);
        assert forall|k: int| 0 <= k < tail.len() implies !is_space(tail[k]) by {
            assert(tail[k] == v@[k + from]);
        }
    }
    i
}

/// First non-whitespace position at or after `from`, or the length.
pub fn find_non_space(v: &Vec<char>, from: usize) -> (r: usize)
    requires
        from <= v@.len(),
    ensures
        r - from == index_non_space(v@.skip(from as int)),
        from <= r <= v@.len(),
        r < v@.len() ==> !is_space(v@[r as int]),
    {
    let ghost tail = v@.skip(from as int);
    proof {
        lemma_index_non_space(tail);
    }
    let mut i = from;
    while i < v.len()
        invariant
            from <= i <= v@.len(),
            tail == v@.skip(from as int),
            forall|k: int| from <= k < i ==> is_space(v@[k]),
        decreases v@.len() - i,
    {
        let c = v[i];
        if !(c == ' ' || c == '\t' || c == '\n' || c == '\r') {
            proof {
                assert(tail[i - from] == v@[i as int]);
                assert forall|k: int| 0 <= k < i - from implies is_space(tail[k]) by {
                    assert(tail[k] == v@[k + from]);
                }
                lemma_index_non_space(tail);
                let m = index_non_space(tail);
                if m < i - from {
                    assert(!is_space(tail[m]));
                    assert(is_space(tail[m]));
                } else if m > i - from {
                    assert(is_space(tail[i - from]));
                }
            }
            return i;
        }
        i = i + 1;
    }
    proof {
        lemma_index_non_space(tail);
        assert forall|k: int| 0 <= k < tail.len() implies is_space(tail[k]) by {
            assert(tail[k] == v@[k + from]);
        }
    }
    i
}

/// Whether the characters between the two positions spell the literal.
pub fn range_is(v: &Vec<char>, from: usize, to: usize, lit: &str) -> (r: bool)
    requires
        from <= to <= v@.len(),
    ensures
        r == (v@.subrange(from as int, to as int) == lit@),
{
    let n = lit.unicode_len();
    if to - from != n {
        proof {
            assert(v@.subrange(from as int, to as int).len() != lit@.len());
        }
        return false;
    }
    let mut j: usize = 0;
    while j < n
        invariant
            j <= n,
            to - from == n,
            from + n <= v@.len(),
            n == lit@.len(),
            forall|k: int| 0 <= k < j ==> v@.subrange(from as int, to as int)[k] == lit@[k],
        decreases n - j,
    {
        let c = v[from + j];
        let l = lit.get_char(j);
        if c != l {
            proof {
                assert(v@.subrange(from as int, to as int)[j as int] != lit@[j as int]);
            }
            return false;
        }
        proof {
            assert(v@.subrange(from as int, to as int)[j as int] == v@[from + j]);
        }
        j = j + 1;
    }
    proof {
        assert(v@.subrange(from as int, to as int) =~= lit@);
    }
    true
}

/// Whether the character is a decimal digit.
pub open spec fn is_digit_char(c: char) -> bool {
    48 <= (c as u32) <= 57
}

/// The value of one digit character.
pub open spec fn digit_val(c: char) -> nat {
    ((c as u32) - 48) as nat
}

/// A non-empty run of decimal digits.
pub open spec fn is_digits(s: Seq<char>) -> bool {
    s.len() > 0 && forall|k: int| 0 <= k < s.len() ==> is_digit_char(#[trigger] s[k])
}

/// The number a run of decimal digits spells.
pub open spec fn digits_val(s: Seq<char>) -> nat
    decreases s.len(),
{
    if s.len() == 0 {
        0
    } else {
        (digits_val(s.drop_last()) * 10 + digit_val(s.last())) as nat
    }
}

/// A prefix never spells more than the whole run.
proof fn lemma_digits_val_prefix(s: Seq<char>, i: int)
    requires
        0 <= i <= s.len(),
    ensures
        digits_val(s.take(i)) <= digits_val(s),
    decreases s.len() - i,
{
    if i < s.len() {
        assert(s.take(i + 1).drop_last() =~= s.take(i));
        lemma_digits_val_prefix(s, i + 1);
    } else {
        assert(s.take(i) =~= s);
    }
}

/// Parses the decimal digits between the two positions: a non-empty,
/// all-digit run whose value the machine can hold, and nothing else.
pub fn parse_digits(v: &Vec<char>, from: usize, to: usize) -> (r: Option<usize>)
    requires
        from <= to <= v@.len(),
    ensures
        r is Some <==> is_digits(v@.subrange(from as int, to as int))
            && digits_val(v@.subrange(from as int, to as int)) <= usize::MAX,
        r matches Some(n) ==> n == digits_val(v@.subrange(from as int, to as int)),
{
    let ghost tok = v@.subrange(from as int, to as int);
    if from == to {
        return None;
    }
    let mut acc: usize = 0;
    let mut i = from;
    while i < to
        invariant
            from <= i <= to <= v@.len(),
            tok == v@.subrange(from as int, to as int),
            forall|k: int| 0 <= k < i - from ==> is_digit_char(#[trigger] tok[k]),
            acc == digits_val(tok.take(i - from)),
        decreases to - i,
    {
        let c = v[i];
        let u = c as u32;
        proof {
            assert(tok[i - from] == v@[i as int]);
        }
        if u < 48 || u > 57 {
            return None;
        }
        let d = (u - 48) as usize;
        proof {
            assert(tok.take(i - from + 1).drop_last() =~= tok.take(i - from));
            assert(tok.take(i - from + 1).last() == tok[i - from]);
        }
        if acc > (usize::MAX - d) / 10 {
            proof {
                assert(acc * 10 + d > usize::MAX) by (nonlinear_arith)
                    requires acc > (usize::MAX - d) / 10, 0 <= d <= 9, acc >= 0;
                lemma_digits_val_prefix(tok, i - from + 1);
            }
            return None;
        }
        acc = acc * 10 + d;
        i = i + 1;
    }
    proof {
        assert(tok.take(to - from) =~= tok);
    }
    Some(acc)
}

/// The characters of a string, as a vector indexable by position.
pub fn chars_vec(s: &str) -> (r: Vec<char>)
    ensures
        r@ == s@,
{
    let len = s.unicode_len();
    let mut r: Vec<char> = Vec::new();
    let mut i: usize = 0;
    while i < len
        invariant
            i <= len,
            len == s@.len(),
            r@ =~= s@.take(i as int),
        decreases len - i,
    {
        r.push(s.get_char(i));
        proof {
            assert(r@ =~= s@.take(i + 1 as int));
        }
        i = i + 1;
    }
    proof {
        assert(s@.take(len as int) =~= s@);
    }
    r
}

} // verus!
