//! Character-level text helpers: decimal rendering of integers, collecting
//! the characters of a string, and the lexicographic order on strings.
use vstd::prelude::*;

verus! {

/// `String::push` appends one character to the end of the string.
pub assume_specification[ String::push ](s: &mut String, ch: char)
    ensures
        final(s)@ == old(s)@.push(ch),
;

/// The character that shows a decimal digit.
pub open spec fn digit_char(d: nat) -> char {
    if d == 0 { '0' }
    else if d == 1 { '1' }
    else if d == 2 { '2' }
    else if d == 3 { '3' }
    else if d == 4 { '4' }
    else if d == 5 { '5' }
    else if d == 6 { '6' }
    else if d == 7 { '7' }
    else if d == 8 { '8' }
    else { '9' }
}

/// The decimal digits of `n`, most significant first, without leading zeros.
pub open spec fn decimal(n: nat) -> Seq<char>
    decreases n,
{
    if n < 10 {
        seq![digit_char(n)]
    } else {
        decimal(n / 10).push(digit_char(n % 10))
    }
}

/// How `{}` shows a signed integer: a minus sign before the digits of its
/// magnitude when it is negative.
pub open spec fn signed_decimal(i: int) -> Seq<char> {
    if i < 0 {
        seq!['-'] + decimal((-i) as nat)
    } else {
        decimal(i as nat)
    }
}

/// How `{}` shows a `bool`.
pub open spec fn bool_text(b: bool) -> Seq<char> {
    if b { seq!['t', 'r', 'u', 'e'] } else { seq!['f', 'a', 'l', 's', 'e'] }
}

fn digit(d: u64) -> (c: char)
    requires
        d < 10,
    ensures
        c == digit_char(d as nat),
{
    match d {
        0 => '0',
        1 => '1',
        2 => '2',
        3 => '3',
        4 => '4',
        5 => '5',
        6 => '6',
        7 => '7',
        8 => '8',
        _ => '9',
    }
}

/// Appends the decimal digits of `n` to `s`.
pub fn push_decimal(s: &mut String, n: u64)
    ensures
        final(s)@ == old(s)@ + decimal(n as nat),
    decreases n,
{
    if n >= 10 {
        push_decimal(s, n / 10);
    }
    s.push(digit(n % 10));
}

/// Appends how `{}` shows the signed integer `i` to `s`.
pub fn push_signed_decimal(s: &mut String, i: i64)
    ensures
        final(s)@ == old(s)@ + signed_decimal(i as int),
{
    if i < 0 {
        s.push('-');
        let magnitude: u64 = if i == i64::MIN {
            9223372036854775808u64
        } else {
            (-i) as u64
        };
        push_decimal(s, magnitude);
    } else {
        push_decimal(s, i as u64);
    }
}

/// Appends `true` or `false` to `s`.
pub fn push_bool(s: &mut String, b: bool)
    ensures
        final(s)@ == old(s)@ + bool_text(b),
{
    if b {
        s.push('t');
        s.push('r');
        s.push('u');
        s.push('e');
    } else {
        s.push('f');
        s.push('a');
        s.push('l');
        s.push('s');
        s.push('e');
    }
}

/// The characters of `s`, in order.
pub fn chars_of(s: &str) -> (v: Vec<char>)
    ensures
        v@ == s@,
{
    let mut v: Vec<char> = Vec::new();
    for c in it: s.chars()
        invariant
            v@ == it.seq().take(it.index() as int),
    {
        v.push(c);
    }
    v
}


/// Lexicographic order on character sequences, the order in which Rust
/// compares two `String`s (comparing UTF-8 bytes orders code points the same
/// way): the first differing character decides, and a proper prefix comes
/// first.
pub open spec fn chars_lt(a: Seq<char>, b: Seq<char>) -> bool
    decreases a.len(),
{
    if b.len() == 0 {
        false
    } else if a.len() == 0 {
        true
    } else if a[0] != b[0] {
        (a[0] as int) < (b[0] as int)
    } else {
        chars_lt(a.drop_first(), b.drop_first())
    }
}

/// No sequence comes before itself.
pub proof fn lemma_chars_lt_irreflexive(a: Seq<char>)
    ensures
        !chars_lt(a, a),
    decreases a.len(),
{
    if a.len() > 0 {
        lemma_chars_lt_irreflexive(a.drop_first());
    }
}

/// The order is transitive.
pub proof fn lemma_chars_lt_transitive(a: Seq<char>, b: Seq<char>, c: Seq<char>)
    requires
        chars_lt(a, b),
        chars_lt(b, c),
    ensures
        chars_lt(a, c),
    decreases a.len(),
{
    if a.len() > 0 && b.len() > 0 && c.len() > 0 && a[0] == b[0] && b[0] == c[0] {
        lemma_chars_lt_transitive(a.drop_first(), b.drop_first(), c.drop_first());
    }
}

/// Two different sequences are ordered one way or the other, never both.
pub proof fn lemma_chars_lt_total(a: Seq<char>, b: Seq<char>)
    ensures
        a != b ==> (chars_lt(a, b) || chars_lt(b, a)),
        !(chars_lt(a, b) && chars_lt(b, a)),
    decreases a.len(),
{
    if a.len() > 0 && b.len() > 0 {
        if a[0] == b[0] {
            lemma_chars_lt_total(a.drop_first(), b.drop_first());
            if a.drop_first() == b.drop_first() {
                assert(a =~= seq![a[0]] + a.drop_first());
                assert(b =~= seq![b[0]] + b.drop_first());
            }
        } else {
            assert((a[0] as int) != (b[0] as int));
        }
    } else if a.len() == 0 && b.len() == 0 {
        assert(a =~= b);
    }
}

proof fn lemma_chars_lt_step(a: Seq<char>, b: Seq<char>, i: int)
    requires
        0 <= i < a.len(),
        i < b.len(),
        a[i] == b[i],
    ensures
        chars_lt(a.skip(i), b.skip(i)) == chars_lt(a.skip(i + 1), b.skip(i + 1)),
{
    assert(a.skip(i).drop_first() =~= a.skip(i + 1));
    assert(b.skip(i).drop_first() =~= b.skip(i + 1));
}

/// The facts about the order of two sequences that a comparison needs:
/// exactly one of `a < b`, `b < a` and `a == b` holds.
pub proof fn lemma_chars_lt_trichotomy(a: Seq<char>, b: Seq<char>)
    ensures
        a != b ==> (chars_lt(a, b) || chars_lt(b, a)),
        !(chars_lt(a, b) && chars_lt(b, a)),
        a == b ==> !chars_lt(a, b),
{
    lemma_chars_lt_total(a, b);
    lemma_chars_lt_irreflexive(a);
}

/// Lexicographic order, stated without recursion: `a` comes before `b`
/// exactly when `a` is a proper prefix of `b`, or at the first position
/// where they differ the character of `a` has the smaller code point. This
/// is how `Ord` for `String` compares whole strings.
pub proof fn law_chars_lt_first_difference(a: Seq<char>, b: Seq<char>)
    ensures
        chars_lt(a, b) <==> ((a.len() < b.len() && a == b.take(a.len() as int)) || exists|k: int|
            0 <= k < a.len() && k < b.len() && #[trigger] a.take(k) == b.take(k) && (a[k] as int) < (
            b[k] as int)),
    decreases a.len(),
{
    if a.len() == 0 {
        if b.len() > 0 {
            assert(a =~= b.take(0));
        }
    } else if b.len() == 0 {
    } else if a[0] != b[0] {
        if a.len() < b.len() && a == b.take(a.len() as int) {
            assert(b.take(a.len() as int)[0] == b[0]);
        }
        assert forall|k: int| 0 < k < a.len() && k < b.len() implies #[trigger] a.take(k) != b.take(k) by {
            assert(a.take(k)[0] == a[0] && b.take(k)[0] == b[0]);
        }
        if (a[0] as int) < (b[0] as int) {
            assert(a.take(0) =~= b.take(0));
        }
    } else {
        let a2 = a.drop_first();
        let b2 = b.drop_first();
        law_chars_lt_first_difference(a2, b2);
        // the prefix case
        if a.len() < b.len() {
            if a == b.take(a.len() as int) {
                assert(a2 =~= b2.take(a2.len() as int));
            }
            if a2 == b2.take(a2.len() as int) {
                assert forall|i: int| 0 <= i < a.len() implies a[i] == b.take(a.len() as int)[i] by {
                    if i > 0 {
                        assert(a[i] == a2[i - 1]);
                        assert(b2.take(a2.len() as int)[i - 1] == b[i]);
                    }
                }
                assert(a =~= b.take(a.len() as int));
            }
        } else {
            assert(!(a2.len() < b2.len()));
        }
        // the first-difference case, both ways
        if exists|k: int| 0 <= k < a.len() && k < b.len() && #[trigger] a.take(k) == b.take(k) && (a[k] as int)
            < (b[k] as int) {
            let k = choose|k: int| 0 <= k < a.len() && k < b.len() && #[trigger] a.take(k) == b.take(k) && (
            a[k] as int) < (b[k] as int);
            assert(k > 0);
            assert(a2.take(k - 1) =~= a.take(k).drop_first());
            assert(b2.take(k - 1) =~= b.take(k).drop_first());
            assert(a2[k - 1] == a[k] && b2[k - 1] == b[k]);
        }
        if exists|k: int| 0 <= k < a2.len() && k < b2.len() && #[trigger] a2.take(k) == b2.take(k) && (a2[k]
            as int) < (b2[k] as int) {
            let k = choose|k: int| 0 <= k < a2.len() && k < b2.len() && #[trigger] a2.take(k) == b2.take(k) && (
            a2[k] as int) < (b2[k] as int);
            assert(a.take(k + 1) =~= seq![a[0]] + a2.take(k));
            assert(b.take(k + 1) =~= seq![b[0]] + b2.take(k));
            assert(a[k + 1] == a2[k] && b[k + 1] == b2[k]);
        }
        if a.len() < b.len() && a == b.take(a.len() as int) {
            assert(a2 =~= b2.take(a2.len() as int));
        }
    }
}

/// Whether `a` comes strictly before `b` in lexicographic order.
pub fn chars_less(a: &Vec<char>, b: &Vec<char>) -> (r: bool)
    ensures
        r == chars_lt(a@, b@),
{
    let mut i: usize = 0;
    assert(a@.skip(0) =~= a@);
    assert(b@.skip(0) =~= b@);
    while i < a.len() && i < b.len() && a[i] == b[i]
        invariant
            i <= a.len(),
            i <= b.len(),
            chars_lt(a@, b@) == chars_lt(a@.skip(i as int), b@.skip(i as int)),
        decreases a.len() - i,
    {
        proof {
            lemma_chars_lt_step(a@, b@, i as int);
        }
        i = i + 1;
    }
    if i == b.len() {
        false
    } else if i == a.len() {
        true
    } else {
        let x = a[i];
        let y = b[i];
        assert(a@.skip(i as int)[0] == x && b@.skip(i as int)[0] == y);
        x < y
    }
}

} // verus!
