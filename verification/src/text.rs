//! Building text one character at a time, and writing numbers in decimal.

use vstd::prelude::*;

verus! {

/// Appends one character to a string (`String::push`).
#[verifier::external_body]
pub(crate) fn push_char(s: &mut String, c: char)
    ensures
        final(s)@ == old(s)@.push(c),
{
    s.push(c);
}

/// The character of a decimal digit.
pub open spec fn digit_char(d: nat) -> char {
    (48 + d) as char
}

/// A natural number written in decimal, without leading zeros, as `{}` writes it.
pub open spec fn decimal(n: nat) -> Seq<char>
    decreases n,
{
    if n < 10 {
        seq![digit_char(n)]
    } else {
        decimal(n / 10).push(digit_char(n % 10))
    }
}

/// A decimal number is never empty, and is longer than one digit exactly from ten on.
pub proof fn lemma_decimal_len(n: nat)
    ensures
        decimal(n).len() >= 1,
        (decimal(n).len() == 1) == (n < 10),
    decreases n,
{
    if n >= 10 {
        lemma_decimal_len(n / 10);
    }
}

/// Two numbers are written the same only if they are the same number.
pub proof fn lemma_decimal_injective(a: nat, b: nat)
    requires
        decimal(a) == decimal(b),
    ensures
        a == b,
    decreases a,
{
    lemma_decimal_len(a);
    lemma_decimal_len(b);
    if a < 10 {
        assert(b < 10);
        assert(decimal(a) == seq![digit_char(a)]);
        assert(decimal(b) == seq![digit_char(b)]);
        assert(seq![digit_char(a)][0] == digit_char(a));
        assert(seq![digit_char(b)][0] == digit_char(b));
        assert(digit_char(a) == digit_char(b));
        assert(digit_char(a) as int == 48 + a);
    } else {
        let da = decimal(a);
        let db = decimal(b);
        assert(da.last() == db.last());
        assert(da.drop_last() =~= decimal(a / 10));
        assert(db.drop_last() =~= decimal(b / 10));
        lemma_decimal_injective(a / 10, b / 10);
        assert(digit_char(a % 10) as int == 48 + a % 10);
        assert(digit_char(b % 10) as int == 48 + b % 10);
    }
}

/// The digit `d` as a character.
pub fn digit(d: u64) -> (c: char)
    requires
        d < 10,
    ensures
        c == digit_char(d as nat),
{
    let b: u8 = 48u8 + d as u8;
    b as char
}

/// Appends `n`, written in decimal, to `s`.
pub fn push_decimal(s: &mut String, n: u64)
    ensures
        final(s)@ == old(s)@ + decimal(n as nat),
    decreases n,
{
    if n >= 10 {
        push_decimal(s, n / 10);
    }
    push_char(s, digit(n % 10));
    proof {
        if n >= 10 {
            assert(decimal(n as nat) == decimal((n / 10) as nat).push(digit_char((n % 10) as nat)));
        }
    }
    assert(final(s)@ =~= old(s)@ + decimal(n as nat));
}

/// Appends every character of `t` to `s`.
pub fn push_str(s: &mut String, t: &str)
    ensures
        final(s)@ == old(s)@ + t@,
{
    s.append(t);
}

} // verus!

verus! {

/// Lexicographic order of texts by the code points of their characters, shorter first on a
/// common prefix. For UTF-8 this is the order `str` compares in, byte by byte.
pub open spec fn text_less(a: Seq<char>, b: Seq<char>) -> bool
    decreases a.len(),
{
    if a.len() == 0 {
        b.len() > 0
    } else if b.len() == 0 {
        false
    } else if a[0] != b[0] {
        (a[0] as int) < (b[0] as int)
    } else {
        text_less(a.drop_first(), b.drop_first())
    }
}

/// No text comes before itself.
pub proof fn lemma_text_less_irreflexive(a: Seq<char>)
    ensures
        !text_less(a, a),
    decreases a.len(),
{
    if a.len() > 0 {
        lemma_text_less_irreflexive(a.drop_first());
    }
}

/// The order is transitive.
pub proof fn lemma_text_less_transitive(a: Seq<char>, b: Seq<char>, c: Seq<char>)
    requires
        text_less(a, b),
        text_less(b, c),
    ensures
        text_less(a, c),
    decreases a.len(),
{
    if a.len() > 0 && b.len() > 0 && c.len() > 0 {
        if a[0] == b[0] && b[0] == c[0] {
            lemma_text_less_transitive(a.drop_first(), b.drop_first(), c.drop_first());
        }
    }
}

/// Any two different texts are ordered one way or the other.
pub proof fn lemma_text_less_total(a: Seq<char>, b: Seq<char>)
    requires
        a != b,
    ensures
        text_less(a, b) || text_less(b, a),
    decreases a.len(),
{
    if a.len() > 0 && b.len() > 0 {
        if a[0] == b[0] {
            if a.drop_first() == b.drop_first() {
                assert(a =~= seq![a[0]] + a.drop_first());
                assert(b =~= seq![b[0]] + b.drop_first());
            }
            lemma_text_less_total(a.drop_first(), b.drop_first());
        } else {
            assert(a[0] as int != b[0] as int);
        }
    } else if a.len() == 0 && b.len() == 0 {
        assert(a =~= b);
    }
}

/// Whether `a` comes before `b` in the order texts are sorted in.
pub fn text_before(a: &str, b: &str) -> (before: bool)
    ensures
        before == text_less(a@, b@),
{
    let a_len = a.unicode_len();
    let b_len = b.unicode_len();
    let mut i: usize = 0;
    assert(a@.skip(0) =~= a@);
    assert(b@.skip(0) =~= b@);
    while i < a_len && i < b_len
        invariant
            a_len == a@.len(),
            b_len == b@.len(),
            i <= a_len,
            i <= b_len,
            a@.subrange(0, i as int) == b@.subrange(0, i as int),
            text_less(a@, b@) == text_less(a@.skip(i as int), b@.skip(i as int)),
        decreases a_len - i,
    {
        let ca = a.get_char(i);
        let cb = b.get_char(i);
        assert(a@.skip(i as int)[0] == ca);
        assert(b@.skip(i as int)[0] == cb);
        if ca != cb {
            return (ca as u32) < (cb as u32);
        }
        assert(a@.skip(i as int).drop_first() =~= a@.skip(i + 1));
        assert(b@.skip(i as int).drop_first() =~= b@.skip(i + 1));
        assert(a@.subrange(0, i + 1) =~= a@.subrange(0, i as int).push(ca));
        assert(b@.subrange(0, i + 1) =~= b@.subrange(0, i as int).push(cb));
        i = i + 1;
    }
    i == a_len && i < b_len
}

/// Whether two texts are the same.
pub fn text_equal(a: &str, b: &str) -> (equal: bool)
    ensures
        equal == (a@ == b@),
{
    let a_len = a.unicode_len();
    let b_len = b.unicode_len();
    if a_len != b_len {
        return false;
    }
    let mut i: usize = 0;
    while i < a_len
        invariant
            a_len == a@.len(),
            b_len == b@.len(),
            a_len == b_len,
            i <= a_len,
            a@.subrange(0, i as int) == b@.subrange(0, i as int),
        decreases a_len - i,
    {
        let ca = a.get_char(i);
        let cb = b.get_char(i);
        if ca != cb {
            return false;
        }
        assert(a@.subrange(0, i + 1) =~= a@.subrange(0, i as int).push(ca));
        assert(b@.subrange(0, i + 1) =~= b@.subrange(0, i as int).push(cb));
        i = i + 1;
    }
    assert(a@ =~= a@.subrange(0, i as int));
    assert(b@ =~= b@.subrange(0, i as int));
    true
}

} // verus!

verus! {

/// The texts held by a list of strings.
pub open spec fn texts(v: Seq<String>) -> Seq<Seq<char>> {
    v.map_values(|s: String| s@)
}

/// Each text comes before every text after it.
pub open spec fn strictly_sorted(s: Seq<Seq<char>>) -> bool {
    forall|i: int, j: int| 0 <= i < j < s.len() ==> text_less(#[trigger] s[i], #[trigger] s[j])
}

/// No text occurs twice.
pub open spec fn distinct_texts(s: Seq<Seq<char>>) -> bool {
    forall|i: int, j: int| 0 <= i < j < s.len() ==> #[trigger] s[i] != #[trigger] s[j]
}

/// Two lists hold the same texts.
pub open spec fn same_texts(a: Seq<Seq<char>>, b: Seq<Seq<char>>) -> bool {
    forall|x: Seq<char>| a.contains(x) <==> b.contains(x)
}

/// The texts of a set, in sorted order.
pub open spec fn sorted_texts(set: Set<Seq<char>>) -> Seq<Seq<char>> {
    choose|s: Seq<Seq<char>>|
        strictly_sorted(s) && forall|x: Seq<char>| s.contains(x) <==> set.contains(x)
}

/// A sorted list holds no text twice.
pub proof fn lemma_sorted_distinct(s: Seq<Seq<char>>)
    requires
        strictly_sorted(s),
    ensures
        distinct_texts(s),
{
    assert forall|i: int, j: int| 0 <= i < j < s.len() implies #[trigger] s[i] != #[trigger] s[j] by {
        lemma_text_less_irreflexive(s[i]);
    }
}

/// There is only one way to sort a collection of texts.
pub proof fn lemma_sorted_unique(a: Seq<Seq<char>>, b: Seq<Seq<char>>)
    requires
        strictly_sorted(a),
        strictly_sorted(b),
        same_texts(a, b),
    ensures
        a == b,
    decreases a.len(),
{
    lemma_sorted_distinct(a);
    lemma_sorted_distinct(b);
    if a.len() == 0 {
        if b.len() > 0 {
            assert(b.contains(b[0]));
        }
        assert(a =~= b);
    } else {
        assert(a.contains(a[0]));
        let k = choose|k: int| 0 <= k < b.len() && b[k] == a[0];
        assert(b.contains(b[0]));
        let m = choose|m: int| 0 <= m < a.len() && a[m] == b[0];
        if k > 0 {
            assert(text_less(b[0], b[k]));
            if m == 0 {
                lemma_text_less_irreflexive(a[0]);
            } else {
                assert(text_less(a[0], a[m]));
                lemma_text_less_transitive(a[0], b[0], a[0]);
                lemma_text_less_irreflexive(a[0]);
            }
        }
        assert(b[0] == a[0]);
        let ra = a.drop_first();
        let rb = b.drop_first();
        assert forall|x: Seq<char>| ra.contains(x) <==> rb.contains(x) by {
            if ra.contains(x) {
                let i = choose|i: int| 0 <= i < ra.len() && ra[i] == x;
                assert(a[i + 1] == x);
                assert(a.contains(x));
                let j = choose|j: int| 0 <= j < b.len() && b[j] == x;
                assert(j != 0);
                assert(rb[j - 1] == x);
            }
            if rb.contains(x) {
                let i = choose|i: int| 0 <= i < rb.len() && rb[i] == x;
                assert(b[i + 1] == x);
                assert(b.contains(x));
                let j = choose|j: int| 0 <= j < a.len() && a[j] == x;
                assert(j != 0);
                assert(ra[j - 1] == x);
            }
        }
        assert forall|i: int, j: int| 0 <= i < j < ra.len() implies text_less(#[trigger] ra[i], #[trigger] ra[j]) by {
            assert(text_less(a[i + 1], a[j + 1]));
        }
        assert forall|i: int, j: int| 0 <= i < j < rb.len() implies text_less(#[trigger] rb[i], #[trigger] rb[j]) by {
            assert(text_less(b[i + 1], b[j + 1]));
        }
        lemma_sorted_unique(ra, rb);
        assert(a =~= seq![a[0]] + ra);
        assert(b =~= seq![b[0]] + rb);
    }
}

/// A sorted list of texts is the sorting of the texts it holds.
pub proof fn lemma_is_sorted_texts(s: Seq<Seq<char>>, set: Set<Seq<char>>)
    requires
        strictly_sorted(s),
        forall|x: Seq<char>| s.contains(x) <==> set.contains(x),
    ensures
        sorted_texts(set) == s,
{
    let c = sorted_texts(set);
    assert(strictly_sorted(c) && forall|x: Seq<char>| c.contains(x) <==> set.contains(x));
    lemma_sorted_unique(c, s);
}

/// The given strings in sorted order; they must all differ.
pub fn sort_texts(names: Vec<String>) -> (sorted: Vec<String>)
    requires
        distinct_texts(texts(names@)),
    ensures
        strictly_sorted(texts(sorted@)),
        same_texts(texts(sorted@), texts(names@)),
{
    let mut sorted: Vec<String> = Vec::new();
    let n = names.len();
    for i in 0..n
        invariant
            n == names@.len(),
            distinct_texts(texts(names@)),
            strictly_sorted(texts(sorted@)),
            same_texts(texts(sorted@), texts(names@).take(i as int)),
    {
        let name = &names[i];
        let ghost s = texts(sorted@);
        let ghost x = name@;
        assert(x == texts(names@)[i as int]);
        // x is not held yet: the names differ
        assert(!s.contains(x)) by {
            if s.contains(x) {
                let k = choose|k: int| 0 <= k < s.len() && s[k] == x;
                assert(texts(names@).take(i as int).contains(x));
                let j = choose|j: int| 0 <= j < i && texts(names@).take(i as int)[j] == x;
                assert(texts(names@)[j] == texts(names@)[i as int]);
            }
        }
        let mut j: usize = 0;
        while j < sorted.len()
            invariant
                s == texts(sorted@),
                x == name@,
                j <= sorted@.len(),
                !s.contains(x),
                strictly_sorted(s),
                forall|k: int| 0 <= k < j ==> text_less(#[trigger] s[k], x),
            ensures
                j <= sorted@.len(),
                forall|k: int| 0 <= k < j ==> text_less(#[trigger] s[k], x),
                j < sorted@.len() ==> text_less(x, s[j as int]),
            decreases sorted@.len() - j,
        {
            let a = name.as_str();
            let b = sorted[j].as_str();
            let before = text_before(a, b);
            proof {
                assert(s[j as int] == sorted@[j as int]@);
            }
            if before {
                break;
            }
            proof {
                assert(s.contains(s[j as int]));
                lemma_text_less_total(x, s[j as int]);
            }
            j = j + 1;
        }
        let owned = name.clone();
        sorted.insert(j, owned);
        proof {
            let t = texts(sorted@);
            assert(t =~= s.insert(j as int, x));
            assert forall|a: int, b: int| 0 <= a < b < t.len() implies text_less(#[trigger] t[a], #[trigger] t[b]) by {
                if b < j {
                    assert(t[a] == s[a] && t[b] == s[b]);
                } else if b == j {
                    assert(t[a] == s[a]);
                } else if a == j {
                    assert(t[b] == s[b - 1]);
                    if b - 1 > j {
                        assert(text_less(s[j as int], s[b - 1]));
                        lemma_text_less_transitive(x, s[j as int], s[b - 1]);
                    }
                } else if a < j {
                    assert(t[a] == s[a] && t[b] == s[b - 1]);
                } else {
                    assert(t[a] == s[a - 1] && t[b] == s[b - 1]);
                }
            }
            let done = texts(names@).take(i + 1);
            assert(done =~= texts(names@).take(i as int).push(x));
            assert forall|y: Seq<char>| t.contains(y) <==> done.contains(y) by {
                if t.contains(y) {
                    let k = choose|k: int| 0 <= k < t.len() && t[k] == y;
                    if k < j {
                        assert(s[k] == y);
                        assert(s.contains(y));
                    } else if k > j {
                        assert(s[k - 1] == y);
                        assert(s.contains(y));
                    }
                    if y != x {
                        assert(texts(names@).take(i as int).contains(y));
                        let m = choose|m: int| 0 <= m < i && texts(names@).take(i as int)[m] == y;
                        assert(done[m] == y);
                    } else {
                        assert(done[i as int] == y);
                    }
                }
                if done.contains(y) {
                    let m = choose|m: int| 0 <= m <= i && done[m] == y;
                    if m == i {
                        assert(t[j as int] == y);
                    } else {
                        assert(texts(names@).take(i as int)[m] == y);
                        assert(s.contains(y));
                        let k = choose|k: int| 0 <= k < s.len() && s[k] == y;
                        if k < j {
                            assert(t[k] == y);
                        } else {
                            assert(t[k + 1] == y);
                        }
                    }
                }
            }
        }
    }
    assert(texts(names@).take(n as int) =~= texts(names@));
    sorted
}

} // verus!
