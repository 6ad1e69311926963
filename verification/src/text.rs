//! Texts as sequences of characters: dictionary order, prefixes, decimal
//! numerals and joining with a separator.

use vstd::prelude::*;
use vstd::std_specs::iter::IteratorSpec;

verus! {

/// How two texts stand to each other in dictionary order.
#[derive(Clone, Copy, Debug, PartialEq, Eq, Structural)]
pub enum TextOrder {
    Before,
    Same,
    After,
}

/// Dictionary order on texts: the first differing character decides, by its
/// code point, and a proper prefix comes before every extension of it.
pub open spec fn lex_lt(a: Seq<char>, b: Seq<char>) -> bool
    decreases a.len(),
{
    if b.len() == 0 {
        false
    } else if a.len() == 0 {
        true
    } else if a[0] != b[0] {
        a[0] < b[0]
    } else {
        lex_lt(a.drop_first(), b.drop_first())
    }
}

/// The three-way answer that goes with [`lex_lt`].
pub open spec fn text_order(a: Seq<char>, b: Seq<char>) -> TextOrder {
    if lex_lt(a, b) {
        TextOrder::Before
    } else if a == b {
        TextOrder::Same
    } else {
        TextOrder::After
    }
}

/// No text comes before itself.
pub proof fn lemma_lex_lt_irreflexive(a: Seq<char>)
    ensures
        !lex_lt(a, a),
    decreases a.len(),
{
    if a.len() > 0 {
        lemma_lex_lt_irreflexive(a.drop_first());
    }
}

/// Of two different texts exactly one comes before the other.
pub proof fn lemma_lex_lt_total(a: Seq<char>, b: Seq<char>)
    ensures
        a != b ==> (lex_lt(a, b) <==> !lex_lt(b, a)),
        a == b ==> !lex_lt(a, b) && !lex_lt(b, a),
    decreases a.len(),
{
    if a == b {
        lemma_lex_lt_irreflexive(a);
    } else if a.len() == 0 || b.len() == 0 {
        if a.len() == 0 && b.len() == 0 {
            assert(a =~= b);
        }
    } else if a[0] == b[0] {
        if a.drop_first() == b.drop_first() {
            assert(a =~= seq![a[0]] + a.drop_first());
            assert(b =~= seq![b[0]] + b.drop_first());
        }
        lemma_lex_lt_total(a.drop_first(), b.drop_first());
    }
}

/// Dictionary order is transitive.
pub proof fn lemma_lex_lt_transitive(a: Seq<char>, b: Seq<char>, c: Seq<char>)
    requires
        lex_lt(a, b),
        lex_lt(b, c),
    ensures
        lex_lt(a, c),
    decreases a.len(),
{
    if a.len() > 0 && a[0] == b[0] && b[0] == c[0] {
        lemma_lex_lt_transitive(a.drop_first(), b.drop_first(), c.drop_first());
    }
}

/// Dropping a common first character changes nothing in how two texts compare.
pub proof fn lemma_order_drops_common_head(a: Seq<char>, b: Seq<char>)
    requires
        a.len() > 0,
        b.len() > 0,
        a[0] == b[0],
    ensures
        text_order(a, b) == text_order(a.drop_first(), b.drop_first()),
{
    if a == b {
        assert(a.drop_first() == b.drop_first());
    }
    if a.drop_first() == b.drop_first() {
        assert(a =~= seq![a[0]] + a.drop_first());
        assert(b =~= seq![b[0]] + b.drop_first());
    }
}

/// Compares two texts in dictionary order, reading each of them once.
pub fn order_of(a: &str, b: &str) -> (r: TextOrder)
    ensures
        r == text_order(a@, b@),
{
    let mut left = a.chars();
    let mut right = b.chars();
    let ghost mut k: int = 0;
    proof {
        assert(a@.skip(0) =~= a@);
        assert(b@.skip(0) =~= b@);
    }
    loop
        invariant
            0 <= k <= a@.len(),
            k <= b@.len(),
            left.obeys_prophetic_iter_laws(),
            right.obeys_prophetic_iter_laws(),
            left.remaining() == a@.skip(k),
            right.remaining() == b@.skip(k),
            text_order(a@, b@) == text_order(a@.skip(k), b@.skip(k)),
        decreases a@.len() - k,
    {
        let x = left.next();
        let y = right.next();
        proof {
            let rest_a = a@.skip(k);
            let rest_b = b@.skip(k);
            assert(rest_a.len() == a@.len() - k);
            assert(rest_b.len() == b@.len() - k);
            if x is Some && y is Some {
                assert(rest_a.drop_first() =~= a@.skip(k + 1));
                assert(rest_b.drop_first() =~= b@.skip(k + 1));
                if x->0 == y->0 {
                    lemma_order_drops_common_head(rest_a, rest_b);
                }
            } else if x is None && y is None {
                assert(rest_a =~= rest_b);
            } else {
                assert(rest_a.len() != rest_b.len());
            }
        }
        match (x, y) {
            (None, None) => {
                return TextOrder::Same;
            },
            (None, Some(_)) => {
                return TextOrder::Before;
            },
            (Some(_), None) => {
                return TextOrder::After;
            },
            (Some(p), Some(q)) => {
                if p < q {
                    return TextOrder::Before;
                } else if q < p {
                    return TextOrder::After;
                }
                proof {
                    k = k + 1;
                }
            },
        }
    }
}

/// Tells whether two texts are the same.
pub fn same_text(a: &str, b: &str) -> (r: bool)
    ensures
        r == (a@ == b@),
{
    proof {
        lemma_lex_lt_total(a@, b@);
    }
    order_of(a, b) == TextOrder::Same
}

/// One text after the other.
pub fn glue(a: &str, b: &str) -> (r: String)
    ensures
        r@ == a@ + b@,
{
    let mut r = String::from_str(a);
    r.append(b);
    r
}

/// Tells whether `text` begins with `prefix`.
pub fn has_prefix(text: &str, prefix: &str) -> (r: bool)
    ensures
        r == prefix@.is_prefix_of(text@),
{
    let mut whole = text.chars();
    let mut head = prefix.chars();
    let ghost mut k: int = 0;
    proof {
        assert(text@.skip(0) =~= text@);
        assert(prefix@.skip(0) =~= prefix@);
    }
    loop
        invariant
            0 <= k <= text@.len(),
            k <= prefix@.len(),
            whole.obeys_prophetic_iter_laws(),
            head.obeys_prophetic_iter_laws(),
            whole.remaining() == text@.skip(k),
            head.remaining() == prefix@.skip(k),
            forall|i: int| 0 <= i < k ==> text@[i] == prefix@[i],
        decreases prefix@.len() - k,
    {
        let expected = head.next();
        proof {
            assert(prefix@.skip(k).len() == prefix@.len() - k);
            assert(text@.skip(k).len() == text@.len() - k);
        }
        match expected {
            None => {
                assert(prefix@ =~= text@.subrange(0, prefix@.len() as int));
                return true;
            },
            Some(q) => {
                let found = whole.next();
                match found {
                    None => {
                        return false;
                    },
                    Some(p) => {
                        if p != q {
                            proof {
                                if prefix@.len() <= text@.len() {
                                    assert(text@.subrange(0, prefix@.len() as int)[k] == text@[k]);
                                }
                            }
                            return false;
                        }
                        proof {
                            assert(text@.skip(k).drop_first() =~= text@.skip(k + 1));
                            assert(prefix@.skip(k).drop_first() =~= prefix@.skip(k + 1));
                            k = k + 1;
                        }
                    },
                }
            },
        }
    }
}

/// The characters of a text, in order.
pub fn to_chars(text: &str) -> (v: Vec<char>)
    ensures
        v@ == text@,
{
    let mut v: Vec<char> = Vec::new();
    for c in it: text.chars()
        invariant
            v@ == it.seq().take(it.index() as int),
            it.seq() == text@,
    {
        v.push(c);
    }
    v
}

/// One of the ten decimal digits.
pub open spec fn is_digit(c: char) -> bool {
    '0' <= c <= '9'
}

/// The number that a digit stands for.
pub open spec fn digit_value(c: char) -> int {
    if c == '1' {
        1
    } else if c == '2' {
        2
    } else if c == '3' {
        3
    } else if c == '4' {
        4
    } else if c == '5' {
        5
    } else if c == '6' {
        6
    } else if c == '7' {
        7
    } else if c == '8' {
        8
    } else if c == '9' {
        9
    } else {
        0
    }
}

/// The number that a run of digits stands for.
pub open spec fn numeral_value(digits: Seq<char>) -> int
    decreases digits.len(),
{
    if digits.len() == 0 {
        0
    } else {
        10 * numeral_value(digits.drop_last()) + digit_value(digits.last())
    }
}

/// The character that writes one decimal digit.
pub open spec fn digit_char(d: nat) -> char {
    if d == 0 {
        '0'
    } else if d == 1 {
        '1'
    } else if d == 2 {
        '2'
    } else if d == 3 {
        '3'
    } else if d == 4 {
        '4'
    } else if d == 5 {
        '5'
    } else if d == 6 {
        '6'
    } else if d == 7 {
        '7'
    } else if d == 8 {
        '8'
    } else {
        '9'
    }
}

/// The decimal numeral of `n`: no sign, no leading zero but for zero itself.
pub open spec fn decimal(n: nat) -> Seq<char>
    decreases n,
{
    if n < 10 {
        seq![digit_char(n)]
    } else {
        decimal(n / 10).push(digit_char(n % 10))
    }
}

/// The parts written one after the other with `separator` between neighbours.
pub open spec fn joined(parts: Seq<Seq<char>>, separator: Seq<char>) -> Seq<char>
    decreases parts.len(),
{
    if parts.len() == 0 {
        Seq::empty()
    } else if parts.len() == 1 {
        parts[0]
    } else {
        joined(parts.drop_last(), separator) + separator + parts.last()
    }
}

/// Where part `k` begins in the joined text: behind the parts before it and
/// a separator after each of them.
pub open spec fn offset_of(parts: Seq<Seq<char>>, separator: Seq<char>, k: int) -> int
    decreases k,
{
    if k <= 0 {
        0
    } else {
        offset_of(parts, separator, k - 1) + parts[k - 1].len() + separator.len()
    }
}

/// Where a part begins depends on the parts before it alone.
proof fn lemma_offset_of_shorter(parts: Seq<Seq<char>>, separator: Seq<char>, k: int)
    requires
        0 <= k < parts.len(),
    ensures
        offset_of(parts.drop_last(), separator, k) == offset_of(parts, separator, k),
    decreases k,
{
    if k > 0 {
        lemma_offset_of_shorter(parts, separator, k - 1);
    }
}

/// The joined text holds every part, whole and in its place: the parts stand
/// in their order, and between two neighbours stands the separator.
pub proof fn lemma_joined_holds_every_part(parts: Seq<Seq<char>>, separator: Seq<char>, k: int)
    requires
        0 <= k < parts.len(),
    ensures
        0 <= offset_of(parts, separator, k),
        offset_of(parts, separator, k) + parts[k].len() <= joined(parts, separator).len(),
        joined(parts, separator).subrange(
            offset_of(parts, separator, k),
            offset_of(parts, separator, k) + parts[k].len(),
        ) == parts[k],
        joined(parts, separator).len() == offset_of(parts, separator, parts.len() - 1)
            + parts.last().len(),
    decreases parts.len(),
{
    let whole = joined(parts, separator);
    let last = parts.len() - 1;
    if parts.len() == 1 {
        assert(whole.subrange(0, parts[0].len() as int) =~= parts[0]);
    } else {
        let shorter = parts.drop_last();
        let head = joined(shorter, separator);
        lemma_joined_holds_every_part(shorter, separator, last - 1);
        lemma_offset_of_shorter(parts, separator, last - 1);
        assert(shorter.last() == parts[last - 1]);
        assert(offset_of(parts, separator, last) == head.len() + separator.len());
        if k == last {
            assert(whole.subrange(
                offset_of(parts, separator, k),
                offset_of(parts, separator, k) + parts[k].len(),
            ) =~= parts[k]);
        } else {
            lemma_joined_holds_every_part(shorter, separator, k);
            lemma_offset_of_shorter(parts, separator, k);
            assert(shorter[k] == parts[k]);
            let from = offset_of(parts, separator, k);
            assert(whole.subrange(from, from + parts[k].len()) =~= head.subrange(
                from,
                from + parts[k].len(),
            ));
        }
    }
}

/// Writes the parts one after the other with `separator` between neighbours.
pub fn join(parts: &Vec<String>, separator: &str) -> (r: String)
    ensures
        r@ == joined(parts.deep_view(), separator@),
{
    let mut r = String::new();
    let mut i: usize = 0;
    while i < parts.len()
        invariant
            0 <= i <= parts.len(),
            r@ == joined(parts.deep_view().take(i as int), separator@),
        decreases parts.len() - i,
    {
        proof {
            let before = parts.deep_view().take(i as int);
            let after = parts.deep_view().take(i + 1);
            assert(after.drop_last() =~= before);
            assert(after.last() == parts[i as int]@);
            if i == 0 {
                assert(r@ =~= Seq::<char>::empty());
                assert(Seq::<char>::empty() + parts[0]@ =~= parts[0]@);
            }
        }
        if i > 0 {
            r.append(separator);
        }
        r.append(parts[i].as_str());
        i = i + 1;
    }
    proof {
        assert(parts.deep_view().take(parts.len() as int) =~= parts.deep_view());
    }
    r
}

/// A decimal numeral is made of digits, and read as a number it gives back
/// the number it was written for.
pub proof fn lemma_decimal_reads_back(n: nat)
    ensures
        decimal(n).len() >= 1,
        forall|i: int| 0 <= i < decimal(n).len() ==> is_digit(#[trigger] decimal(n)[i]),
        numeral_value(decimal(n)) == n,
        n > 0 ==> decimal(n)[0] != '0',
    decreases n,
{
    if n < 10 {
        assert(decimal(n).drop_last() =~= Seq::<char>::empty());
        assert(numeral_value(decimal(n).drop_last()) == 0);
    } else {
        let head = decimal(n / 10);
        lemma_decimal_reads_back(n / 10);
        assert(decimal(n).drop_last() =~= head);
        assert(decimal(n)[0] == head[0]);
    }
}

/// Dictionary order, said without recursion: at the first place where two
/// texts part, the one that has ended, or else the one with the lesser
/// character, comes first.
pub proof fn lemma_lex_lt_at_first_difference(a: Seq<char>, b: Seq<char>, k: int)
    requires
        0 <= k <= a.len(),
        k <= b.len(),
        a.take(k) == b.take(k),
        k == a.len() || k == b.len() || a[k] != b[k],
    ensures
        lex_lt(a, b) <==> k < b.len() && (k == a.len() || a[k] < b[k]),
    decreases k,
{
    if k > 0 {
        assert(a[0] == a.take(k)[0]);
        assert(b[0] == b.take(k)[0]);
        assert(a.drop_first().take(k - 1) =~= a.take(k).drop_first());
        assert(b.drop_first().take(k - 1) =~= b.take(k).drop_first());
        lemma_lex_lt_at_first_difference(a.drop_first(), b.drop_first(), k - 1);
    }
}

} // verus!
