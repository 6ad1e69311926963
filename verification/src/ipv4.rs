//! Internet addresses in dotted-quad form.

use crate::text::{digit_value, is_digit, numeral_value, to_chars};
use vstd::prelude::*;

verus! {

/// One to three digits that stand for a number of at most 255, written
/// without a leading zero (so `0` is an octet, and `00` and `01` are not).
pub open spec fn is_octet(s: Seq<char>) -> bool {
    &&& 1 <= s.len() <= 3
    &&& forall|i: int| 0 <= i < s.len() ==> is_digit(#[trigger] s[i])
    &&& s.len() > 1 ==> s[0] != '0'
    &&& numeral_value(s) <= 255
}

/// `s` is four octets with dots between them, and the dots are at `i`, `j`
/// and `k`.
pub open spec fn is_dotted_quad_at(s: Seq<char>, i: int, j: int, k: int) -> bool {
    &&& 0 <= i < j < k < s.len()
    &&& s[i] == '.'
    &&& s[j] == '.'
    &&& s[k] == '.'
    &&& is_octet(s.subrange(0, i))
    &&& is_octet(s.subrange(i + 1, j))
    &&& is_octet(s.subrange(j + 1, k))
    &&& is_octet(s.subrange(k + 1, s.len() as int))
}

/// An internet address of version 4 in its usual writing: four octets with
/// dots between them, and nothing else.
pub open spec fn is_ipv4_address(s: Seq<char>) -> bool {
    exists|i: int, j: int, k: int| is_dotted_quad_at(s, i, j, k)
}

/// An octet stands between `start` and `end`, and what follows it, if
/// anything follows, is no digit.
pub open spec fn is_octet_between(s: Seq<char>, start: int, end: int) -> bool {
    &&& 0 <= start < end <= s.len()
    &&& is_octet(s.subrange(start, end))
    &&& end < s.len() ==> !is_digit(s[end])
}

/// From a given place on there is at most one octet that no digit follows.
pub proof fn lemma_octet_end_is_unique(s: Seq<char>, start: int, a: int, b: int)
    requires
        is_octet_between(s, start, a),
        is_octet_between(s, start, b),
    ensures
        a == b,
{
    if a < b {
        assert(s.subrange(start, b)[a - start] == s[a]);
    } else if b < a {
        assert(s.subrange(start, a)[b - start] == s[b]);
    }
}

fn digit_of(c: char) -> (r: Option<u32>)
    ensures
        match r {
            Some(d) => is_digit(c) && d == digit_value(c),
            None => !is_digit(c),
        },
{
    match c {
        '0' => Some(0),
        '1' => Some(1),
        '2' => Some(2),
        '3' => Some(3),
        '4' => Some(4),
        '5' => Some(5),
        '6' => Some(6),
        '7' => Some(7),
        '8' => Some(8),
        '9' => Some(9),
        _ => None,
    }
}

/// Looks for the octet that begins at `start` and reaches to the next
/// character that is no digit, and tells where it ends.
fn octet_end(chars: &Vec<char>, start: usize) -> (r: Option<usize>)
    requires
        start <= chars.len(),
    ensures
        match r {
            Some(end) => is_octet_between(chars@, start as int, end as int),
            None => forall|end: int| !is_octet_between(chars@, start as int, end),
        },
{
    let mut end: usize = start;
    let mut value: u32 = 0;
    let mut in_digits = true;
    while in_digits && end < chars.len() && end - start < 4
        invariant
            start <= end <= chars.len(),
            end - start <= 4,
            forall|p: int| start <= p < end ==> is_digit(#[trigger] chars@[p]),
            !in_digits ==> end < chars.len() && !is_digit(chars@[end as int]),
            value == numeral_value(chars@.subrange(start as int, end as int)),
            end - start == 0 ==> value == 0,
            end - start == 1 ==> value <= 9,
            end - start == 2 ==> value <= 99,
            end - start == 3 ==> value <= 999,
            end - start == 4 ==> value <= 9999,
        decreases chars.len() - end + if in_digits { 1int } else { 0int },
    {
        match digit_of(chars[end]) {
            None => {
                in_digits = false;
            },
            Some(d) => {
                proof {
                    let longer = chars@.subrange(start as int, end + 1);
                    assert(longer.drop_last() =~= chars@.subrange(start as int, end as int));
                    assert(longer.last() == chars@[end as int]);
                }
                value = value * 10 + d;
                end = end + 1;
            },
        }
    }
    let ghost run = chars@.subrange(start as int, end as int);
    let found = end > start && end - start < 4 && (end - start == 1 || chars[start] != '0')
        && value <= 255;
    proof {
        if found {
            assert forall|i: int| 0 <= i < run.len() implies is_digit(#[trigger] run[i]) by {
                assert(run[i] == chars@[start + i]);
            }
            assert(run[0] == chars@[start as int]);
        } else {
            assert forall|other: int| !is_octet_between(chars@, start as int, other) by {
                if is_octet_between(chars@, start as int, other) {
                    let octet = chars@.subrange(start as int, other);
                    assert forall|p: int| start <= p < other implies is_digit(chars@[p]) by {
                        assert(octet[p - start] == chars@[p]);
                    }
                    if end - start == 4 {
                        // four digits in a row: a digit follows whatever ends within them
                        assert(is_digit(chars@[other]));
                    } else if other < end {
                        assert(is_digit(chars@[other]));
                    } else if other > end {
                        assert(is_digit(chars@[end as int]));
                    } else {
                        assert(octet =~= run);
                        assert(run[0] == chars@[start as int]);
                    }
                }
            }
        }
    }
    if found {
        Some(end)
    } else {
        None
    }
}

/// Tells whether `text` writes an internet address of version 4.
pub fn is_ipv4(text: &str) -> (r: bool)
    ensures
        r == is_ipv4_address(text@),
{
    let chars = to_chars(text);
    let ghost s = chars@;
    let n = chars.len();
    let first = octet_end(&chars, 0);
    let i = match first {
        Some(i) => i,
        None => {
            proof {
                lemma_no_first_octet(s);
            }
            return false;
        },
    };
    if i >= n || chars[i] != '.' {
        proof {
            lemma_first_dot(s, i as int);
        }
        return false;
    }
    let second = octet_end(&chars, i + 1);
    let j = match second {
        Some(j) => j,
        None => {
            proof {
                lemma_first_dot(s, i as int);
                assert forall|a: int, b: int, c: int| !is_dotted_quad_at(s, a, b, c) by {
                    if is_dotted_quad_at(s, a, b, c) {
                        assert(is_octet_between(s, 0, a));
                        assert(is_octet_between(s, a + 1, b));
                    }
                }
            }
            return false;
        },
    };
    if j >= n || chars[j] != '.' {
        proof {
            lemma_second_dot(s, i as int, j as int);
        }
        return false;
    }
    let third = octet_end(&chars, j + 1);
    let k = match third {
        Some(k) => k,
        None => {
            proof {
                lemma_second_dot(s, i as int, j as int);
                assert forall|a: int, b: int, c: int| !is_dotted_quad_at(s, a, b, c) by {
                    if is_dotted_quad_at(s, a, b, c) {
                        assert(is_octet_between(s, 0, a));
                        assert(is_octet_between(s, a + 1, b));
                        assert(is_octet_between(s, b + 1, c));
                    }
                }
            }
            return false;
        },
    };
    if k >= n || chars[k] != '.' {
        proof {
            lemma_third_dot(s, i as int, j as int, k as int);
        }
        return false;
    }
    let fourth = octet_end(&chars, k + 1);
    proof {
        lemma_third_dot(s, i as int, j as int, k as int);
    }
    match fourth {
        Some(end) => {
            if end == n {
                assert(is_dotted_quad_at(s, i as int, j as int, k as int));
                true
            } else {
                proof {
                    assert forall|a: int, b: int, c: int| !is_dotted_quad_at(s, a, b, c) by {
                        if is_dotted_quad_at(s, a, b, c) {
                            assert(is_octet_between(s, 0, a));
                            assert(is_octet_between(s, a + 1, b));
                            assert(is_octet_between(s, b + 1, c));
                            assert(is_octet_between(s, c + 1, s.len() as int));
                            lemma_octet_end_is_unique(s, k + 1, end as int, s.len() as int);
                        }
                    }
                }
                false
            }
        },
        None => {
            proof {
                assert forall|a: int, b: int, c: int| !is_dotted_quad_at(s, a, b, c) by {
                    if is_dotted_quad_at(s, a, b, c) {
                        assert(is_octet_between(s, 0, a));
                        assert(is_octet_between(s, a + 1, b));
                        assert(is_octet_between(s, b + 1, c));
                        assert(is_octet_between(s, c + 1, s.len() as int));
                    }
                }
            }
            false
        },
    }
}

/// Without an octet at its start a text is no address.
proof fn lemma_no_first_octet(s: Seq<char>)
    requires
        forall|end: int| !is_octet_between(s, 0, end),
    ensures
        !is_ipv4_address(s),
{
    assert forall|a: int, b: int, c: int| !is_dotted_quad_at(s, a, b, c) by {
        if is_dotted_quad_at(s, a, b, c) {
            assert(is_octet_between(s, 0, a));
        }
    }
}

/// The first dot of an address stands where its first octet ends.
proof fn lemma_first_dot(s: Seq<char>, i: int)
    requires
        is_octet_between(s, 0, i),
    ensures
        forall|a: int, b: int, c: int| is_dotted_quad_at(s, a, b, c) ==> a == i,
        !(i < s.len() && s[i] == '.') ==> !is_ipv4_address(s),
{
    assert forall|a: int, b: int, c: int| is_dotted_quad_at(s, a, b, c) implies a == i by {
        assert(is_octet_between(s, 0, a));
        lemma_octet_end_is_unique(s, 0, a, i);
    }
}

/// The second dot of an address stands where its second octet ends.
proof fn lemma_second_dot(s: Seq<char>, i: int, j: int)
    requires
        is_octet_between(s, 0, i),
        is_octet_between(s, i + 1, j),
    ensures
        forall|a: int, b: int, c: int| is_dotted_quad_at(s, a, b, c) ==> a == i && b == j,
        !(j < s.len() && s[j] == '.') ==> !is_ipv4_address(s),
{
    lemma_first_dot(s, i);
    assert forall|a: int, b: int, c: int| is_dotted_quad_at(s, a, b, c) implies a == i && b
        == j by {
        assert(is_octet_between(s, a + 1, b));
        lemma_octet_end_is_unique(s, i + 1, b, j);
    }
}

/// The third dot of an address stands where its third octet ends.
proof fn lemma_third_dot(s: Seq<char>, i: int, j: int, k: int)
    requires
        is_octet_between(s, 0, i),
        is_octet_between(s, i + 1, j),
        is_octet_between(s, j + 1, k),
    ensures
        forall|a: int, b: int, c: int|
            is_dotted_quad_at(s, a, b, c) ==> a == i && b == j && c == k,
        !(k < s.len() && s[k] == '.') ==> !is_ipv4_address(s),
{
    lemma_second_dot(s, i, j);
    assert forall|a: int, b: int, c: int| is_dotted_quad_at(s, a, b, c) implies a == i && b == j
        && c == k by {
        assert(is_octet_between(s, b + 1, c));
        lemma_octet_end_is_unique(s, j + 1, c, k);
    }
}

} // verus!
