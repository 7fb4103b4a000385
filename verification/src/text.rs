//! Verified text helpers: splitting a file into lines, joining parts
//! with a separator, comparing strings, and rendering and reading the
//! decimal indices that address tasks.

use vstd::prelude::*;
use vstd::string::StrSliceExecFns;
use vstd::string::StringExecFns;

verus! {

/// Splits a character sequence at every newline.  Every text has at
/// least one line; the empty text has exactly one, the empty line.
pub open spec fn spec_lines(s: Seq<char>) -> Seq<Seq<char>>
    decreases s.len(),
{
    if s.len() == 0 {
        seq![Seq::<char>::empty()]
    } else if s[0] == '\n' {
        seq![Seq::<char>::empty()] + spec_lines(s.drop_first())
    } else {
        let rest = spec_lines(s.drop_first());
        seq![seq![s[0]] + rest[0]] + rest.drop_first()
    }
}

pub proof fn lemma_lines_nonempty(s: Seq<char>)
    ensures
        spec_lines(s).len() >= 1,
    decreases s.len(),
{
    if s.len() != 0 {
        lemma_lines_nonempty(s.drop_first());
    }
}

/// A text without a newline is exactly one line: itself.
pub proof fn lemma_lines_single(s: Seq<char>)
    requires
        !s.contains('\n'),
    ensures
        spec_lines(s) == seq![s],
    decreases s.len(),
{
    if s.len() == 0 {
        assert(spec_lines(s) =~~= seq![s]);
    } else {
        assert(s[0] != '\n');
        let t = s.drop_first();
        assert(!t.contains('\n')) by {
            if t.contains('\n') {
                let j = choose|j: int| 0 <= j < t.len() && t[j] == '\n';
                assert(s[j + 1] == '\n');
            }
        };
        lemma_lines_single(t);
        lemma_lines_nonempty(t);
        assert(spec_lines(t)[0] == t);
        assert(seq![s[0]] + t =~= s);
        assert(spec_lines(s) =~~= seq![s]);
    }
}

/// Cutting a text at its first newline cuts its line list in the same
/// place.
pub proof fn lemma_lines_break(head: Seq<char>, rest: Seq<char>)
    requires
        !head.contains('\n'),
    ensures
        spec_lines(head + seq!['\n'] + rest) == seq![head] + spec_lines(rest),
    decreases head.len(),
{
    let s = head + seq!['\n'] + rest;
    if head.len() == 0 {
        assert(s[0] == '\n');
        assert(s.drop_first() =~= rest);
        assert(head =~= Seq::<char>::empty());
        assert(spec_lines(s) =~~= seq![head] + spec_lines(rest));
    } else {
        assert(s[0] == head[0]);
        assert(head[0] != '\n');
        let h = head.drop_first();
        assert(!h.contains('\n')) by {
            if h.contains('\n') {
                let j = choose|j: int| 0 <= j < h.len() && h[j] == '\n';
                assert(head[j + 1] == '\n');
            }
        };
        lemma_lines_break(h, rest);
        assert(s.drop_first() =~= h + seq!['\n'] + rest);
        let r = spec_lines(s.drop_first());
        assert(r == seq![h] + spec_lines(rest));
        assert(r[0] == h);
        assert(r.drop_first() =~~= spec_lines(rest));
        assert(seq![s[0]] + r[0] =~= head);
        assert(spec_lines(s) =~~= seq![head] + spec_lines(rest));
    }
}

/// The parts joined in order, one copy of the separator between
/// neighbours, nothing at either end.
pub open spec fn spec_join(parts: Seq<Seq<char>>, sep: Seq<char>) -> Seq<char>
    decreases parts.len(),
{
    if parts.len() == 0 {
        Seq::<char>::empty()
    } else if parts.len() == 1 {
        parts[0]
    } else {
        spec_join(parts.drop_last(), sep) + sep + parts.last()
    }
}

/// A join of two or more parts can also be read off from the front:
/// the first part, one separator, then the join of the rest.
pub proof fn lemma_join_front(parts: Seq<Seq<char>>, sep: Seq<char>)
    requires
        parts.len() >= 2,
    ensures
        spec_join(parts, sep) == parts[0] + sep + spec_join(parts.drop_first(), sep),
    decreases parts.len(),
{
    if parts.len() == 2 {
        assert(parts.drop_last().drop_last() =~~= Seq::<Seq<char>>::empty());
        assert(parts.drop_last()[0] == parts[0]);
        assert(parts.drop_first().len() == 1);
        assert(parts.drop_first()[0] == parts[1]);
        assert(spec_join(parts.drop_last(), sep) == parts[0]);
        assert(spec_join(parts.drop_first(), sep) == parts[1]);
        assert(parts.last() == parts[1]);
        assert(spec_join(parts, sep) =~= parts[0] + sep + spec_join(parts.drop_first(), sep));
    } else {
        let front = parts.drop_last();
        lemma_join_front(front, sep);
        lemma_join_front(parts.drop_first(), sep);
        assert(front.drop_first() =~~= parts.drop_first().drop_last());
        assert(parts.drop_first().last() == parts.last());
        assert(spec_join(parts, sep) =~= parts[0] + sep + spec_join(parts.drop_first(), sep));
    }
}

/// Splitting a newline join recovers the parts, provided there is at
/// least one part and none holds a newline of its own.
pub proof fn lemma_lines_of_join(parts: Seq<Seq<char>>)
    requires
        parts.len() >= 1,
        forall|i: int| 0 <= i < parts.len() ==> !(#[trigger] parts[i]).contains('\n'),
    ensures
        spec_lines(spec_join(parts, seq!['\n'])) == parts,
    decreases parts.len(),
{
    if parts.len() == 1 {
        lemma_lines_single(parts[0]);
        assert(spec_lines(spec_join(parts, seq!['\n'])) =~~= parts);
    } else {
        assert forall|j: int| 0 <= j < parts.drop_first().len() implies !(
        #[trigger] parts.drop_first()[j]).contains('\n') by {
            assert(parts.drop_first()[j] == parts[j + 1]);
        }
        lemma_join_front(parts, seq!['\n']);
        lemma_lines_break(parts[0], spec_join(parts.drop_first(), seq!['\n']));
        assert(parts[0] + seq!['\n'] + spec_join(parts.drop_first(), seq!['\n']) =~= spec_join(
            parts,
            seq!['\n'],
        ));
        lemma_lines_of_join(parts.drop_first());
        assert(spec_lines(spec_join(parts, seq!['\n'])) =~~= parts);
    }
}

/// Joins strings with a separator, per `spec_join`.
pub fn join_strings(parts: &Vec<String>, sep: &str) -> (r: String)
    ensures
        r@ == spec_join(parts.deep_view(), sep@),
{
    let ghost all = parts.deep_view();
    let mut r = String::new();
    let mut i: usize = 0;
    while i < parts.len()
        invariant
            i <= parts.len(),
            all == parts.deep_view(),
            r@ == spec_join(all.subrange(0, i as int), sep@),
        decreases parts.len() - i,
    {
        proof {
            assert(all.subrange(0, i + 1).drop_last() =~~= all.subrange(0, i as int));
            assert(all.subrange(0, i + 1).last() == parts@[i as int]@);
        }
        if i > 0 {
            r.append(sep);
        }
        r.append(parts[i].as_str());
        i = i + 1;
    }
    proof {
        assert(all.subrange(0, parts.len() as int) =~~= all);
    }
    r
}

/// After a push, the deep view of a string vector has grown by exactly
/// the view of the new element.
pub proof fn lemma_string_push_deep_view(pre: Vec<String>, post: Vec<String>, s: String)
    requires
        post@ == pre@.push(s),
    ensures
        post.deep_view() == pre.deep_view().push(s@),
{
    assert forall|j: int| 0 <= j < post@.len() implies post.deep_view()[j] == pre.deep_view().push(
        s@,
    )[j] by {
        assert(post.deep_view()[j] == post@[j].deep_view());
        if j < pre@.len() {
            assert(post@[j] == pre@[j]);
            assert(pre.deep_view()[j] == pre@[j].deep_view());
        }
    }
    assert(post.deep_view() =~= pre.deep_view().push(s@));
}

/// Character-by-character string equality.
pub fn str_eq(a: &str, b: &str) -> (r: bool)
    ensures
        r == (a@ == b@),
{
    let na = a.unicode_len();
    let nb = b.unicode_len();
    if na != nb {
        return false;
    }
    let mut i: usize = 0;
    while i < na
        invariant
            na == a@.len(),
            na == b@.len(),
            i <= na,
            forall|j: int| 0 <= j < i ==> a@[j] == b@[j],
        decreases na - i,
    {
        if a.get_char(i) != b.get_char(i) {
            return false;
        }
        i = i + 1;
    }
    proof {
        assert(a@ =~= b@);
    }
    true
}

/// The character for one decimal digit.
pub open spec fn digit_char(d: nat) -> char {
    if d == 0 {
        '0'
    } else if d == 1 {
        '1'
    } else if d == 2 {
        '2'
    } else if d == 3 {
        '3'
    } else if d == 4 {
        '4'
    } else if d == 5 {
        '5'
    } else if d == 6 {
        '6'
    } else if d == 7 {
        '7'
    } else if d == 8 {
        '8'
    } else {
        '9'
    }
}

/// The usual decimal form of a number: no sign, no leading zero except
/// on zero itself.
pub open spec fn spec_decimal(n: nat) -> Seq<char>
    decreases n,
{
    if n < 10 {
        seq![digit_char(n)]
    } else {
        spec_decimal(n / 10) + seq![digit_char(n % 10)]
    }
}

fn digit_str(d: usize) -> (r: &'static str)
    requires
        d < 10,
    ensures
        r@ == seq![digit_char(d as nat)],
{
    match d {
        0 => {
            proof {
                reveal_strlit("0");
                assert("0"@ =~= seq![digit_char(d as nat)]);
            }
            "0"
        },
        1 => {
            proof {
                reveal_strlit("1");
                assert("1"@ =~= seq![digit_char(d as nat)]);
            }
            "1"
        },
        2 => {
            proof {
                reveal_strlit("2");
                assert("2"@ =~= seq![digit_char(d as nat)]);
            }
            "2"
        },
        3 => {
            proof {
                reveal_strlit("3");
                assert("3"@ =~= seq![digit_char(d as nat)]);
            }
            "3"
        },
        4 => {
            proof {
                reveal_strlit("4");
                assert("4"@ =~= seq![digit_char(d as nat)]);
            }
            "4"
        },
        5 => {
            proof {
                reveal_strlit("5");
                assert("5"@ =~= seq![digit_char(d as nat)]);
            }
            "5"
        },
        6 => {
            proof {
                reveal_strlit("6");
                assert("6"@ =~= seq![digit_char(d as nat)]);
            }
            "6"
        },
        7 => {
            proof {
                reveal_strlit("7");
                assert("7"@ =~= seq![digit_char(d as nat)]);
            }
            "7"
        },
        8 => {
            proof {
                reveal_strlit("8");
                assert("8"@ =~= seq![digit_char(d as nat)]);
            }
            "8"
        },
        _ => {
            proof {
                reveal_strlit("9");
                assert("9"@ =~= seq![digit_char(d as nat)]);
            }
            "9"
        },
    }
}

/// Renders a number in decimal, per `spec_decimal`.
pub fn decimal_string(n: usize) -> (r: String)
    ensures
        r@ == spec_decimal(n as nat),
    decreases n,
{
    if n < 10 {
        digit_str(n).to_owned()
    } else {
        let mut r = decimal_string(n / 10);
        r.append(digit_str(n % 10));
        r
    }
}

pub open spec fn is_digit(c: char) -> bool {
    '0' as int <= c as int && c as int <= '9' as int
}

pub open spec fn digit_val(c: char) -> nat {
    (c as int - '0' as int) as nat
}

pub open spec fn all_digits(s: Seq<char>) -> bool {
    forall|i: int| 0 <= i < s.len() ==> is_digit(#[trigger] s[i])
}

/// The number a digit string denotes, most significant digit first.
pub open spec fn spec_parse_digits(s: Seq<char>) -> nat
    decreases s.len(),
{
    if s.len() == 0 {
        0
    } else {
        spec_parse_digits(s.drop_last()) * 10 + digit_val(s.last())
    }
}

/// The index an argument denotes: the value of a non-empty plain digit
/// string whose value fits in `usize`; anything else falls back to
/// zero.
pub open spec fn spec_index_value(s: Seq<char>) -> nat {
    if s.len() > 0 && all_digits(s) && spec_parse_digits(s) <= usize::MAX as nat {
        spec_parse_digits(s)
    } else {
        0
    }
}

proof fn lemma_parse_prefix_monotone(s: Seq<char>, i: int, j: int)
    requires
        0 <= i <= j <= s.len(),
    ensures
        spec_parse_digits(s.subrange(0, i)) <= spec_parse_digits(s.subrange(0, j)),
    decreases j - i,
{
    if i < j {
        lemma_parse_prefix_monotone(s, i, j - 1);
        assert(s.subrange(0, j).drop_last() =~= s.subrange(0, j - 1));
        let p = spec_parse_digits(s.subrange(0, j - 1));
        assert(p <= p * 10) by (nonlinear_arith);
    }
}

/// Reads an index argument, per `spec_index_value`.
pub fn parse_index(s: &str) -> (r: usize)
    ensures
        r as nat == spec_index_value(s@),
{
    let n = s.unicode_len();
    if n == 0 {
        return 0;
    }
    let mut i: usize = 0;
    let mut acc: usize = 0;
    while i < n
        invariant
            n == s@.len(),
            0 < n,
            i <= n,
            all_digits(s@.subrange(0, i as int)),
            acc as nat == spec_parse_digits(s@.subrange(0, i as int)),
        decreases n - i,
    {
        let c = s.get_char(i);
        let u = c as u32;
        if u < 48 || u > 57 {
            proof {
                assert(!is_digit(s@[i as int]));
                assert(!all_digits(s@));
            }
            return 0;
        }
        let d = (u - 48) as usize;
        proof {
            assert(s@.subrange(0, i + 1).drop_last() =~= s@.subrange(0, i as int));
            assert(s@.subrange(0, i + 1).last() == s@[i as int]);
            assert(digit_val(s@[i as int]) == d as nat);
        }
        if acc > (usize::MAX - d) / 10 {
            proof {
                let m = usize::MAX as int;
                assert(acc * 10 + d > m) by (nonlinear_arith)
                    requires
                        acc > (m - d) / 10,
                        0 <= d < 10,
                        m == usize::MAX as int,
                ;
                lemma_parse_prefix_monotone(s@, i + 1, s@.len() as int);
                assert(s@.subrange(0, s@.len() as int) =~= s@);
            }
            return 0;
        }
        proof {
            let m = usize::MAX as int;
            assert(acc * 10 + d <= m) by (nonlinear_arith)
                requires
                    acc <= (m - d) / 10,
                    0 <= d < 10,
                    m == usize::MAX as int,
            ;
            assert(forall|k: int| 0 <= k < i + 1 ==> is_digit(#[trigger] s@.subrange(0, i + 1)[k]));
        }
        acc = acc * 10 + d;
        i = i + 1;
    }
    proof {
        assert(s@.subrange(0, n as int) =~= s@);
    }
    acc
}

} // verus!
