//! The small text functions that the rest of the library is written with.

use vstd::prelude::*;
use vstd::string::*;

verus! {

broadcast use vstd::string::group_string_axioms;

/// The characters with Unicode's `White_Space` property.
pub open spec fn white_space(c: char) -> bool {
    ||| 0x9 <= c as u32 <= 0xd
    ||| c as u32 == 0x20
    ||| c as u32 == 0x85
    ||| c as u32 == 0xa0
    ||| c as u32 == 0x1680
    ||| 0x2000 <= c as u32 <= 0x200a
    ||| c as u32 == 0x2028
    ||| c as u32 == 0x2029
    ||| c as u32 == 0x202f
    ||| c as u32 == 0x205f
    ||| c as u32 == 0x3000
}

/// A text of nothing but white space.
pub open spec fn blank(s: Seq<char>) -> bool {
    forall|i: int| 0 <= i < s.len() ==> white_space(#[trigger] s[i])
}

/// A text without the white space that it starts with.
pub open spec fn without_leading(s: Seq<char>) -> Seq<char>
    decreases s.len(),
{
    if s.len() > 0 && white_space(s[0]) {
        without_leading(s.drop_first())
    } else {
        s
    }
}

/// A text without the white space that it ends with.
pub open spec fn without_trailing(s: Seq<char>) -> Seq<char>
    decreases s.len(),
{
    if s.len() > 0 && white_space(s.last()) {
        without_trailing(s.drop_last())
    } else {
        s
    }
}

/// A text without the white space at its two ends.
pub open spec fn trimmed(s: Seq<char>) -> Seq<char> {
    without_trailing(without_leading(s))
}

/// Whether `c` is white space.
pub fn is_white_space(c: char) -> (r: bool)
    ensures
        r == white_space(c),
{
    let code: u32 = c as u32;
    (0x9 <= code && code <= 0xd) || code == 0x20 || code == 0x85 || code == 0xa0 || code == 0x1680
        || (0x2000 <= code && code <= 0x200a) || code == 0x2028 || code == 0x2029 || code == 0x202f
        || code == 0x205f || code == 0x3000
}

/// Whether `s` is empty or all white space.
pub fn is_blank(s: &str) -> (r: bool)
    ensures
        r == blank(s@),
{
    for c in iter: s.chars()
        invariant
            iter.seq() == s@,
            blank(s@.take(iter.index() as int)),
    {
        if !is_white_space(c) {
            assert(!white_space(s@[iter.index() as int]));
            return false;
        }
        assert(s@.take(iter.index() as int + 1) =~= s@.take(iter.index() as int).push(c));
    }
    assert(s@.take(s@.len() as int) =~= s@);
    true
}

proof fn lemma_without_leading(s: Seq<char>, from: int)
    requires
        0 <= from <= s.len(),
        blank(s.take(from)),
        from < s.len() ==> !white_space(s[from]),
    ensures
        without_leading(s) == s.skip(from),
    decreases from,
{
    if from > 0 {
        assert(s.take(from)[0] == s[0]);
        let rest = s.drop_first();
        assert(blank(rest.take(from - 1))) by {
            assert forall|i: int| 0 <= i < from - 1 implies white_space(
                #[trigger] rest.take(from - 1)[i],
            ) by {
                assert(s.take(from)[i + 1] == s[i + 1]);
            }
        }
        lemma_without_leading(rest, from - 1);
        assert(rest.skip(from - 1) =~= s.skip(from));
    } else {
        assert(s.skip(0) =~= s);
    }
}

proof fn lemma_without_trailing(s: Seq<char>, to: int)
    requires
        0 <= to <= s.len(),
        blank(s.skip(to)),
        to > 0 ==> !white_space(s[to - 1]),
    ensures
        without_trailing(s) == s.take(to),
    decreases s.len() - to,
{
    if to < s.len() {
        assert(s.skip(to)[s.len() - 1 - to] == s.last());
        let rest = s.drop_last();
        assert(blank(rest.skip(to))) by {
            assert forall|i: int| 0 <= i < rest.len() - to implies white_space(
                #[trigger] rest.skip(to)[i],
            ) by {
                assert(s.skip(to)[i] == s[i + to]);
            }
        }
        lemma_without_trailing(rest, to);
        assert(rest.take(to) =~= s.take(to));
    } else {
        assert(s.take(to) =~= s);
    }
}

/// The part of `s` between the white space at its two ends.
pub fn trim(s: &str) -> (r: &str)
    ensures
        r@ == trimmed(s@),
{
    let mut from: usize = 0;
    let mut to: usize = 0;
    let mut at: usize = 0;
    let len = s.unicode_len();
    for c in iter: s.chars()
        invariant
            iter.seq() == s@,
            len == s@.len(),
            at == iter.index(),
            from <= to <= at <= len,
            to == 0 ==> from == 0 && blank(s@.take(at as int)),
            to > 0 ==> {
                &&& blank(s@.take(from as int))
                &&& !white_space(s@[from as int])
                &&& !white_space(s@[to - 1])
                &&& from < to
            },
            forall|i: int| to <= i < at ==> white_space(#[trigger] s@[i]),
    {
        if !is_white_space(c) {
            if to == 0 {
                from = at;
            }
            to = at + 1;
        }
        proof {
            assert(s@.take(at as int + 1) =~= s@.take(at as int).push(c));
        }
        at = at + 1;
    }
    proof {
        let rest = s@.skip(from as int);
        if to == 0 {
            assert(s@.take(s@.len() as int) =~= s@);
            lemma_without_leading(s@, s@.len() as int);
            assert(s@.skip(s@.len() as int) =~= Seq::<char>::empty());
        } else {
            lemma_without_leading(s@, from as int);
            assert forall|i: int| 0 <= i < rest.skip(to - from).len() implies white_space(
                #[trigger] rest.skip(to - from)[i],
            ) by {
                assert(rest.skip(to - from)[i] == s@[i + to]);
            }
            lemma_without_trailing(rest, to - from);
            assert(rest.take(to - from) =~= s@.subrange(from as int, to as int));
        }
    }
    s.substring_char(from, to)
}

/// Whether two texts are the same.
pub fn same_text(a: &str, b: &str) -> (r: bool)
    ensures
        r == (a@ == b@),
{
    let mut left = a.chars();
    let mut right = b.chars();
    let ghost mut at: int = 0;
    loop
        invariant
            0 <= at <= a@.len(),
            at <= b@.len(),
            vstd::std_specs::iter::IteratorSpec::remaining(&left) == a@.skip(at),
            vstd::std_specs::iter::IteratorSpec::remaining(&right) == b@.skip(at),
            vstd::std_specs::iter::IteratorSpec::obeys_prophetic_iter_laws(&left),
            vstd::std_specs::iter::IteratorSpec::obeys_prophetic_iter_laws(&right),
            a@.take(at) == b@.take(at),
        decreases a@.len() - at,
    {
        match (left.next(), right.next()) {
            (Some(x), Some(y)) => {
                if x != y {
                    assert(a@[at] != b@[at]);
                    return false;
                }
                proof {
                    assert(a@.skip(at).drop_first() =~= a@.skip(at + 1));
                    assert(b@.skip(at).drop_first() =~= b@.skip(at + 1));
                    assert(a@.take(at + 1) =~= a@.take(at).push(x));
                    assert(b@.take(at + 1) =~= b@.take(at).push(y));
                    at = at + 1;
                }
            },
            (None, None) => {
                assert(a@.take(at) =~= a@);
                assert(b@.take(at) =~= b@);
                return true;
            },
            _ => {
                assert(a@.len() != b@.len());
                return false;
            },
        }
    }
}

/// The part of an identifier before its first colon, or all of it where it has
/// none.
pub open spec fn before_colon(s: Seq<char>) -> Seq<char>
    decreases s.len(),
{
    if s.len() == 0 || s[0] == ':' {
        Seq::empty()
    } else {
        seq![s[0]] + before_colon(s.drop_first())
    }
}

/// `before_colon` ends where the first colon stands, or at the end.
pub proof fn lemma_before_colon(s: Seq<char>, end: int)
    requires
        0 <= end <= s.len(),
        forall|i: int| 0 <= i < end ==> s[i] != ':',
        end < s.len() ==> s[end] == ':',
    ensures
        before_colon(s) == s.take(end),
    decreases end,
{
    if end > 0 {
        lemma_before_colon(s.drop_first(), end - 1);
        assert(seq![s[0]] + s.drop_first().take(end - 1) =~= s.take(end));
    } else {
        assert(s.take(0) =~= Seq::<char>::empty());
    }
}

/// The part of `s` before its first colon, or all of it.
pub fn until_colon(s: &str) -> (r: &str)
    ensures
        r@ == before_colon(s@),
{
    let mut at: usize = 0;
    let len = s.unicode_len();
    for c in iter: s.chars()
        invariant
            iter.seq() == s@,
            len == s@.len(),
            at == iter.index(),
            at <= len,
            forall|i: int| 0 <= i < at ==> s@[i] != ':',
    {
        if c == ':' {
            proof {
                lemma_before_colon(s@, at as int);
                assert(s@.subrange(0, at as int) =~= s@.take(at as int));
            }
            return s.substring_char(0, at);
        }
        at = at + 1;
    }
    proof {
        lemma_before_colon(s@, at as int);
        assert(s@.take(at as int) =~= s@);
    }
    s
}

/// The decimal digits of a number.
pub open spec fn digits(n: nat) -> Seq<char>
    decreases n,
{
    let last = ('0' as int + n % 10) as char;
    if n < 10 {
        seq![last]
    } else {
        digits(n / 10).push(last)
    }
}

/// A number in decimal notation.
pub open spec fn decimal(n: int) -> Seq<char> {
    if n < 0 {
        seq!['-'] + digits((-n) as nat)
    } else {
        digits(n as nat)
    }
}

fn digit(d: u64) -> (r: &'static str)
    requires
        d < 10,
    ensures
        r@ == seq![('0' as int + d) as char],
{
    proof {
        reveal_strlit("0");
        reveal_strlit("1");
        reveal_strlit("2");
        reveal_strlit("3");
        reveal_strlit("4");
        reveal_strlit("5");
        reveal_strlit("6");
        reveal_strlit("7");
        reveal_strlit("8");
        reveal_strlit("9");
    }
    if d == 0 {
        "0"
    } else if d == 1 {
        "1"
    } else if d == 2 {
        "2"
    } else if d == 3 {
        "3"
    } else if d == 4 {
        "4"
    } else if d == 5 {
        "5"
    } else if d == 6 {
        "6"
    } else if d == 7 {
        "7"
    } else if d == 8 {
        "8"
    } else {
        "9"
    }
}

/// `n` in decimal notation.
pub fn unsigned_decimal(n: u64) -> (r: String)
    ensures
        r@ == digits(n as nat),
    decreases n,
{
    let last = digit(n % 10);
    if n < 10 {
        last.to_string()
    } else {
        let mut text = unsigned_decimal(n / 10);
        text.append(last);
        assert(text@ =~= digits(n as nat));
        text
    }
}

/// `n` in decimal notation.
pub fn signed_decimal(n: i64) -> (r: String)
    ensures
        r@ == decimal(n as int),
{
    if n < 0 {
        let magnitude: u64 = (-(n + 1)) as u64 + 1;
        proof {
            reveal_strlit("-");
        }
        let mut text = "-".to_string();
        text.append(unsigned_decimal(magnitude).as_str());
        assert(text@ =~= decimal(n as int));
        text
    } else {
        unsigned_decimal(n as u64)
    }
}

/// A text is blank exactly where trimming it leaves nothing.
pub proof fn law_blank_is_trimmed_away(s: Seq<char>)
    ensures
        blank(s) <==> trimmed(s).len() == 0,
{
    law_trimmed(s);
    let (before, after) = choose|before: Seq<char>, after: Seq<char>|
        {
            &&& s == #[trigger] (before + trimmed(s) + after)
            &&& blank(before)
            &&& blank(after)
        };
    if trimmed(s).len() > 0 {
        assert(s[before.len() as int] == trimmed(s)[0]);
    } else {
        assert forall|i: int| 0 <= i < s.len() implies white_space(#[trigger] s[i]) by {
            if i < before.len() {
                assert(s[i] == before[i]);
            } else {
                assert(s[i] == after[i - before.len()]);
            }
        }
    }
}

/// Trimming takes white space off both ends, and leaves a text that neither
/// starts nor ends with any.
pub proof fn law_trimmed(s: Seq<char>)
    ensures
        exists|before: Seq<char>, after: Seq<char>|
            {
                &&& s == #[trigger] (before + trimmed(s) + after)
                &&& blank(before)
                &&& blank(after)
            },
        trimmed(s).len() > 0 ==> !white_space(trimmed(s)[0]) && !white_space(trimmed(s).last()),
{
    let before = lemma_leading(s);
    let rest = without_leading(s);
    let after = lemma_trailing(rest);
    assert(s =~= before + trimmed(s) + after);
    if trimmed(s).len() > 0 {
        assert(trimmed(s)[0] == rest[0]);
    }
}

proof fn lemma_leading(s: Seq<char>) -> (before: Seq<char>)
    ensures
        s == before + without_leading(s),
        blank(before),
        without_leading(s).len() > 0 ==> !white_space(without_leading(s)[0]),
    decreases s.len(),
{
    if s.len() > 0 && white_space(s[0]) {
        let more = lemma_leading(s.drop_first());
        let before = seq![s[0]] + more;
        assert(s =~= before + without_leading(s)) by {
            assert(s =~= seq![s[0]] + s.drop_first());
        }
        before
    } else {
        assert(s =~= Seq::<char>::empty() + s);
        Seq::empty()
    }
}

proof fn lemma_trailing(s: Seq<char>) -> (after: Seq<char>)
    ensures
        s == without_trailing(s) + after,
        blank(after),
        without_trailing(s).len() > 0 ==> !white_space(without_trailing(s).last()),
    decreases s.len(),
{
    if s.len() > 0 && white_space(s.last()) {
        let more = lemma_trailing(s.drop_last());
        let after = more.push(s.last());
        assert(s =~= without_trailing(s) + after) by {
            assert(s =~= s.drop_last().push(s.last()));
        }
        after
    } else {
        assert(s =~= s + Seq::<char>::empty());
        Seq::empty()
    }
}

/// Trimming a trimmed text changes nothing.
pub proof fn law_trimmed_once(s: Seq<char>)
    ensures
        trimmed(trimmed(s)) == trimmed(s),
{
    law_trimmed(s);
}

/// A text without a colon is all of what stands before a colon that follows it.
pub proof fn lemma_colon_after(head: Seq<char>, tail: Seq<char>)
    requires
        !head.contains(':'),
    ensures
        before_colon(head + seq![':'] + tail) == head,
        before_colon(head) == head,
{
    let all = head + seq![':'] + tail;
    assert forall|i: int| 0 <= i < head.len() implies head[i] != ':' && all[i] != ':' by {
        assert(head.contains(head[i]));
        assert(all[i] == head[i]);
    }
    assert(all[head.len() as int] == ':');
    lemma_before_colon(all, head.len() as int);
    assert(all.take(head.len() as int) =~= head);
    lemma_before_colon(head, head.len() as int);
    assert(head.take(head.len() as int) =~= head);
}

proof fn lemma_digits(n: nat)
    ensures
        digits(n).len() >= 1,
        n >= 10 ==> digits(n).len() >= 2,
        forall|i: int| 0 <= i < digits(n).len() ==> '0' <= #[trigger] digits(n)[i] <= '9',
    decreases n,
{
    if n >= 10 {
        lemma_digits(n / 10);
    }
}

proof fn lemma_digits_differ(a: nat, b: nat)
    requires
        digits(a) == digits(b),
    ensures
        a == b,
    decreases a,
{
    lemma_digits(a);
    lemma_digits(b);
    assert(digits(a).last() == ('0' as int + a % 10) as char);
    assert(digits(b).last() == ('0' as int + b % 10) as char);
    assert(a % 10 == b % 10);
    if a >= 10 && b >= 10 {
        assert(digits(a).drop_last() =~= digits(a / 10));
        assert(digits(b).drop_last() =~= digits(b / 10));
        lemma_digits_differ(a / 10, b / 10);
    }
}

/// Two numbers with the same decimal notation are the same, and the notation has
/// no colon in it.
pub proof fn law_decimal_is_injective(a: int, b: int)
    ensures
        decimal(a) == decimal(b) ==> a == b,
        !decimal(a).contains(':'),
{
    let x = if a < 0 {
        (-a) as nat
    } else {
        a as nat
    };
    let y = if b < 0 {
        (-b) as nat
    } else {
        b as nat
    };
    lemma_digits(x);
    lemma_digits(y);
    if decimal(a) == decimal(b) {
        assert(decimal(a)[0] == decimal(b)[0]);
        assert((a < 0) == (b < 0));
        if a < 0 {
            assert(decimal(a).skip(1) =~= digits(x));
            assert(decimal(b).skip(1) =~= digits(y));
        }
        lemma_digits_differ(x, y);
    }
    if decimal(a).contains(':') {
        let i = choose|i: int| 0 <= i < decimal(a).len() && decimal(a)[i] == ':';
        if a < 0 {
            assert(decimal(a)[i] == digits(x)[i - 1]);
        }
    }
}

/// The number that a run of decimal digits stands for.
pub open spec fn value_of_digits(s: Seq<char>) -> int
    decreases s.len(),
{
    if s.len() == 0 {
        0
    } else {
        value_of_digits(s.drop_last()) * 10 + (s.last() as int - '0' as int)
    }
}

/// The digits of a number stand for that number, and the first of them is no zero,
/// unless there is no other; a number below zero has a minus sign before them.
pub proof fn law_decimal_stands_for_its_number(n: int)
    ensures
        n >= 0 ==> value_of_digits(decimal(n)) == n,
        n < 0 ==> decimal(n).len() > 0 && decimal(n)[0] == '-' && value_of_digits(
            decimal(n).skip(1),
        ) == -n,
        n > 0 ==> decimal(n)[0] != '0',
{
    if n >= 0 {
        lemma_digits_value(n as nat);
    } else {
        lemma_digits_value((-n) as nat);
        assert(decimal(n).skip(1) =~= digits((-n) as nat));
    }
}

proof fn lemma_digits_value(n: nat)
    ensures
        digits(n).len() > 0,
        value_of_digits(digits(n)) == n,
        n > 0 ==> digits(n)[0] != '0',
    decreases n,
{
    let last = ('0' as int + n % 10) as char;
    assert(last as int == '0' as int + n % 10);
    if n >= 10 {
        lemma_digits_value(n / 10);
        assert(digits(n).drop_last() =~= digits(n / 10));
    } else {
        assert(digits(n).drop_last() =~= Seq::empty());
        assert(value_of_digits(digits(n).drop_last()) == 0);
    }
}

/// What stands before the first colon of a text is its longest start without one.
pub proof fn law_before_colon(s: Seq<char>)
    ensures
        before_colon(s).is_prefix_of(s),
        !before_colon(s).contains(':'),
        before_colon(s).len() < s.len() ==> s[before_colon(s).len() as int] == ':',
    decreases s.len(),
{
    if s.len() > 0 && s[0] != ':' {
        let rest = s.drop_first();
        law_before_colon(rest);
        let before = before_colon(rest);
        let whole = before_colon(s);
        assert forall|i: int| 0 <= i < whole.len() implies whole[i] == s[i] && whole[i] != ':' by {
            if i > 0 {
                assert(whole[i] == before[i - 1]);
                assert(before[i - 1] == rest.subrange(0, before.len() as int)[i - 1]);
                assert(before.contains(before[i - 1]));
            }
        }
        assert(whole =~= s.subrange(0, whole.len() as int));
    } else {
        assert(before_colon(s) =~= s.subrange(0, 0));
    }
}

/// A text is blank where each of its characters is white space, however long it is.
pub proof fn law_blank_is_all_white_space(s: Seq<char>)
    ensures
        blank(s) <==> forall|i: int| 0 <= i < s.len() ==> white_space(#[trigger] s[i]),
        blank(Seq::empty()),
{
}

/// White space is the tab and the four characters after it, the space, and the other
/// spaces and line ends of Unicode; no letter, digit or sign is among it.
pub proof fn law_white_space(c: char)
    ensures
        white_space(c) <==> {
            let code = c as int;
            ||| 9 <= code <= 13
            ||| code == 32
            ||| code == 133
            ||| code == 160
            ||| code == 5760
            ||| 8192 <= code <= 8202
            ||| code == 8232
            ||| code == 8233
            ||| code == 8239
            ||| code == 8287
            ||| code == 12288
        },
{
}

} // verus!
