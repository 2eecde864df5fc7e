//! Text operations that the registers are built from.

use vstd::prelude::*;
use vstd::std_specs::iter::IteratorSpec;
use vstd::string::*;
use vstd::utf8::*;

verus! {

/// The fragments of `values` written one after another, with `sep` between
/// each two neighbours.
pub open spec fn joined(values: Seq<Seq<char>>, sep: Seq<char>) -> Seq<char>
    decreases values.len(),
{
    if values.len() == 0 {
        Seq::empty()
    } else if values.len() == 1 {
        values[0]
    } else {
        joined(values.drop_last(), sep) + sep + values.last()
    }
}

/// Joins `values` into one text, placing `sep` between each two neighbours.
pub fn join(values: &[String], sep: &str) -> (text: String)
    ensures
        text@ == joined(values.deep_view(), sep@),
{
    let mut text = String::new();
    let mut i: usize = 0;
    while i < values.len()
        invariant
            i <= values.len(),
            text@ == joined(values.deep_view().take(i as int), sep@),
        decreases values.len() - i,
    {
        proof {
            let next = values.deep_view().take(i + 1);
            assert(next.drop_last() == values.deep_view().take(i as int));
            assert(next.last() == values[i as int]@);
        }
        if i > 0 {
            text.append(sep);
        }
        text.append(values[i].as_str());
        i += 1;
    }
    proof {
        assert(values.deep_view().take(i as int) == values.deep_view());
    }
    text
}

/// Whether `text` is still what `saved` was joined to: `saved` holds a value
/// and `text` starts with the values of `saved` joined by `sep`. What follows
/// them in `text` is not looked at.
pub open spec fn saved_matches(saved: Seq<Seq<char>>, sep: Seq<char>, text: Seq<char>) -> bool {
    saved.len() > 0 && joined(saved, sep).is_prefix_of(text)
}

/// The digit that stands for `d`.
pub open spec fn digit(d: int) -> char {
    if d == 0 {
        '0'
    } else if d == 1 {
        '1'
    } else if d == 2 {
        '2'
    } else if d == 3 {
        '3'
    } else if d == 4 {
        '4'
    } else if d == 5 {
        '5'
    } else if d == 6 {
        '6'
    } else if d == 7 {
        '7'
    } else if d == 8 {
        '8'
    } else {
        '9'
    }
}

/// `n` in decimal notation, without leading zeros.
pub open spec fn decimal(n: nat) -> Seq<char>
    decreases n,
{
    if n < 10 {
        seq![digit(n as int)]
    } else {
        decimal(n / 10).push(digit((n % 10) as int))
    }
}

/// The index of the first line feed of `text`, or the length of `text` where
/// it holds none.
pub open spec fn line_end(text: Seq<char>) -> nat
    decreases text.len(),
{
    if text.len() == 0 || text[0] == '\n' {
        0
    } else {
        1 + line_end(text.drop_first())
    }
}

/// The first line of `text`, without its line ending: what stands before the
/// first line feed and, where a carriage return stands right before that line
/// feed, before the carriage return. A text without a line feed is its own
/// first line.
pub open spec fn first_line(text: Seq<char>) -> Seq<char> {
    let n = line_end(text) as int;
    if 0 < n < text.len() && text[n - 1] == '\r' {
        text.take(n - 1)
    } else {
        text.take(n)
    }
}

/// Encoding a concatenation gives the concatenation of the encodings.
pub proof fn lemma_encode_concat(a: Seq<char>, b: Seq<char>)
    ensures
        encode_utf8(a + b) == encode_utf8(a) + encode_utf8(b),
    decreases a.len(),
{
    if a.len() == 0 {
        assert(a + b == b);
    } else {
        assert((a + b).drop_first() == a.drop_first() + b);
        lemma_encode_concat(a.drop_first(), b);
    }
}

/// A text whose encoding starts another text's encoding starts that text.
pub proof fn lemma_encoded_prefix(p: Seq<char>, t: Seq<char>)
    requires
        encode_utf8(p).is_prefix_of(encode_utf8(t)),
    ensures
        p.is_prefix_of(t),
    decreases p.len(),
{
    if p.len() > 0 {
        let ep = encode_utf8(p);
        let et = encode_utf8(t);
        encode_utf8_first_scalar(p);
        assert(ep.len() > 0);
        assert(t.len() > 0);
        encode_utf8_first_scalar(t);
        assert(forall|j: int| 0 <= j < ep.len() ==> ep[j] == et.subrange(0, ep.len() as int)[j]);
        assert(ep[0] == et[0]);
        assert(decode_first_scalar(ep) == decode_first_scalar(et));
        char_u32_cast(p[0], decode_first_scalar(ep));
        char_u32_cast(t[0], decode_first_scalar(et));
        assert(p[0] == t[0]);
        let k = encode_scalar(p[0] as u32).len() as int;
        let rp = encode_utf8(p.drop_first());
        let rt = encode_utf8(t.drop_first());
        assert(ep.subrange(k, ep.len() as int) == rp);
        assert(et.subrange(k, et.len() as int) == rt);
        assert(rp == rt.subrange(0, rp.len() as int));
        lemma_encoded_prefix(p.drop_first(), t.drop_first());
        assert(p == t.subrange(0, p.len() as int)) by {
            assert(forall|j: int| 0 < j < p.len() ==> p[j] == p.drop_first()[j - 1]);
        }
    }
}

/// A text starts with `p` exactly when its encoding starts with that of `p`.
pub proof fn lemma_prefix_encoded(p: Seq<char>, t: Seq<char>)
    ensures
        p.is_prefix_of(t) <==> encode_utf8(p).is_prefix_of(encode_utf8(t)),
{
    if p.is_prefix_of(t) {
        let rest = t.subrange(p.len() as int, t.len() as int);
        assert(t == p + rest);
        lemma_encode_concat(p, rest);
    }
    if encode_utf8(p).is_prefix_of(encode_utf8(t)) {
        lemma_encoded_prefix(p, t);
    }
}

/// Joining one value more appends the separator and that value.
pub proof fn lemma_joined_step(values: Seq<Seq<char>>, sep: Seq<char>, i: int)
    requires
        1 <= i < values.len(),
    ensures
        joined(values.take(i + 1), sep) == joined(values.take(i), sep) + sep + values[i],
{
    assert(values.take(i + 1).drop_last() == values.take(i));
}

/// The join of the first `k` values starts the join of them all.
pub proof fn lemma_joined_take(values: Seq<Seq<char>>, sep: Seq<char>, k: int)
    requires
        1 <= k <= values.len(),
    ensures
        joined(values.take(k), sep).is_prefix_of(joined(values, sep)),
    decreases values.len() - k,
{
    if k == values.len() {
        assert(values.take(k) == values);
    } else {
        lemma_joined_take(values, sep, k + 1);
        lemma_joined_step(values, sep, k);
    }
}

/// Where the first `at` bytes of `text` encode `head`, the text goes on with
/// the encodings of `sep` and `value` exactly when it starts with the encoding
/// of `head`, `sep` and `value` in a row.
pub proof fn lemma_match_step(
    text: Seq<u8>,
    at: int,
    head: Seq<char>,
    sep: Seq<char>,
    value: Seq<char>,
)
    requires
        0 <= at <= text.len(),
        text.subrange(0, at) == encode_utf8(head),
    ensures
        encode_utf8(head + sep + value).len() == at + encode_utf8(sep).len() + encode_utf8(
            value,
        ).len(),
        encode_utf8(head + sep + value).is_prefix_of(text) <==> {
            let es = encode_utf8(sep);
            let ev = encode_utf8(value);
            &&& at + es.len() + ev.len() <= text.len()
            &&& text.subrange(at, at + es.len()) == es
            &&& text.subrange(at + es.len(), at + es.len() + ev.len()) == ev
        },
{
    let eh = encode_utf8(head);
    let es = encode_utf8(sep);
    let ev = encode_utf8(value);
    let whole = encode_utf8(head + sep + value);
    lemma_encode_concat(head, sep);
    lemma_encode_concat(head + sep, value);
    assert(whole == eh + es + ev);
    assert(eh.len() == at);
    let end = at + es.len() + ev.len();
    if end <= text.len() {
        let cut = text.subrange(0, end);
        if whole.is_prefix_of(text) {
            assert(text.subrange(at, at + es.len()) == es) by {
                assert forall|j: int| 0 <= j < es.len() implies text[at + j] == es[j] by {
                    assert(cut[at + j] == whole[at + j]);
                }
            }
            assert(text.subrange(at + es.len(), end) == ev) by {
                assert forall|j: int| 0 <= j < ev.len() implies text[at + es.len() + j]
                    == ev[j] by {
                    assert(cut[at + es.len() + j] == whole[at + es.len() + j]);
                }
            }
        }
        if text.subrange(at, at + es.len()) == es && text.subrange(at + es.len(), end) == ev {
            assert(whole == cut) by {
                assert forall|j: int| 0 <= j < end implies whole[j] == cut[j] by {
                    if j < at {
                        assert(text.subrange(0, at)[j] == eh[j]);
                    } else if j < at + es.len() {
                        assert(text.subrange(at, at + es.len())[j - at] == es[j - at]);
                    } else {
                        assert(text.subrange(at + es.len(), end)[j - at - es.len()] == ev[j - at
                            - es.len()]);
                    }
                }
            }
        }
    }
}

/// Whether `pattern` stands in `text` at offset `at`.
pub fn starts_with_at(text: &[u8], at: usize, pattern: &[u8]) -> (found: bool)
    ensures
        found == (at + pattern@.len() <= text@.len() && text@.subrange(
            at as int,
            at + pattern@.len(),
        ) == pattern@),
{
    if at > text.len() || pattern.len() > text.len() - at {
        return false;
    }
    let mut i: usize = 0;
    while i < pattern.len()
        invariant
            i <= pattern.len(),
            at + pattern.len() <= text.len(),
            text@.subrange(at as int, at + i) == pattern@.take(i as int),
        decreases pattern.len() - i,
    {
        if text[at + i] != pattern[i] {
            proof {
                let whole = text@.subrange(at as int, at + pattern@.len());
                assert(whole[i as int] != pattern@[i as int]);
            }
            return false;
        }
        proof {
            assert(text@.subrange(at as int, at + i + 1) == text@.subrange(
                at as int,
                at + i,
            ).push(text@[at + i]));
            assert(pattern@.take(i + 1) == pattern@.take(i as int).push(pattern@[i as int]));
        }
        i += 1;
    }
    proof {
        assert(pattern@.take(i as int) == pattern@);
    }
    true
}

/// A copy of `values`, in the same order.
pub fn copied(values: &[String]) -> (copy: Vec<String>)
    ensures
        copy.deep_view() == values.deep_view(),
{
    let mut copy: Vec<String> = Vec::new();
    let mut i: usize = 0;
    while i < values.len()
        invariant
            i <= values.len(),
            copy@.len() == i,
            forall|j: int| 0 <= j < i ==> copy@[j]@ == values@[j]@,
        decreases values.len() - i,
    {
        copy.push(values[i].clone());
        i += 1;
    }
    proof {
        assert(copy.deep_view() == values.deep_view());
    }
    copy
}

/// A copy of `values`, the last value first.
pub fn copied_reversed(values: &[String]) -> (copy: Vec<String>)
    ensures
        copy.deep_view() == values.deep_view().reverse(),
{
    let mut copy: Vec<String> = Vec::new();
    let mut left: usize = values.len();
    while left > 0
        invariant
            left <= values.len(),
            copy@.len() == values.len() - left,
            forall|j: int| 0 <= j < copy@.len() ==> copy@[j]@ == values@[values.len() - 1 - j]@,
        decreases left,
    {
        left -= 1;
        copy.push(values[left].clone());
    }
    proof {
        assert(copy.deep_view() == values.deep_view().reverse());
    }
    copy
}

/// The values of `values`, the last value first.
pub fn reversed(values: Vec<String>) -> (turned: Vec<String>)
    ensures
        turned.deep_view() == values.deep_view().reverse(),
{
    let mut rest = values;
    let mut turned: Vec<String> = Vec::new();
    while rest.len() > 0
        invariant
            rest@.len() <= values@.len(),
            turned@.len() == values@.len() - rest@.len(),
            forall|j: int| 0 <= j < rest@.len() ==> rest@[j]@ == values@[j]@,
            forall|j: int|
                0 <= j < turned@.len() ==> turned@[j]@ == values@[values@.len() - 1 - j]@,
        decreases rest@.len(),
    {
        match rest.pop() {
            Some(value) => {
                turned.push(value);
            },
            None => {},
        }
    }
    proof {
        assert(turned.deep_view() == values.deep_view().reverse());
    }
    turned
}

/// The text of one digit.
fn digit_str(d: usize) -> (text: &'static str)
    requires
        d < 10,
    ensures
        text@ == seq![digit(d as int)],
{
    proof {
        reveal_strlit("0");
        reveal_strlit("1");
        reveal_strlit("2");
        reveal_strlit("3");
        reveal_strlit("4");
        reveal_strlit("5");
        reveal_strlit("6");
        reveal_strlit("7");
        reveal_strlit("8");
        reveal_strlit("9");
    }
    let text = if d == 0 {
        "0"
    } else if d == 1 {
        "1"
    } else if d == 2 {
        "2"
    } else if d == 3 {
        "3"
    } else if d == 4 {
        "4"
    } else if d == 5 {
        "5"
    } else if d == 6 {
        "6"
    } else if d == 7 {
        "7"
    } else if d == 8 {
        "8"
    } else {
        "9"
    };
    assert(text@ == seq![digit(d as int)]);
    text
}

/// `n` in decimal notation.
pub fn decimal_string(n: usize) -> (text: String)
    ensures
        text@ == decimal(n as nat),
    decreases n,
{
    let mut text = if n < 10 {
        String::new()
    } else {
        decimal_string(n / 10)
    };
    text.append(digit_str(n % 10));
    proof {
        if n < 10 {
            assert(text@ == seq![digit(n as int)]);
        }
    }
    text
}

/// The first line feed of a text stands where no line feed stands before.
pub proof fn lemma_line_end(text: Seq<char>, n: int)
    requires
        0 <= n <= text.len(),
        forall|j: int| 0 <= j < n ==> text[j] != '\n',
        n < text.len() ==> text[n] == '\n',
    ensures
        line_end(text) == n,
    decreases n,
{
    if n > 0 {
        lemma_line_end(text.drop_first(), n - 1);
    }
}

/// A text has no more characters than its encoding has bytes.
pub proof fn lemma_encode_len(text: Seq<char>)
    ensures
        text.len() <= encode_utf8(text).len(),
    decreases text.len(),
{
    if text.len() > 0 {
        lemma_encode_len(text.drop_first());
    }
}

/// The first line of `text`, without its line ending.
pub fn first_line_of(text: &str) -> (line: &str)
    ensures
        line@ == first_line(text@),
{
    let limit = text.as_bytes().len();
    proof {
        lemma_encode_len(text@);
        assert(text@.len() <= limit);
    }
    let mut chars = text.chars();
    let mut n: usize = 0;
    let mut after_return = false;
    let mut found = false;
    loop
        invariant_except_break
            !found,
            chars.remaining() == text@.skip(n as int),
        invariant
            n <= text@.len() <= usize::MAX,
            forall|j: int| 0 <= j < n ==> text@[j] != '\n',
            after_return == (n > 0 && text@[n - 1] == '\r'),
        ensures
            found ==> n < text@.len() && text@[n as int] == '\n',
            !found ==> n == text@.len(),
        decreases text@.len() - n,
    {
        match chars.next() {
            Some(c) => {
                assert(c == text@[n as int]);
                if c == '\n' {
                    found = true;
                    break ;
                }
                after_return = c == '\r';
                proof {
                    assert(text@.skip(n as int).drop_first() == text@.skip(n + 1));
                }
                n += 1;
            },
            None => {
                break ;
            },
        }
    }
    proof {
        lemma_line_end(text@, n as int);
    }
    let end = if found && after_return {
        n - 1
    } else {
        n
    };
    text.substring_char(0, end)
}

} // verus!
