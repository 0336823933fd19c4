//! Small text helpers shared by the importers and the emitters: comparing,
//! splitting at whitespace, writing numbers in decimal.

use vstd::prelude::*;
use vstd::std_specs::iter::IteratorSpec;

verus! {

/// Whether two string slices hold the same characters.
pub fn str_eq(a: &str, b: &str) -> (r: bool)
    ensures
        r == (a@ == b@),
{
    let mut left = a.chars();
    let mut right = b.chars();
    let ghost mut met: int = 0;
    loop
        invariant
            0 <= met <= a@.len(),
            met <= b@.len(),
            left.remaining() == a@.skip(met),
            right.remaining() == b@.skip(met),
            a@.take(met) == b@.take(met),
        decreases a@.len() - met,
    {
        let x = left.next();
        let y = right.next();
        match (x, y) {
            (Some(p), Some(q)) => {
                assert(p == a@[met] && q == b@[met]);
                if p != q {
                    return false;
                }
                proof {
                    assert(a@.skip(met).drop_first() =~= a@.skip(met + 1));
                    assert(b@.skip(met).drop_first() =~= b@.skip(met + 1));
                    assert(a@.take(met + 1) =~= a@.take(met).push(p));
                    assert(b@.take(met + 1) =~= b@.take(met).push(q));
                    met = met + 1;
                }
            },
            (None, None) => {
                assert(a@ =~= a@.take(met));
                assert(b@ =~= b@.take(met));
                return true;
            },
            _ => {
                assert(a@.len() != b@.len());
                return false;
            },
        }
    }
}

/// The characters with the Unicode property `White_Space`.
pub open spec fn is_whitespace(c: char) -> bool {
    let code = c as u32;
    ||| 0x09 <= code <= 0x0d
    ||| code == 0x20
    ||| code == 0x85
    ||| code == 0xa0
    ||| code == 0x1680
    ||| 0x2000 <= code <= 0x200a
    ||| code == 0x2028
    ||| code == 0x2029
    ||| code == 0x202f
    ||| code == 0x205f
    ||| code == 0x3000
}

/// Decides `is_whitespace`.
pub fn is_whitespace_char(c: char) -> (r: bool)
    ensures
        r == is_whitespace(c),
{
    let code: u32 = c as u32;
    (0x09 <= code && code <= 0x0d) || code == 0x20 || code == 0x85 || code == 0xa0 || code
        == 0x1680 || (0x2000 <= code && code <= 0x200a) || code == 0x2028 || code == 0x2029
        || code == 0x202f || code == 0x205f || code == 0x3000
}

/// The words of a text: its maximal runs of characters that are not
/// whitespace, in order.
pub open spec fn words(text: Seq<char>) -> Seq<Seq<char>>
    decreases text.len(),
{
    if text.len() == 0 {
        Seq::empty()
    } else {
        let earlier = words(text.drop_last());
        if is_whitespace(text.last()) {
            earlier
        } else if text.len() > 1 && !is_whitespace(text[text.len() - 2]) {
            earlier.drop_last().push(earlier.last().push(text.last()))
        } else {
            earlier.push(seq![text.last()])
        }
    }
}

/// A text that ends in a character that is no whitespace has a last word.
proof fn lemma_words_open(text: Seq<char>)
    requires
        text.len() > 0,
        !is_whitespace(text.last()),
    ensures
        words(text).len() > 0,
{
}

/// The characters of a text.
pub fn characters(text: &str) -> (chars: Vec<char>)
    ensures
        chars@ == text@,
{
    let mut chars: Vec<char> = Vec::new();
    for c in it: text.chars()
        invariant
            it.seq() == text@,
            chars@ == text@.take(it.index() as int),
    {
        assert(text@.take(it.index() + 1) =~= text@.take(it.index() as int).push(c));
        chars.push(c);
    }
    assert(text@.take(text@.len() as int) =~= text@);
    chars
}

/// Splits a text at whitespace. Leading and trailing whitespace yields no
/// empty words, nor do runs of whitespace in between.
pub fn split_whitespace(text: &str) -> (tokens: Vec<String>)
    ensures
        tokens@.len() == words(text@).len(),
        forall|k: int| 0 <= k < tokens@.len() ==> (#[trigger] tokens@[k])@ == words(text@)[k],
{
    let chars = characters(text);
    let mut tokens: Vec<String> = Vec::new();
    let mut start: usize = 0;
    let mut in_word = false;
    let mut i: usize = 0;
    while i < chars.len()
        invariant
            chars@ == text@,
            0 <= i <= chars.len(),
            in_word <==> i > 0 && !is_whitespace(text@[i - 1]),
            in_word ==> start < i,
            in_word ==> words(text@.take(i as int)).len() == tokens@.len() + 1,
            in_word ==> words(text@.take(i as int)).last() == text@.subrange(
                start as int,
                i as int,
            ),
            !in_word ==> words(text@.take(i as int)).len() == tokens@.len(),
            forall|k: int|
                0 <= k < tokens@.len() ==> (#[trigger] tokens@[k])@ == words(
                    text@.take(i as int),
                )[k],
        decreases chars.len() - i,
    {
        let ghost before = text@.take(i as int);
        let ghost after = text@.take(i + 1);
        proof {
            assert(after.drop_last() =~= before);
            assert(after.last() == text@[i as int]);
            if i > 0 {
                assert(after[after.len() - 2] == text@[i - 1]);
                assert(before.last() == text@[i - 1]);
            }
        }
        let c = chars[i];
        if is_whitespace_char(c) {
            if in_word {
                let token = String::from_str(text.substring_char(start, i));
                tokens.push(token);
                in_word = false;
            }
        } else {
            if in_word {
                proof {
                    lemma_words_open(before);
                    assert(text@.subrange(start as int, i as int).push(c) =~= text@.subrange(
                        start as int,
                        i + 1,
                    ));
                }
            } else {
                start = i;
                in_word = true;
                proof {
                    assert(seq![c] =~= text@.subrange(i as int, i + 1));
                }
            }
        }
        i = i + 1;
    }
    proof {
        assert(text@.take(text@.len() as int) =~= text@);
    }
    if in_word {
        let token = String::from_str(text.substring_char(start, i));
        tokens.push(token);
    }
    tokens
}

/// The decimal digit of a number below ten.
pub open spec fn digit(d: nat) -> char {
    if d == 0 {
        '0'
    } else if d == 1 {
        '1'
    } else if d == 2 {
        '2'
    } else if d == 3 {
        '3'
    } else if d == 4 {
        '4'
    } else if d == 5 {
        '5'
    } else if d == 6 {
        '6'
    } else if d == 7 {
        '7'
    } else if d == 8 {
        '8'
    } else {
        '9'
    }
}

/// A number in decimal, without sign and without leading zeros.
pub open spec fn decimal(n: nat) -> Seq<char>
    decreases n,
{
    if n < 10 {
        seq![digit(n)]
    } else {
        decimal(n / 10).push(digit(n % 10))
    }
}

/// The text of one decimal digit.
fn digit_text(d: u64) -> (text: &'static str)
    requires
        d < 10,
    ensures
        text@ == seq![digit(d as nat)],
{
    proof {
        reveal_strlit("0");
        reveal_strlit("1");
        reveal_strlit("2");
        reveal_strlit("3");
        reveal_strlit("4");
        reveal_strlit("5");
        reveal_strlit("6");
        reveal_strlit("7");
        reveal_strlit("8");
        reveal_strlit("9");
    }
    let text = if d == 0 {
        "0"
    } else if d == 1 {
        "1"
    } else if d == 2 {
        "2"
    } else if d == 3 {
        "3"
    } else if d == 4 {
        "4"
    } else if d == 5 {
        "5"
    } else if d == 6 {
        "6"
    } else if d == 7 {
        "7"
    } else if d == 8 {
        "8"
    } else {
        "9"
    };
    assert(text@ =~= seq![digit(d as nat)]);
    text
}

/// Appends a number in decimal to `out`.
pub fn push_decimal(out: &mut String, n: u64)
    ensures
        final(out)@ == old(out)@ + decimal(n as nat),
    decreases n,
{
    if n >= 10 {
        push_decimal(out, n / 10);
    }
    out.append(digit_text(n % 10));
    assert(out@ =~= old(out)@ + decimal(n as nat));
}

/// Appending to the end of a text appends to the end of its tail.
pub proof fn lemma_append_to_tail(head: Seq<char>, tail: Seq<char>, piece: Seq<char>)
    ensures
        (head + tail) + piece == head + (tail + piece),
{
    assert((head + tail) + piece =~= head + (tail + piece));
}

/// Appends the first piece of a text to `out` and names what was appended.
pub(crate) fn begin(out: &mut String, piece: &str) -> (tail: Ghost<Seq<char>>)
    ensures
        final(out)@ == old(out)@ + tail@,
        tail@ == piece@,
{
    out.append(piece);
    Ghost(piece@)
}

/// Appends a further piece to `out`, which holds `head` and then `tail`, and
/// names the longer tail.
pub(crate) fn put(
    out: &mut String,
    piece: &str,
    head: Ghost<Seq<char>>,
    tail: Ghost<Seq<char>>,
) -> (longer: Ghost<Seq<char>>)
    requires
        old(out)@ == head@ + tail@,
    ensures
        final(out)@ == head@ + longer@,
        longer@ == tail@ + piece@,
{
    out.append(piece);
    proof {
        lemma_append_to_tail(head@, tail@, piece@);
    }
    Ghost(tail@ + piece@)
}

/// Appends a number in decimal to `out`, which holds `head` and then `tail`,
/// and names the longer tail.
pub(crate) fn put_decimal(
    out: &mut String,
    n: u64,
    head: Ghost<Seq<char>>,
    tail: Ghost<Seq<char>>,
) -> (longer: Ghost<Seq<char>>)
    requires
        old(out)@ == head@ + tail@,
    ensures
        final(out)@ == head@ + longer@,
        longer@ == tail@ + decimal(n as nat),
{
    push_decimal(out, n);
    proof {
        lemma_append_to_tail(head@, tail@, decimal(n as nat));
    }
    Ghost(tail@ + decimal(n as nat))
}

/// Names the longer tail of `out` after `piece` was appended to it.
pub(crate) fn joined(
    out: &String,
    piece: Ghost<Seq<char>>,
    head: Ghost<Seq<char>>,
    tail: Ghost<Seq<char>>,
) -> (longer: Ghost<Seq<char>>)
    requires
        out@ == head@ + tail@ + piece@,
    ensures
        out@ == head@ + longer@,
        longer@ == tail@ + piece@,
{
    proof {
        lemma_append_to_tail(head@, tail@, piece@);
    }
    Ghost(tail@ + piece@)
}

} // verus!
