//! Plain-text layout used by the image export: decimal numerals and the
//! wrapping of long lines at a fixed width.
use vstd::prelude::*;

verus! {

/// Number of characters counted before a line is broken.
pub const LINE_LIMIT: usize = 70;

/// Relies on `String::push`: the given character is appended at the end.
pub assume_specification[ String::push ](string: &mut String, ch: char)
    ensures
        final(string)@ == old(string)@.push(ch),
;

/// The character of a decimal digit.
pub open spec fn digit_char(d: nat) -> char {
    if d == 0 {
        '0'
    } else if d == 1 {
        '1'
    } else if d == 2 {
        '2'
    } else if d == 3 {
        '3'
    } else if d == 4 {
        '4'
    } else if d == 5 {
        '5'
    } else if d == 6 {
        '6'
    } else if d == 7 {
        '7'
    } else if d == 8 {
        '8'
    } else {
        '9'
    }
}

/// The decimal numeral of `n`, most significant digit first, without leading zeros.
pub open spec fn decimal(n: nat) -> Seq<char>
    decreases n,
{
    if n < 10 {
        seq![digit_char(n)]
    } else {
        decimal(n / 10).push(digit_char(n % 10))
    }
}

fn digit(d: u64) -> (c: char)
    requires
        d < 10,
    ensures
        c == digit_char(d as nat),
{
    match d {
        0 => '0',
        1 => '1',
        2 => '2',
        3 => '3',
        4 => '4',
        5 => '5',
        6 => '6',
        7 => '7',
        8 => '8',
        _ => '9',
    }
}

/// Appends the decimal numeral of `n` to `out`.
pub fn push_decimal(out: &mut String, n: u64)
    ensures
        final(out)@ == old(out)@ + decimal(n as nat),
    decreases n,
{
    if n >= 10 {
        push_decimal(out, n / 10);
    }
    out.push(digit(n % 10));
    proof {
        assert(final(out)@ =~= old(out)@ + decimal(n as nat));
    }
}

/// The words of a line: the runs of characters between single spaces, in
/// order, empty runs included. A line of `k` spaces has `k + 1` words.
pub open spec fn words(s: Seq<char>) -> Seq<Seq<char>>
    decreases s.len(),
{
    if s.len() == 0 {
        seq![Seq::empty()]
    } else {
        let ws = words(s.drop_last());
        if s.last() == ' ' {
            ws.push(Seq::empty())
        } else {
            ws.update(ws.len() - 1, ws.last().push(s.last()))
        }
    }
}

/// Column (counted modulo the line limit) reached after a word of `len`
/// characters that starts at column `col`. Counting stops at the character
/// that reaches the limit; otherwise the word and the space after it count.
pub open spec fn next_column(col: nat, len: nat) -> nat {
    if LINE_LIMIT - col <= len {
        0
    } else {
        ((col + len + 1) % (LINE_LIMIT as nat)) as nat
    }
}

/// Whether a word of `len` characters starting at column `col` is moved to
/// a new line: it is when counting its characters, or the space after it,
/// reaches the limit.
pub open spec fn breaks_before(col: nat, len: nat) -> bool {
    LINE_LIMIT - col <= len + 1
}

/// A word as it is written out: preceded by a line break when it is moved.
pub open spec fn placed(w: Seq<char>, col: nat) -> Seq<char> {
    if breaks_before(col, w.len()) {
        seq!['\n'] + w
    } else {
        w
    }
}

/// Column reached after the given words.
pub open spec fn column_after(ws: Seq<Seq<char>>) -> nat
    decreases ws.len(),
{
    if ws.len() == 0 {
        0
    } else {
        next_column(column_after(ws.drop_last()), ws.last().len())
    }
}

/// The given words, as placed, each followed by a space.
pub open spec fn placed_words(ws: Seq<Seq<char>>) -> Seq<char>
    decreases ws.len(),
{
    if ws.len() == 0 {
        Seq::empty()
    } else {
        placed_words(ws.drop_last()) + placed(ws.last(), column_after(ws.drop_last())) + seq![' ']
    }
}

/// A line with a break inserted before each word that counting moves past
/// the limit: the placed words joined by single spaces.
pub open spec fn limited_line(s: Seq<char>) -> Seq<char> {
    let ws = words(s);
    placed_words(ws.drop_last()) + placed(ws.last(), column_after(ws.drop_last()))
}

proof fn lemma_words_nonempty(s: Seq<char>)
    ensures
        words(s).len() >= 1,
    decreases s.len(),
{
    if s.len() > 0 {
        lemma_words_nonempty(s.drop_last());
    }
}

/// Wraps `line` for export. Characters are counted word by word: a word's
/// characters, then the space after it. Where the count reaches a multiple
/// of the line limit, a line break goes before the current word, and the
/// rest of that word and its space are not counted. Words are never split.
pub fn limit_line_length(line: &str) -> (r: String)
    ensures
        r@ == limited_line(line@),
{
    let mut out = String::new();
    let mut word = String::new();
    let mut col: usize = 0;
    let ghost mut done: Seq<char> = Seq::empty();
    for c in it: line.chars()
        invariant
            it.seq() == line@,
            done == line@.take(it.index() as int),
            col < LINE_LIMIT,
            words(done).len() >= 1,
            word@ == words(done).last(),
            col == column_after(words(done).drop_last()),
            out@ == placed_words(words(done).drop_last()),
    {
        proof {
            lemma_words_nonempty(done);
        }
        let ghost ws = words(done);
        let ghost next = done.push(c);
        assert(next.drop_last() =~= done);
        if c == ' ' {
            assert(words(next) == ws.push(Seq::<char>::empty()));
            assert(words(next).drop_last() =~= ws);
            let len: usize = word.as_str().unicode_len();
            if LINE_LIMIT - col - 1 <= len {
                out.push('\n');
            }
            out.append(word.as_str());
            out.push(' ');
            col = if LINE_LIMIT - col <= len {
                0
            } else {
                (col + len + 1) % LINE_LIMIT
            };
            word = String::new();
            proof {
                assert(ws =~= ws.drop_last().push(ws.last()));
                assert(out@ =~= placed_words(ws));
            }
        } else {
            word.push(c);
            assert(words(next).drop_last() =~= ws.drop_last());
        }
        proof {
            done = next;
            assert(done =~= line@.take(it.index() + 1));
        }
    }
    proof {
        assert(done =~= line@);
    }
    let len: usize = word.as_str().unicode_len();
    if LINE_LIMIT - col - 1 <= len {
        out.push('\n');
    }
    out.append(word.as_str());
    assert(out@ =~= limited_line(line@));
    out
}

} // verus!
