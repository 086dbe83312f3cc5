use vstd::prelude::*;
use vstd::std_specs::iter::IteratorSpec;

verus! {

broadcast use vstd::string::group_string_axioms;

/// The character of the decimal digit `d`.
pub open spec fn digit_char(d: nat) -> char {
    ((48 + d) as u32) as char
}

/// The decimal representation of `n`, without leading zeros.
pub open spec fn decimal(n: nat) -> Seq<char>
    decreases n,
{
    if n < 10 {
        seq![digit_char(n)]
    } else {
        decimal(n / 10).push(digit_char(n % 10))
    }
}

/// The lines of `s`, each with its line terminator: a new line starts
/// after every `'\n'`; the last line has no terminator when `s` does not end
/// with one, and an empty text has no lines.
pub open spec fn lines_of(s: Seq<char>) -> Seq<Seq<char>>
    decreases s.len(),
{
    if s.len() == 0 {
        seq![]
    } else {
        let prev = lines_of(s.drop_last());
        let c = s.last();
        if prev.len() == 0 || prev.last().last() == '\n' {
            prev.push(seq![c])
        } else {
            prev.update(prev.len() - 1, prev.last().push(c))
        }
    }
}

/// The concatenation of a sequence of texts.
pub open spec fn flatten_chars(s: Seq<Seq<char>>) -> Seq<char>
    decreases s.len(),
{
    if s.len() == 0 {
        seq![]
    } else {
        flatten_chars(s.drop_last()) + s.last()
    }
}

/// Splitting a text into lines loses nothing and adds nothing: the lines,
/// put back together, are the text; no line is empty; every line but the
/// last ends with its terminator, and no line holds a terminator before its
/// end.
pub proof fn lemma_lines_of(s: Seq<char>)
    ensures
        flatten_chars(lines_of(s)) == s,
        forall|i: int| 0 <= i < lines_of(s).len() ==> #[trigger] lines_of(s)[i].len() > 0,
        forall|i: int| 0 <= i < lines_of(s).len() - 1 ==> #[trigger] lines_of(s)[i].last() == '\n',
        forall|i: int, j: int|
            0 <= i < lines_of(s).len() && 0 <= j < lines_of(s)[i].len() - 1 ==> #[trigger] lines_of(
                s,
            )[i][j] != '\n',
    decreases s.len(),
{
    if s.len() > 0 {
        let prev = lines_of(s.drop_last());
        let c = s.last();
        lemma_lines_of(s.drop_last());
        if prev.len() == 0 || prev.last().last() == '\n' {
            assert(prev.push(seq![c]).drop_last() =~= prev);
            assert(s.drop_last().push(c) =~= s);
        } else {
            let n = prev.len() - 1;
            let cur = prev.update(n, prev.last().push(c));
            assert(cur.drop_last() =~= prev.drop_last());
            assert(flatten_chars(prev) == flatten_chars(prev.drop_last()) + prev.last());
            assert(flatten_chars(cur) =~= flatten_chars(prev).push(c));
            assert(s.drop_last().push(c) =~= s);
            assert forall|i: int, j: int|
                0 <= i < cur.len() && 0 <= j < cur[i].len() - 1 implies cur[i][j] != '\n' by {
                if i == n && j == prev[n].len() - 1 {
                    assert(cur[i][j] == prev.last().last());
                } else if i == n {
                    assert(cur[i][j] == prev[n][j]);
                }
            }
        }
    }
}

/// Appends `c` to `s` (`String::push`).
#[verifier::external_body]
pub fn push_char(s: &mut String, c: char)
    ensures
        final(s)@ == old(s)@.push(c),
{
    s.push(c);
}

fn digit(d: u64) -> (c: char)
    requires
        d < 10,
    ensures
        c == digit_char(d as nat),
{
    let b: u8 = 48u8 + (d as u8);
    b as char
}

/// Appends the decimal representation of `n` to `s`.
pub fn push_decimal(s: &mut String, n: u64)
    ensures
        final(s)@ == old(s)@ + decimal(n as nat),
    decreases n,
{
    if n >= 10 {
        push_decimal(s, n / 10);
    }
    push_char(s, digit(n % 10));
    proof {
        assert(final(s)@ =~= old(s)@ + decimal(n as nat));
    }
}

/// Splits `text` into its lines, keeping each line's terminator.
pub fn split_lines(text: &str) -> (lines: Vec<String>)
    ensures
        lines.deep_view() == lines_of(text@),
{
    let mut lines: Vec<String> = Vec::new();
    let mut cur = String::new();
    let mut it = text.chars();
    let ghost mut done: Seq<char> = seq![];
    loop
        invariant
            done + it.remaining() == text@,
            it.decrease() is Some,
            cur@.len() == 0 ==> lines.deep_view() == lines_of(done) && (lines_of(done).len()
                == 0 || lines_of(done).last().last() == '\n'),
            cur@.len() > 0 ==> lines.deep_view().push(cur@) == lines_of(done) && cur@.last()
                != '\n',
        ensures
            done == text@,
            cur@.len() == 0 ==> lines.deep_view() == lines_of(done),
            cur@.len() > 0 ==> lines.deep_view().push(cur@) == lines_of(done),
        decreases it.decrease()->0,
    {
        let ghost before = it.remaining();
        let ghost old_lines = lines.deep_view();
        let ghost old_cur = cur@;
        match it.next() {
            None => {
                proof {
                    assert(before.len() == 0);
                    assert(done =~= text@);
                }
                break;
            },
            Some(c) => {
                let ghost prev_done = done;
                proof {
                    assert(before.len() > 0);
                    assert(done.push(c).drop_last() =~= done);
                    assert(done.push(c) + it.remaining() =~= text@);
                    done = done.push(c);
                }
                push_char(&mut cur, c);
                if c == '\n' {
                    lines.push(cur);
                    cur = String::new();
                    proof {
                        assert(lines.deep_view() =~= old_lines.push(old_cur.push(c)));
                    }
                }
                proof {
                    let prev = lines_of(prev_done);
                    if old_cur.len() == 0 {
                        assert(lines_of(done) =~= prev.push(seq![c]));
                        assert(old_cur.push(c) =~= seq![c]);
                    } else {
                        assert(prev =~= old_lines.push(old_cur));
                        assert(lines_of(done) =~= old_lines.push(old_cur.push(c)));
                    }
                }
            },
        }
    }
    if !cur.as_str().is_empty() {
        let ghost old_lines = lines.deep_view();
        let ghost old_cur = cur@;
        lines.push(cur);
        proof {
            assert(lines.deep_view() =~= old_lines.push(old_cur));
        }
    }
    lines
}

} // verus!
