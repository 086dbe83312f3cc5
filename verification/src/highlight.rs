use vstd::prelude::*;
use vstd::std_specs::iter::IteratorSpec;

use syntect::easy::HighlightLines;
use syntect::highlighting::Theme;
use syntect::parsing::{SyntaxReference, SyntaxSet};

use crate::text::{flatten_chars, lemma_lines_of, lines_of, split_lines};

verus! {

/// A colour given by its red, green and blue components.
#[derive(Debug, Clone, Copy, PartialEq, Eq, Structural)]
pub struct Rgb {
    pub r: u8,
    pub g: u8,
    pub b: u8,
}

/// A piece of a line that is drawn in one foreground colour.
pub struct Region {
    pub fg: Rgb,
    pub text: String,
}

/// The text of a sequence of regions, put together.
pub open spec fn region_texts(rs: Seq<Region>) -> Seq<char>
    decreases rs.len(),
{
    if rs.len() == 0 {
        seq![]
    } else {
        region_texts(rs.drop_last()) + rs.last().text@
    }
}

/// The text of each highlighted line.
pub open spec fn line_texts(lines: Seq<Vec<Region>>) -> Seq<Seq<char>> {
    Seq::new(lines.len(), |k: int| region_texts(lines[k]@))
}

/// Why a file could not be highlighted.
#[derive(Debug, Clone, Copy, PartialEq, Eq, Structural)]
pub enum HighlightError {
    /// The syntax definition could not parse a line.
    Parse,
}

#[verifier::external_type_specification]
#[verifier::external_body]
pub struct ExSyntaxSet(SyntaxSet);

#[verifier::external_type_specification]
#[verifier::external_body]
pub struct ExSyntaxReference(SyntaxReference);

#[verifier::external_type_specification]
#[verifier::external_body]
pub struct ExTheme(Theme);

#[verifier::external_type_specification]
#[verifier::external_body]
pub struct ExHighlightLines<'a>(HighlightLines<'a>);

#[verifier::external_type_specification]
#[verifier::external_body]
pub struct ExSyntectError(syntect::Error);

/// The names of the syntaxes that a syntax set holds, in its order.
pub uninterp spec fn syntax_names(ss: SyntaxSet) -> Seq<Seq<char>>;

/// `SyntaxSet::find_syntax_by_name` of syntect: the syntax of `ss` with the
/// name `name`, if there is one; it searches the set's syntaxes for one whose
/// name equals `name`. Which syntax comes back is not stated.
#[verifier::external_body]
fn find_syntax_by_name<'s>(ss: &'s SyntaxSet, name: &str) -> (res: Option<&'s SyntaxReference>)
    ensures
        res is Some <==> syntax_names(*ss).contains(name@),
{
    ss.find_syntax_by_name(name)
}

/// `HighlightLines::new` of syntect: a highlighter for `syntax` and `theme`
/// that starts at the beginning of a file. Nothing is stated of it.
#[verifier::external_body]
fn new_highlight_lines<'a>(syntax: &SyntaxReference, theme: &'a Theme) -> HighlightLines<'a> {
    HighlightLines::new(syntax, theme)
}

/// A line highlighter together with the syntax set that its syntax was taken
/// from. Its fields are private: the only way to build one is
/// `Highlighter::new`, which takes the syntax from the very set that it keeps
/// and starts the highlighter at the beginning of a file. It records the
/// lines that it was given, in order.
pub struct Highlighter<'a> {
    syntaxes: &'a SyntaxSet,
    lines: HighlightLines<'a>,
    fed: Ghost<Seq<Seq<char>>>,
    oks: Ghost<Seq<bool>>,
}

impl<'a> Highlighter<'a> {
    /// The lines that this highlighter has been given so far, in order.
    pub closed spec fn fed(&self) -> Seq<Seq<char>> {
        self.fed@
    }

    /// For each call of the highlighter so far, in order, whether syntect
    /// highlighted the line that it was given.
    pub closed spec fn succeeded(&self) -> Seq<bool> {
        self.oks@
    }

    /// A highlighter for the syntax of `syntaxes` named `syntax_name`, with
    /// `theme`; `None` when `syntaxes` has no syntax of that name.
    pub fn new(syntaxes: &'a SyntaxSet, syntax_name: &str, theme: &'a Theme) -> (res: Option<
        Highlighter<'a>,
    >)
        ensures
            res is Some <==> syntax_names(*syntaxes).contains(syntax_name@),
            res matches Some(h) ==> h.fed() == Seq::<Seq<char>>::empty() && h.succeeded()
                == Seq::<bool>::empty(),
    {
        match find_syntax_by_name(syntaxes, syntax_name) {
            Some(syntax) => Some(
                Highlighter {
                    syntaxes,
                    lines: new_highlight_lines(syntax, theme),
                    fed: Ghost(Seq::empty()),
                    oks: Ghost(Seq::empty()),
                },
            ),
            None => None,
        }
    }

    /// Highlights the next line, `line`, and records that it was given.
    fn feed(&mut self, line: &str) -> (res: Result<Vec<Region>, syntect::Error>)
        ensures
            final(self).fed() == old(self).fed().push(line@),
            final(self).succeeded() == old(self).succeeded().push(res is Ok),
            res matches Ok(regions) ==> region_texts(regions@).is_prefix_of(line@),
    {
        let res = highlight_line(self, line);
        self.fed = Ghost(self.fed@.push(line@));
        self.oks = Ghost(self.oks@.push(res is Ok));
        res
    }
}

/// `HighlightLines::highlight_line` of syntect, with the syntax set that the
/// highlighter's syntax came from: splits `line` into regions, each with the
/// style that the theme gives it, and carries the parser's state on to the
/// next line. The regions' texts are consecutive pieces of the line from its
/// start, so put together they are a beginning of the line. That they reach
/// its end is not stated: syntect's iterator stops early where the scope
/// stack has no cleared scopes to restore. Which styles come back depends on
/// the highlighter's state and is not stated either.
#[verifier::external_body]
fn highlight_line(h: &mut Highlighter<'_>, line: &str) -> (res: Result<
    Vec<Region>,
    syntect::Error,
>)
    ensures
        res matches Ok(regions) ==> region_texts(regions@).is_prefix_of(line@),
        final(h).fed() == old(h).fed(),
        final(h).succeeded() == old(h).succeeded(),
{
    h.lines.highlight_line(line, h.syntaxes).map(
        |regions|
            regions.into_iter().map(
                |(style, text)|
                    Region {
                        fg: Rgb { r: style.foreground.r, g: style.foreground.g, b: style.foreground.b },
                        text: text.to_string(),
                    },
            ).collect(),
    )
}

/// Every outcome is a success.
pub open spec fn all_ok(outcomes: Seq<Result<Vec<Region>, HighlightError>>) -> bool {
    forall|i: int| 0 <= i < outcomes.len() ==> #[trigger] outcomes[i] is Ok
}

/// Puts together the outcomes of highlighting a file's lines, in order: the
/// highlighted lines when every line was highlighted, else the first
/// failure.
pub fn collect_highlighted(outcomes: Vec<Result<Vec<Region>, HighlightError>>) -> (res: Result<
    Vec<Vec<Region>>,
    HighlightError,
>)
    ensures
        res is Ok <==> all_ok(outcomes@),
        res matches Ok(lines) ==> lines@.len() == outcomes@.len() && forall|i: int|
            0 <= i < outcomes@.len() ==> #[trigger] outcomes@[i] == Ok::<
                Vec<Region>,
                HighlightError,
            >(lines@[i]),
        res matches Err(e) ==> exists|i: int|
            0 <= i < outcomes@.len() && #[trigger] outcomes@[i] == Err::<Vec<Region>, HighlightError>(
                e,
            ) && all_ok(outcomes@.take(i)),
{
    let mut out: Vec<Vec<Region>> = Vec::new();
    let mut rest = outcomes;
    let ghost all = rest@;
    while rest.len() > 0
        invariant
            all == outcomes@,
            out@.len() + rest@.len() == all.len(),
            rest@ == all.skip(out@.len() as int),
            all_ok(all.take(out@.len() as int)),
            forall|i: int| 0 <= i < out@.len() ==> #[trigger] all[i] == Ok::<
                Vec<Region>,
                HighlightError,
            >(out@[i]),
        decreases rest@.len(),
    {
        let ghost k = out@.len() as int;
        let outcome = rest.remove(0);
        proof {
            assert(outcome == all[k]);
            assert(rest@ =~= all.skip(k + 1));
        }
        match outcome {
            Ok(regions) => {
                out.push(regions);
                proof {
                    assert(all.take(k + 1) =~= all.take(k).push(all[k]));
                }
            },
            Err(e) => {
                proof {
                    assert(all[k] == Err::<Vec<Region>, HighlightError>(e));
                    assert(all.take(k) =~= outcomes@.take(k));
                    assert(!all_ok(outcomes@)) by {
                        assert(!(outcomes@[k] is Ok));
                    }
                }
                return Err(e);
            },
        }
    }
    proof {
        assert(all.take(out@.len() as int) =~= all);
    }
    Ok(out)
}

/// Highlights `text`, the contents of a file, line by line with `h`, each
/// line with its terminator, as the syntax set expects; it stops at the
/// first line that syntect cannot highlight. The outcomes are put together
/// by `collect_highlighted`. Each highlighted line's regions give a
/// beginning of that line; an empty text, which has no lines, is always
/// highlighted, to no lines. The highlighter is given the text's lines in
/// order, from the first on: all of them when it succeeds.
pub fn highlight_file(h: &mut Highlighter<'_>, text: &str) -> (res: Result<
    Vec<Vec<Region>>,
    HighlightError,
>)
    ensures
        old(h).fed().len() <= final(h).fed().len() <= old(h).fed().len() + lines_of(text@).len(),
        final(h).fed() == old(h).fed() + lines_of(text@).take(
            final(h).fed().len() - old(h).fed().len(),
        ),
        res is Ok ==> final(h).fed() == old(h).fed() + lines_of(text@),
        ({
            let n = final(h).fed().len() - old(h).fed().len();
            let flags = final(h).succeeded().skip(old(h).succeeded().len() as int);
            &&& final(h).succeeded().len() == old(h).succeeded().len() + n
            &&& final(h).succeeded().take(old(h).succeeded().len() as int) == old(h).succeeded()
            // It fails only where syntect failed on a line: on the last line
            // that it gave, after every earlier one was highlighted.
            &&& res is Err ==> n >= 1 && !flags[n - 1] && forall|k: int|
                0 <= k < n - 1 ==> #[trigger] flags[k]
            &&& res is Ok ==> forall|k: int| 0 <= k < n ==> #[trigger] flags[k]
            // When syntect highlighted every line that it was given, it
            // succeeds, with one highlighted line per line of the text.
            &&& (forall|k: int| 0 <= k < n ==> #[trigger] flags[k]) ==> (res matches Ok(lines)
                && lines@.len() == lines_of(text@).len())
        }),
        res matches Ok(lines) ==> lines@.len() == lines_of(text@).len() && forall|k: int|
            0 <= k < lines@.len() ==> #[trigger] line_texts(lines@)[k].is_prefix_of(
                lines_of(text@)[k],
            ),
        text@.len() == 0 ==> (res matches Ok(lines) && lines@.len() == 0),
{
    let lines = split_lines(text);
    proof {
        if text@.len() == 0 {
            assert(lines.deep_view().len() == 0);
            assert(lines@.len() == 0);
        }
    }
    let mut outcomes: Vec<Result<Vec<Region>, HighlightError>> = Vec::new();
    let mut i: usize = 0;
    let ghost start = h.fed();
    let ghost start_oks = h.succeeded();
    while i < lines.len()
        invariant
            start == old(h).fed(),
            start_oks == old(h).succeeded(),
            h.fed() == start + lines_of(text@).take(i as int),
            h.succeeded() == start_oks + Seq::new(i as nat, |k: int| true),
            lines.deep_view() == lines_of(text@),
            text@.len() == 0 ==> lines@.len() == 0,
            i <= lines.len(),
            outcomes@.len() == i,
            all_ok(outcomes@),
            forall|k: int|
                0 <= k < i ==> (#[trigger] outcomes@[k] matches Ok(r) && region_texts(
                    r@,
                ).is_prefix_of(lines@[k]@)),
        decreases lines.len() - i,
    {
        proof {
            assert(lines.deep_view()[i as int] == lines@[i as int]@);
            assert(lines_of(text@).take(i + 1) =~= lines_of(text@).take(i as int).push(
                lines@[i as int]@,
            ));
        }
        match h.feed(lines[i].as_str()) {
            Ok(regions) => {
                outcomes.push(Ok(regions));
            },
            Err(_) => {
                let ghost before = outcomes@;
                outcomes.push(Err(HighlightError::Parse));
                proof {
                    assert(h.succeeded() =~= start_oks + Seq::new(i as nat, |k: int| true).push(false));
                    assert(h.succeeded().skip(start_oks.len() as int) =~= Seq::new(i as nat, |k: int| true).push(false));
                    assert(h.succeeded().take(start_oks.len() as int) =~= start_oks);
                    assert(h.fed().len() == start.len() + i + 1);
                    assert(lines_of(text@).take(i + 1) =~= lines_of(text@).take(
                        h.fed().len() - start.len(),
                    ));
                    assert(!all_ok(outcomes@)) by {
                        assert(!(outcomes@[i as int] is Ok));
                    }
                }
                return collect_highlighted(outcomes);
            },
        }
        i = i + 1;
    }
    let res = collect_highlighted(outcomes);
    proof {
        assert(h.succeeded().skip(start_oks.len() as int) =~= Seq::new(i as nat, |k: int| true));
        assert(h.succeeded().take(start_oks.len() as int) =~= start_oks);
        assert(lines_of(text@).take(lines@.len() as int) =~= lines_of(text@));
        if res is Ok {
            let hl = res->Ok_0;
            assert(lines.deep_view().len() == lines@.len());
            assert forall|k: int| 0 <= k < hl@.len() implies #[trigger] line_texts(
                hl@,
            )[k].is_prefix_of(lines_of(text@)[k]) by {
                assert(lines.deep_view()[k] == lines@[k]@);
                assert(outcomes@[k] == Ok::<Vec<Region>, HighlightError>(hl@[k]));
            }
        }
    }
    res
}

/// When every line's regions reach the end of the line, highlighting gives
/// back the whole text.
pub proof fn lemma_complete_highlighting(lines: Seq<Vec<Region>>, text: Seq<char>)
    requires
        line_texts(lines) == lines_of(text),
    ensures
        flatten_chars(line_texts(lines)) == text,
{
    lemma_lines_of(text);
}

} // verus!
