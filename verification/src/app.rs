use vstd::prelude::*;

use crate::highlight::{Region, Rgb};
use crate::searcher::{FileResult, Match};
use crate::text::{decimal, digit_char, push_char, push_decimal};

verus! {

// ---------------------------------------------------------------------------
// The list that the user browses
// ---------------------------------------------------------------------------

/// The entry of the list that stands for a match: its line number, a colon,
/// a space and the matching line.
pub open spec fn match_label(m: Match) -> Seq<char> {
    decimal(m.line_nr as nat) + seq![':', ' '] + m.match_str@
}

/// The entries of the list for one file: its path, then one entry for each
/// of its matches.
pub open spec fn result_labels(r: FileResult) -> Seq<Seq<char>> {
    seq![r.file_path@] + r.matches@.map_values(|m: Match| match_label(m))
}

/// The entries of the list for the first `k` files.
pub open spec fn labels_upto(rs: Seq<FileResult>, k: int) -> Seq<Seq<char>>
    decreases k,
{
    if k <= 0 {
        seq![]
    } else {
        labels_upto(rs, k - 1) + result_labels(rs[k - 1])
    }
}

/// The whole list.
pub open spec fn list_labels(rs: Seq<FileResult>) -> Seq<Seq<char>> {
    labels_upto(rs, rs.len() as int)
}

/// The number of entries that the first `k` files take in the list.
pub open spec fn prefix_len(rs: Seq<FileResult>, k: int) -> int
    decreases k,
{
    if k <= 0 {
        0
    } else {
        prefix_len(rs, k - 1) + 1 + rs[k - 1].matches@.len()
    }
}

/// The index in the list of the entry for match `mi` of file `ri`.
pub open spec fn position(rs: Seq<FileResult>, ri: int, mi: int) -> int {
    prefix_len(rs, ri) + 1 + mi
}

/// Every file of the results has at least one match.
pub open spec fn all_nonempty(rs: Seq<FileResult>) -> bool {
    forall|i: int| 0 <= i < rs.len() ==> #[trigger] rs[i].matches@.len() > 0
}

/// Match `mi` of file `ri` exists.
pub open spec fn valid_location(rs: Seq<FileResult>, ri: int, mi: int) -> bool {
    0 <= ri < rs.len() && 0 <= mi < rs[ri].matches@.len()
}

/// Where moving up leads: to the previous match, which is the last one of
/// the previous file at a file's first match; nowhere from the very first.
pub open spec fn up_location(rs: Seq<FileResult>, ri: int, mi: int) -> (int, int) {
    if mi == 0 {
        if ri == 0 {
            (ri, mi)
        } else {
            (ri - 1, rs[ri - 1].matches@.len() - 1)
        }
    } else {
        (ri, mi - 1)
    }
}

/// Where moving down leads: to the next match, which is the first one of the
/// next file at a file's last match; nowhere from the very last.
pub open spec fn down_location(rs: Seq<FileResult>, ri: int, mi: int) -> (int, int) {
    if mi == rs[ri].matches@.len() - 1 {
        if ri == rs.len() - 1 {
            (ri, mi)
        } else {
            (ri + 1, 0)
        }
    } else {
        (ri, mi + 1)
    }
}

proof fn lemma_prefix_grows(rs: Seq<FileResult>, a: int, b: int)
    requires
        0 <= a <= b,
    ensures
        prefix_len(rs, a) + (b - a) <= prefix_len(rs, b),
    decreases b - a,
{
    if a < b {
        lemma_prefix_grows(rs, a, b - 1);
    }
}

proof fn lemma_labels_len(rs: Seq<FileResult>, k: int)
    requires
        0 <= k <= rs.len(),
    ensures
        labels_upto(rs, k).len() == prefix_len(rs, k),
    decreases k,
{
    if k > 0 {
        lemma_labels_len(rs, k - 1);
    }
}

proof fn lemma_labels_at(rs: Seq<FileResult>, k: int, ri: int, mi: int)
    requires
        0 <= ri < k <= rs.len(),
        0 <= mi < rs[ri].matches@.len(),
    ensures
        labels_upto(rs, k)[prefix_len(rs, ri)] == rs[ri].file_path@,
        labels_upto(rs, k)[position(rs, ri, mi)] == match_label(rs[ri].matches@[mi]),
    decreases k,
{
    lemma_labels_len(rs, k - 1);
    lemma_prefix_grows(rs, 0, ri);
    let prev = labels_upto(rs, k - 1);
    let last = result_labels(rs[k - 1]);
    assert(labels_upto(rs, k) == prev + last);
    if ri < k - 1 {
        lemma_labels_at(rs, k - 1, ri, mi);
        lemma_prefix_grows(rs, ri + 1, k - 1);
        assert(prefix_len(rs, ri + 1) == prefix_len(rs, ri) + 1 + rs[ri].matches@.len());
        assert(prev.len() == prefix_len(rs, k - 1));
        assert(position(rs, ri, mi) < prev.len());
        assert((prev + last)[position(rs, ri, mi)] == prev[position(rs, ri, mi)]);
        assert((prev + last)[prefix_len(rs, ri)] == prev[prefix_len(rs, ri)]);
    } else {
        assert(prev.len() == prefix_len(rs, ri));
        assert(last.len() == 1 + rs[ri].matches@.len());
        assert(last[0] == rs[ri].file_path@);
        assert(last[1 + mi] == match_label(rs[ri].matches@[mi]));
        assert((prev + last)[position(rs, ri, mi)] == last[1 + mi]);
        assert((prev + last)[prefix_len(rs, ri)] == last[0]);
    }
}

/// A match's entry lies inside the list, after its file's entry.
proof fn lemma_position_bound(rs: Seq<FileResult>, ri: int, mi: int)
    requires
        valid_location(rs, ri, mi),
    ensures
        prefix_len(rs, ri) < position(rs, ri, mi) < prefix_len(rs, rs.len() as int),
        list_labels(rs).len() == prefix_len(rs, rs.len() as int),
{
    lemma_prefix_grows(rs, ri + 1, rs.len() as int);
    lemma_labels_len(rs, rs.len() as int);
}

/// The entry for a match.
fn label_for(m: &Match) -> (s: String)
    ensures
        s@ == match_label(*m),
{
    let mut s = String::new();
    push_decimal(&mut s, m.line_nr);
    push_char(&mut s, ':');
    push_char(&mut s, ' ');
    s.append(m.match_str.as_str());
    proof {
        assert(s@ =~= match_label(*m));
    }
    s
}

/// The list that the user browses: for each file its path, followed by an
/// entry for each of its matches.
pub fn make_list_items(items: &Vec<FileResult>) -> (list_items: Vec<String>)
    ensures
        list_items.deep_view() == list_labels(items@),
{
    let mut list_items: Vec<String> = Vec::new();
    let mut i: usize = 0;
    while i < items.len()
        invariant
            i <= items.len(),
            list_items.deep_view() == labels_upto(items@, i as int),
        decreases items.len() - i,
    {
        let res = &items[i];
        let ghost base = list_items.deep_view();
        let ghost want = result_labels(items@[i as int]);
        list_items.push(res.file_path.clone());
        proof {
            assert(list_items.deep_view() =~= base + want.take(1));
        }
        let mut j: usize = 0;
        while j < res.matches.len()
            invariant
                res == items@[i as int],
                want == result_labels(*res),
                j <= res.matches.len(),
                list_items.deep_view() == base + want.take(j + 1),
            decreases res.matches.len() - j,
        {
            let ghost before = list_items.deep_view();
            let label = label_for(&res.matches[j]);
            list_items.push(label);
            proof {
                assert(want[j + 1] == match_label(res.matches@[j as int]));
                assert(want.take(j + 2) =~= want.take(j + 1).push(want[j + 1]));
                assert(list_items.deep_view() =~= before.push(want[j + 1]));
            }
            j = j + 1;
        }
        proof {
            assert(want.take(j + 1) =~= want);
        }
        i = i + 1;
    }
    list_items
}

// ---------------------------------------------------------------------------
// The highlighted file
// ---------------------------------------------------------------------------

/// The background of the line that holds the current match.
pub open spec fn current_line_bg() -> Rgb {
    Rgb { r: 23, g: 30, b: 102 }
}

/// A piece of a line as it is drawn: foreground, optional background, text.
pub struct StyledSpan {
    pub fg: Rgb,
    pub bg: Option<Rgb>,
    pub text: String,
}

/// The span that `region` of line `idx` (counted from 0) is drawn as, when
/// the current match is on line `line_nr` (counted from 1).
pub open spec fn styled(region: Region, idx: int, line_nr: u64) -> (Rgb, Option<Rgb>, Seq<char>) {
    (
        region.fg,
        if idx + 1 == line_nr {
            Some(current_line_bg())
        } else {
            None
        },
        region.text@,
    )
}

/// How a drawn span is seen in contracts.
pub open spec fn span_view(s: StyledSpan) -> (Rgb, Option<Rgb>, Seq<char>) {
    (s.fg, s.bg, s.text@)
}

/// `lines` is `file`, styled as `styled` says, for the lines from `from` on.
pub open spec fn styles_file(
    lines: Seq<Vec<StyledSpan>>,
    file: Seq<Vec<Region>>,
    from: int,
    line_nr: u64,
) -> bool {
    &&& forall|i: int|
        0 <= i < lines.len() ==> (#[trigger] lines[i])@.len() == file[from + i]@.len()
    &&& forall|i: int, k: int|
        0 <= i < lines.len() && 0 <= k < lines[i]@.len() ==> span_view(#[trigger] lines[i]@[k])
            == styled(file[from + i]@[k], from + i, line_nr)
}

fn style_line(line: &Vec<Region>, idx: usize, line_nr: u64) -> (out: Vec<StyledSpan>)
    requires
        idx < usize::MAX,
    ensures
        out@.len() == line@.len(),
        forall|k: int|
            0 <= k < out@.len() ==> span_view(#[trigger] out@[k]) == styled(
                line@[k],
                idx as int,
                line_nr,
            ),
{
    let mut out: Vec<StyledSpan> = Vec::new();
    let current = (idx as u64) + 1 == line_nr;
    let mut k: usize = 0;
    while k < line.len()
        invariant
            k <= line.len(),
            current == (idx + 1 == line_nr),
            out@.len() == k,
            forall|j: int|
                0 <= j < k ==> span_view(#[trigger] out@[j]) == styled(
                    line@[j],
                    idx as int,
                    line_nr,
                ),
        decreases line.len() - k,
    {
        let region = &line[k];
        let bg = if current {
            Some(Rgb { r: 23, g: 30, b: 102 })
        } else {
            None
        };
        out.push(StyledSpan { fg: region.fg, bg, text: region.text.clone() });
        k = k + 1;
    }
    out
}

// ---------------------------------------------------------------------------
// Input and the actions it asks for
// ---------------------------------------------------------------------------

/// The key of a key press.
#[derive(Debug, Clone, Copy, PartialEq, Eq, Structural)]
pub enum KeyCode {
    Up,
    Down,
    Enter,
    Char(char),
    Other,
}

/// The modifier keys held during a key press.
#[derive(Debug, Clone, Copy, PartialEq, Eq, Structural)]
pub enum Modifiers {
    /// No modifier.
    Empty,
    /// Control and nothing else.
    Control,
    /// Any other combination.
    Other,
}

/// An event from the terminal.
#[derive(Debug, Clone, Copy, PartialEq, Eq, Structural)]
pub enum Input {
    Key { code: KeyCode, modifiers: Modifiers },
    Resize,
    Other,
}

/// What the program does after an event.
#[derive(Debug, Clone, Copy, PartialEq, Eq, Structural)]
pub enum Action {
    /// Draw the screen again.
    Redraw,
    /// Open the file of the current match in the editor, then draw again.
    OpenFile,
    /// Leave the program.
    Quit,
    /// Nothing.
    Ignore,
}

/// How an event moves the selection.
#[derive(Debug, Clone, Copy, PartialEq, Eq, Structural)]
pub enum Move {
    Up,
    Down,
    Stay,
}

/// The action that `input` asks for.
pub open spec fn action_for(input: Input) -> Action {
    match input {
        Input::Key { code, modifiers } => match modifiers {
            Modifiers::Empty => match code {
                KeyCode::Enter => Action::OpenFile,
                KeyCode::Char(c) => if c == 'q' {
                    Action::Quit
                } else {
                    Action::Redraw
                },
                _ => Action::Redraw,
            },
            Modifiers::Control => Action::Quit,
            Modifiers::Other => Action::Ignore,
        },
        Input::Resize => Action::Redraw,
        Input::Other => Action::Ignore,
    }
}

/// How `input` moves the selection.
pub open spec fn move_for(input: Input) -> Move {
    match input {
        Input::Key { code, modifiers: Modifiers::Empty } => match code {
            KeyCode::Up => Move::Up,
            KeyCode::Down => Move::Down,
            KeyCode::Char(c) => if c == 'k' {
                Move::Up
            } else if c == 'j' {
                Move::Down
            } else {
                Move::Stay
            },
            _ => Move::Stay,
        },
        _ => Move::Stay,
    }
}

// ---------------------------------------------------------------------------
// The application's state
// ---------------------------------------------------------------------------

struct ResultListLocation {
    result_idx: usize,
    result_match_idx: usize,
}

/// Where a match is: its file and its line, counted from 1.
pub struct FileLocation<'a> {
    pub file_path: &'a str,
    pub line_nr: u64,
}

/// The state of the browser: the search results, the list built from them,
/// the selected entry of that list and the match that it stands for, and
/// the highlighted lines of each result's file; the file of the current
/// match is the one that is shown.
pub struct App {
    results: Vec<FileResult>,
    selected: usize,
    curr_location: ResultListLocation,
    list_items: Vec<String>,
    files: Vec<Vec<Vec<Region>>>,
}

impl App {
    /// The search results.
    pub closed spec fn results_spec(&self) -> Seq<FileResult> {
        self.results@
    }

    /// The index of the current match's file.
    pub closed spec fn result_idx_spec(&self) -> int {
        self.curr_location.result_idx as int
    }

    /// The index of the current match within its file.
    pub closed spec fn result_match_idx_spec(&self) -> int {
        self.curr_location.result_match_idx as int
    }

    /// The selected entry of the list.
    pub closed spec fn selected_spec(&self) -> int {
        self.selected as int
    }

    /// The entries of the list.
    pub closed spec fn list_spec(&self) -> Seq<Seq<char>> {
        self.list_items.deep_view()
    }

    /// The highlighted lines of each result's file, in the order of the
    /// results.
    pub closed spec fn files_spec(&self) -> Seq<Vec<Vec<Region>>> {
        self.files@
    }

    /// The highlighted lines of the file that is shown: the current match's
    /// file.
    pub open spec fn file_spec(&self) -> Seq<Vec<Region>> {
        self.files_spec()[self.result_idx_spec()]@
    }

    /// The current match.
    pub open spec fn current_match(&self) -> Match {
        self.results_spec()[self.result_idx_spec()].matches@[self.result_match_idx_spec()]
    }

    /// The state is consistent: there are results, each with matches; the
    /// current match exists; the list is the one built from the results and
    /// its selected entry is the current match's.
    pub open spec fn wf(&self) -> bool {
        &&& self.results_spec().len() > 0
        &&& all_nonempty(self.results_spec())
        &&& valid_location(
            self.results_spec(),
            self.result_idx_spec(),
            self.result_match_idx_spec(),
        )
        &&& self.selected_spec() == position(
            self.results_spec(),
            self.result_idx_spec(),
            self.result_match_idx_spec(),
        )
        &&& self.list_spec() == list_labels(self.results_spec())
        &&& self.files_spec().len() == self.results_spec().len()
    }

    /// Starts browsing `items` at the first match of the first file;
    /// `files[i]` holds the highlighted lines of `items[i]`'s file.
    pub fn new(items: Vec<FileResult>, files: Vec<Vec<Vec<Region>>>) -> (app: App)
        requires
            items@.len() > 0,
            all_nonempty(items@),
            files@.len() == items@.len(),
        ensures
            app.wf(),
            app.results_spec() == items@,
            app.files_spec() == files@,
            app.result_idx_spec() == 0,
            app.result_match_idx_spec() == 0,
            app.selected_spec() == 1,
            app.list_spec() == list_labels(items@),
    {
        let location = ResultListLocation { result_idx: 0, result_match_idx: 0 };
        let list_items = make_list_items(&items);
        App { results: items, selected: 1, curr_location: location, list_items, files }
    }

    /// Moves the selection to the previous match.
    pub fn up(&mut self)
        requires
            old(self).wf(),
        ensures
            final(self).wf(),
            final(self).results_spec() == old(self).results_spec(),
            final(self).list_spec() == old(self).list_spec(),
            final(self).files_spec() == old(self).files_spec(),
            (final(self).result_idx_spec(), final(self).result_match_idx_spec()) == up_location(
                old(self).results_spec(),
                old(self).result_idx_spec(),
                old(self).result_match_idx_spec(),
            ),
            old(self).result_match_idx_spec() == 0 && old(self).result_idx_spec() > 0
                ==> final(self).selected_spec() == old(self).selected_spec() - 2,
            old(self).result_match_idx_spec() > 0 ==> final(self).selected_spec() == old(
                self,
            ).selected_spec() - 1,
    {
        let curr_list_state = self.selected;
        let ghost rs = self.results@;
        proof {
            lemma_prefix_grows(rs, 0, self.curr_location.result_idx as int);
        }
        let new_state;
        if self.curr_location.result_match_idx == 0 {
            if self.curr_location.result_idx == 0 {
                return;
            }
            new_state = curr_list_state - 2;
            self.curr_location.result_idx = self.curr_location.result_idx - 1;
            let ri = self.curr_location.result_idx;
            proof {
                assert(rs[ri as int].matches@.len() > 0);
            }
            self.curr_location.result_match_idx = self.results[ri].matches.len() - 1;
        } else {
            new_state = curr_list_state - 1;
            self.curr_location.result_match_idx = self.curr_location.result_match_idx - 1;
        }
        self.selected = new_state;
    }

    /// Moves the selection to the next match.
    pub fn down(&mut self)
        requires
            old(self).wf(),
        ensures
            final(self).wf(),
            final(self).results_spec() == old(self).results_spec(),
            final(self).list_spec() == old(self).list_spec(),
            final(self).files_spec() == old(self).files_spec(),
            (final(self).result_idx_spec(), final(self).result_match_idx_spec())
                == down_location(
                old(self).results_spec(),
                old(self).result_idx_spec(),
                old(self).result_match_idx_spec(),
            ),
            old(self).result_match_idx_spec() == old(self).results_spec()[old(
                self,
            ).result_idx_spec()].matches@.len() - 1 && old(self).result_idx_spec() < old(
                self,
            ).results_spec().len() - 1 ==> final(self).selected_spec() == old(
                self,
            ).selected_spec() + 2,
            old(self).result_match_idx_spec() < old(self).results_spec()[old(
                self,
            ).result_idx_spec()].matches@.len() - 1 ==> final(self).selected_spec() == old(
                self,
            ).selected_spec() + 1,
    {
        let curr = self.selected;
        let res_match_idx = self.curr_location.result_idx;
        let ghost rs = self.results@;
        proof {
            // The entries of the list fit in memory, so every position in it is a `usize`.
            assert(self.list_items.deep_view().len() == self.list_items.len());
        }
        let new_selected;
        if self.curr_location.result_match_idx == self.results[res_match_idx].matches.len() - 1 {
            if self.curr_location.result_idx == self.results.len() - 1 {
                return;
            }
            proof {
                let ri = res_match_idx as int;
                assert(rs[ri + 1].matches@.len() > 0);
                lemma_position_bound(rs, ri + 1, 0);
                assert(prefix_len(rs, ri + 1) == prefix_len(rs, ri) + 1 + rs[ri].matches@.len());
            }
            new_selected = curr + 2;
            self.curr_location.result_idx = self.curr_location.result_idx + 1;
            self.curr_location.result_match_idx = 0;
        } else {
            proof {
                lemma_position_bound(
                    rs,
                    res_match_idx as int,
                    self.curr_location.result_match_idx + 1,
                );
            }
            self.curr_location.result_match_idx = self.curr_location.result_match_idx + 1;
            new_selected = curr + 1;
        }
        self.selected = new_selected;
    }

    /// The index of the current match's file.
    pub fn result_idx(&self) -> (r: usize)
        ensures
            r == self.result_idx_spec(),
    {
        self.curr_location.result_idx
    }

    /// The index of the current match within its file.
    pub fn result_match_idx(&self) -> (r: usize)
        ensures
            r == self.result_match_idx_spec(),
    {
        self.curr_location.result_match_idx
    }

    /// The selected entry of the list.
    pub fn selected(&self) -> (r: usize)
        ensures
            r == self.selected_spec(),
    {
        self.selected
    }

    /// The entries of the list.
    pub fn list_items(&self) -> (r: &Vec<String>)
        ensures
            r.deep_view() == self.list_spec(),
    {
        &self.list_items
    }

    /// The search results.
    pub fn results(&self) -> (r: &Vec<FileResult>)
        ensures
            r@ == self.results_spec(),
    {
        &self.results
    }

    /// The highlighted lines of the file that is shown.
    fn current_file(&self) -> (f: &Vec<Vec<Region>>)
        requires
            self.wf(),
        ensures
            f@ == self.file_spec(),
    {
        &self.files[self.curr_location.result_idx]
    }

    /// The number of lines of the file that is shown.
    pub fn file_line_count(&self) -> (n: usize)
        requires
            self.wf(),
        ensures
            n == self.file_spec().len(),
    {
        self.current_file().len()
    }

    /// The file and line of the current match.
    pub fn curr_file_location(&self) -> (loc: FileLocation<'_>)
        requires
            self.wf(),
        ensures
            loc.file_path@ == self.results_spec()[self.result_idx_spec()].file_path@,
            loc.line_nr == self.current_match().line_nr,
    {
        let curr_result = &self.results[self.curr_location.result_idx];
        let curr_match = &curr_result.matches[self.curr_location.result_match_idx];
        FileLocation { file_path: curr_result.file_path.as_str(), line_nr: curr_match.line_nr }
    }

    /// The line of the current match, counted from 1.
    pub fn line_nr(&self) -> (n: u64)
        requires
            self.wf(),
        ensures
            n == self.current_match().line_nr,
    {
        self.curr_file_location().line_nr
    }

    /// The shown file as it is drawn: each line in its regions' colours, and
    /// the line of the current match on the highlight background.
    pub fn make_styled(&self) -> (lines: Vec<Vec<StyledSpan>>)
        requires
            self.wf(),
        ensures
            lines@.len() == self.file_spec().len(),
            styles_file(lines@, self.file_spec(), 0, self.current_match().line_nr),
    {
        let line_nr = self.line_nr();
        self.styled_lines(0, self.current_file().len(), line_nr)
    }

    fn styled_lines(&self, lower: usize, upper: usize, line_nr: u64) -> (lines: Vec<
        Vec<StyledSpan>,
    >)
        requires
            self.wf(),
            lower <= upper <= self.file_spec().len(),
        ensures
            lines@.len() == upper - lower,
            styles_file(lines@, self.file_spec(), lower as int, line_nr),
    {
        let file = self.current_file();
        let mut out: Vec<Vec<StyledSpan>> = Vec::new();
        let mut idx = lower;
        while idx < upper
            invariant
                lower <= idx <= upper <= file@.len(),
                out@.len() == idx - lower,
                styles_file(out@, file@, lower as int, line_nr),
            decreases upper - idx,
        {
            let line = style_line(&file[idx], idx, line_nr);
            out.push(line);
            idx = idx + 1;
        }
        out
    }

    /// The range of lines of the shown file that is drawn: from ten lines
    /// before the current match's line (or the start) to twenty lines after
    /// it (or the end).
    pub fn visible_window(&self) -> (window: (usize, usize))
        requires
            self.wf(),
            self.current_match().line_nr <= u64::MAX - 20,
            self.current_match().line_nr - 10 <= self.file_spec().len(),
        ensures
            window.0 == if self.current_match().line_nr >= 10 {
                self.current_match().line_nr - 10
            } else {
                0
            },
            window.1 == if self.current_match().line_nr + 20 <= self.file_spec().len() {
                self.current_match().line_nr + 20
            } else {
                self.file_spec().len() as int
            },
            window.0 <= window.1 <= self.file_spec().len(),
            1 <= self.current_match().line_nr <= self.file_spec().len() ==> window.0
                <= self.current_match().line_nr - 1 < window.1,
    {
        let line_nr = self.line_nr();
        let line_lower = line_nr.saturating_sub(10);
        let n = self.current_file().len() as u64;
        let line_upper = if line_nr + 20 <= n {
            line_nr + 20
        } else {
            n
        };
        (line_lower as usize, line_upper as usize)
    }

    /// The lines of the shown file that are drawn, styled as `make_styled`
    /// styles them.
    pub fn visible_lines(&self) -> (lines: Vec<Vec<StyledSpan>>)
        requires
            self.wf(),
            self.current_match().line_nr <= u64::MAX - 20,
            self.current_match().line_nr - 10 <= self.file_spec().len(),
        ensures
            ({
                let line_nr = self.current_match().line_nr;
                let lower = if line_nr >= 10 {
                    line_nr - 10
                } else {
                    0
                };
                let upper = if line_nr + 20 <= self.file_spec().len() {
                    line_nr + 20
                } else {
                    self.file_spec().len() as int
                };
                &&& lines@.len() == upper - lower
                &&& styles_file(lines@, self.file_spec(), lower, line_nr)
            }),
    {
        let (lower, upper) = self.visible_window();
        let line_nr = self.line_nr();
        self.styled_lines(lower, upper, line_nr)
    }

    /// Takes the decisions for one terminal event: moves the selection on
    /// an arrow key or `k`/`j`, and says what the program does next.
    pub fn handle_input(&mut self, input: Input) -> (action: Action)
        requires
            old(self).wf(),
        ensures
            final(self).wf(),
            action == action_for(input),
            final(self).results_spec() == old(self).results_spec(),
            final(self).list_spec() == old(self).list_spec(),
            final(self).files_spec() == old(self).files_spec(),
            move_for(input) == Move::Up ==> (
            final(self).result_idx_spec(),
            final(self).result_match_idx_spec(),
            ) == up_location(
                old(self).results_spec(),
                old(self).result_idx_spec(),
                old(self).result_match_idx_spec(),
            ),
            move_for(input) == Move::Down ==> (
            final(self).result_idx_spec(),
            final(self).result_match_idx_spec(),
            ) == down_location(
                old(self).results_spec(),
                old(self).result_idx_spec(),
                old(self).result_match_idx_spec(),
            ),
            move_for(input) == Move::Stay ==> (
            final(self).result_idx_spec(),
            final(self).result_match_idx_spec(),
            ) == (old(self).result_idx_spec(), old(self).result_match_idx_spec()),
    {
        match input {
            Input::Key { code, modifiers } => match modifiers {
                Modifiers::Empty => match code {
                    KeyCode::Up => {
                        self.up();
                        Action::Redraw
                    },
                    KeyCode::Down => {
                        self.down();
                        Action::Redraw
                    },
                    KeyCode::Enter => Action::OpenFile,
                    KeyCode::Char(c) => {
                        if c == 'k' {
                            self.up();
                            Action::Redraw
                        } else if c == 'j' {
                            self.down();
                            Action::Redraw
                        } else if c == 'q' {
                            Action::Quit
                        } else {
                            Action::Redraw
                        }
                    },
                    KeyCode::Other => Action::Redraw,
                },
                Modifiers::Control => Action::Quit,
                Modifiers::Other => Action::Ignore,
            },
            Input::Resize => Action::Redraw,
            Input::Other => Action::Ignore,
        }
    }
}


// ---------------------------------------------------------------------------
// Laws of navigation
// ---------------------------------------------------------------------------

/// Entries of matches are ordered as the matches are: by file, then within a
/// file.
pub proof fn lemma_position_order(rs: Seq<FileResult>, r1: int, m1: int, r2: int, m2: int)
    requires
        valid_location(rs, r1, m1),
        valid_location(rs, r2, m2),
    ensures
        position(rs, r1, m1) < position(rs, r2, m2) <==> (r1 < r2 || (r1 == r2 && m1 < m2)),
        position(rs, r1, m1) == position(rs, r2, m2) <==> (r1 == r2 && m1 == m2),
{
    if r1 < r2 {
        lemma_prefix_grows(rs, r1 + 1, r2);
    } else if r2 < r1 {
        lemma_prefix_grows(rs, r2 + 1, r1);
    }
}

/// The selected entry of the list is the current match's entry, and its
/// file's entry stands before it.
pub proof fn lemma_selected_entry(app: App)
    requires
        app.wf(),
    ensures
        0 <= app.selected_spec() < app.list_spec().len(),
        app.list_spec()[app.selected_spec()] == match_label(app.current_match()),
        app.list_spec()[prefix_len(app.results_spec(), app.result_idx_spec())] == app.results_spec()[app.result_idx_spec()].file_path@,
{
    let rs = app.results_spec();
    lemma_position_bound(rs, app.result_idx_spec(), app.result_match_idx_spec());
    lemma_prefix_grows(rs, 0, app.result_idx_spec());
    lemma_labels_at(rs, rs.len() as int, app.result_idx_spec(), app.result_match_idx_spec());
}

/// Moving down leads to the next match in the list: no match's entry lies
/// between the two, and it stays put only at the very last match.
pub proof fn lemma_down_is_next(rs: Seq<FileResult>, ri: int, mi: int)
    requires
        all_nonempty(rs),
        valid_location(rs, ri, mi),
    ensures
        valid_location(rs, down_location(rs, ri, mi).0, down_location(rs, ri, mi).1),
        down_location(rs, ri, mi) == (ri, mi) <==> (ri == rs.len() - 1 && mi
            == rs[ri].matches@.len() - 1),
        forall|r: int, m: int|
            valid_location(rs, r, m) && position(rs, ri, mi) < position(rs, r, m) ==> position(
                rs,
                down_location(rs, ri, mi).0,
                down_location(rs, ri, mi).1,
            ) <= #[trigger] position(rs, r, m),
{
    let d = down_location(rs, ri, mi);
    if ri < rs.len() - 1 {
        assert(rs[ri + 1].matches@.len() > 0);
    }
    assert forall|r: int, m: int|
        valid_location(rs, r, m) && position(rs, ri, mi) < position(
            rs,
            r,
            m,
        ) implies position(rs, d.0, d.1) <= #[trigger] position(rs, r, m) by {
        lemma_position_order(rs, ri, mi, r, m);
        lemma_position_order(rs, d.0, d.1, r, m);
    }
}

/// Moving up leads to the previous match in the list: no match's entry lies
/// between the two, and it stays put only at the very first match.
pub proof fn lemma_up_is_previous(rs: Seq<FileResult>, ri: int, mi: int)
    requires
        all_nonempty(rs),
        valid_location(rs, ri, mi),
    ensures
        valid_location(rs, up_location(rs, ri, mi).0, up_location(rs, ri, mi).1),
        up_location(rs, ri, mi) == (ri, mi) <==> (ri == 0 && mi == 0),
        forall|r: int, m: int|
            valid_location(rs, r, m) && position(rs, r, m) < position(rs, ri, mi) ==> #[trigger] position(
                rs,
                r,
                m,
            ) <= position(rs, up_location(rs, ri, mi).0, up_location(rs, ri, mi).1),
{
    let u = up_location(rs, ri, mi);
    if ri > 0 {
        assert(rs[ri - 1].matches@.len() > 0);
    }
    assert forall|r: int, m: int|
        valid_location(rs, r, m) && position(rs, r, m) < position(
            rs,
            ri,
            mi,
        ) implies #[trigger] position(rs, r, m) <= position(rs, u.0, u.1) by {
        lemma_position_order(rs, r, m, ri, mi);
        lemma_position_order(rs, r, m, u.0, u.1);
    }
}

/// A move down is undone by a move up.
pub proof fn lemma_up_undoes_down(rs: Seq<FileResult>, ri: int, mi: int)
    requires
        all_nonempty(rs),
        valid_location(rs, ri, mi),
        down_location(rs, ri, mi) != (ri, mi),
    ensures
        up_location(rs, down_location(rs, ri, mi).0, down_location(rs, ri, mi).1) == (ri, mi),
{
}

/// A move up is undone by a move down.
pub proof fn lemma_down_undoes_up(rs: Seq<FileResult>, ri: int, mi: int)
    requires
        all_nonempty(rs),
        valid_location(rs, ri, mi),
        up_location(rs, ri, mi) != (ri, mi),
    ensures
        down_location(rs, up_location(rs, ri, mi).0, up_location(rs, ri, mi).1) == (ri, mi),
{
    if ri > 0 {
        assert(rs[ri - 1].matches@.len() > 0);
    }
}


// ---------------------------------------------------------------------------
// Laws of input handling
// ---------------------------------------------------------------------------

/// Every key pressed with Control alone asks to leave the program, whatever
/// the key.
pub proof fn lemma_control_quits(code: KeyCode)
    ensures
        action_for(Input::Key { code, modifiers: Modifiers::Control }) == Action::Quit,
        move_for(Input::Key { code, modifiers: Modifiers::Control }) == Move::Stay,
{
}

/// An event asks to leave the program exactly when it is a key pressed with
/// Control alone, or `q` pressed without modifiers.
pub proof fn lemma_quit_inputs(input: Input)
    ensures
        action_for(input) == Action::Quit <==> (input matches Input::Key { code, modifiers } && (
        modifiers == Modifiers::Control || (modifiers == Modifiers::Empty && code
            == KeyCode::Char('q')))),
{
}

/// Only a key pressed without modifiers moves the selection, and a move is
/// always followed by drawing the screen again.
pub proof fn lemma_moves_redraw(input: Input)
    ensures
        move_for(input) != Move::Stay ==> action_for(input) == Action::Redraw && (
        input matches Input::Key { modifiers, .. } && modifiers == Modifiers::Empty),
        action_for(input) == Action::OpenFile <==> input == (Input::Key {
            code: KeyCode::Enter,
            modifiers: Modifiers::Empty,
        }),
{
}

// ---------------------------------------------------------------------------
// Laws of drawing
// ---------------------------------------------------------------------------

/// A file drawn as `styles_file` says keeps each region's colour and text,
/// and exactly the line numbered `line_nr` (counted from 1) is drawn on the
/// highlight background, Rgb(23, 30, 102); every other line has none.
pub proof fn lemma_current_line_marked(
    lines: Seq<Vec<StyledSpan>>,
    file: Seq<Vec<Region>>,
    from: int,
    line_nr: u64,
)
    requires
        from >= 0,
        styles_file(lines, file, from, line_nr),
    ensures
        forall|i: int, k: int|
            0 <= i < lines.len() && 0 <= k < lines[i]@.len() ==> {
                let span = #[trigger] lines[i]@[k];
                &&& span.fg == file[from + i]@[k].fg
                &&& span.text@ == file[from + i]@[k].text@
                &&& span.bg == if from + i + 1 == line_nr {
                    Some(Rgb { r: 23, g: 30, b: 102 })
                } else {
                    None::<Rgb>
                }
            },
{
    assert forall|i: int, k: int| 0 <= i < lines.len() && 0 <= k < lines[i]@.len() implies {
        let span = #[trigger] lines[i]@[k];
        &&& span.fg == file[from + i]@[k].fg
        &&& span.text@ == file[from + i]@[k].text@
        &&& span.bg == if from + i + 1 == line_nr {
            Some(Rgb { r: 23, g: 30, b: 102 })
        } else {
            None::<Rgb>
        }
    } by {
        assert(span_view(lines[i]@[k]) == styled(file[from + i]@[k], from + i, line_nr));
    }
}

/// At most one line of a drawn file is on the highlight background; when
/// the file has at least `line_nr` lines and `line_nr >= 1`, it is line
/// `line_nr`, and every one of its regions is marked.
pub proof fn lemma_one_line_marked(lines: Seq<Vec<StyledSpan>>, file: Seq<Vec<Region>>, line_nr: u64)
    requires
        styles_file(lines, file, 0, line_nr),
    ensures
        forall|i: int, j: int, k: int, l: int|
            0 <= i < lines.len() && 0 <= j < lines.len() && 0 <= k < lines[i]@.len() && 0 <= l
                < lines[j]@.len() && (#[trigger] lines[i]@[k]).bg is Some && (
            #[trigger] lines[j]@[l]).bg is Some ==> i == j,
        forall|i: int, k: int|
            0 <= i < lines.len() && 0 <= k < lines[i]@.len() && i + 1 == line_nr ==> (
            #[trigger] lines[i]@[k]).bg is Some,
{
    lemma_current_line_marked(lines, file, 0, line_nr);
}

// ---------------------------------------------------------------------------
// Laws of the list's entries
// ---------------------------------------------------------------------------

/// The number that a text of decimal digits stands for, most significant
/// digit first.
pub open spec fn digits_value(s: Seq<char>) -> int
    decreases s.len(),
{
    if s.len() == 0 {
        0
    } else {
        digits_value(s.drop_last()) * 10 + ((s.last() as u32) as int - 48)
    }
}

/// A numeral as `Display` writes a number: one or more decimal digits, with
/// no leading zero unless the number is zero.
pub open spec fn is_numeral(s: Seq<char>) -> bool {
    &&& s.len() >= 1
    &&& forall|i: int| 0 <= i < s.len() ==> '0' <= #[trigger] s[i] <= '9'
    &&& (s[0] == '0' ==> s.len() == 1)
}

proof fn lemma_decimal_reads_back(n: nat)
    ensures
        is_numeral(decimal(n)),
        digits_value(decimal(n)) == n,
        decimal(n)[0] == '0' <==> n == 0,
    decreases n,
{
    if n >= 10 {
        lemma_decimal_reads_back(n / 10);
        let q = decimal(n / 10);
        let d = decimal(n);
        assert(d == q.push(digit_char(n % 10)));
        assert(d.drop_last() =~= q);
        assert(d[0] == q[0]);
        assert(digit_char(n % 10) as u32 == 48 + n % 10);
        assert(d.last() == digit_char(n % 10));
        assert(digits_value(d) == digits_value(q) * 10 + ((d.last() as u32) as int - 48));
        assert(digits_value(d) == (n / 10) * 10 + n % 10);
        assert forall|i: int| 0 <= i < d.len() implies '0' <= #[trigger] d[i] <= '9' by {
            if i < q.len() {
                assert(d[i] == q[i]);
            }
        }
    } else {
        assert(digit_char(n) as u32 == 48 + n);
        assert(decimal(n).drop_last() =~= Seq::<char>::empty());
        assert(digits_value(Seq::<char>::empty()) == 0);
        assert(decimal(n).last() == digit_char(n));
    }
}

/// A match's entry in the list reads: its line number as `Display` writes
/// it (decimal digits, most significant first), then ": ", then the line.
pub proof fn lemma_match_label_reads(m: Match)
    ensures
        ({
            let label = match_label(m);
            let k = label.len() - m.match_str@.len() - 2;
            &&& k >= 1
            &&& is_numeral(label.take(k))
            &&& digits_value(label.take(k)) == m.line_nr
            &&& label[k] == ':'
            &&& label[k + 1] == ' '
            &&& label.skip(k + 2) == m.match_str@
        }),
{
    let label = match_label(m);
    let num = decimal(m.line_nr as nat);
    lemma_decimal_reads_back(m.line_nr as nat);
    let k = label.len() - m.match_str@.len() - 2;
    assert(k == num.len());
    assert(label.take(k) =~= num);
    assert(label.skip(k + 2) =~= m.match_str@);
}

} // verus!
