//! The transition CSV read by the offline trainer: line splitting, the
//! quoted-cell parser, column lookup and the per-row decisions.
use vstd::prelude::*;

use crate::model::ACTION_COUNT;
use crate::text::{
    blank, chars_of, concat, owned, is_blank, parse_usize, parsed_usize, str_eq,
    string_from_chars, to_lowercase, trim, trimmed, unicode_lowercase,
};

verus! {

/// The characters of each string.
pub open spec fn views(v: Seq<String>) -> Seq<Seq<char>> {
    v.map_values(|s: String| s@)
}

/// `current` without one trailing carriage return.
pub open spec fn strip_cr(current: Seq<char>) -> Seq<char> {
    if current.len() > 0 && current.last() == '\r' {
        current.drop_last()
    } else {
        current
    }
}

/// The lines of `text` from position `i` on, given the lines already cut
/// and the unfinished line `current`: each `\n` ends a line, which loses one
/// trailing `\r`; a last line without `\n` is kept as it is, and an empty one
/// is dropped. This is the splitting of `str::lines`.
pub open spec fn line_scan(
    text: Seq<char>,
    i: int,
    lines: Seq<Seq<char>>,
    current: Seq<char>,
) -> Seq<Seq<char>>
    decreases text.len() - i,
{
    if i >= text.len() {
        if current.len() > 0 {
            lines.push(current)
        } else {
            lines
        }
    } else if text[i] == '\n' {
        line_scan(text, i + 1, lines.push(strip_cr(current)), Seq::empty())
    } else {
        line_scan(text, i + 1, lines, current.push(text[i]))
    }
}

/// The lines of `text`.
pub open spec fn text_lines(text: Seq<char>) -> Seq<Seq<char>> {
    line_scan(text, 0, Seq::empty(), Seq::empty())
}

/// `cs` without one trailing carriage return, as a new `String`.
fn finish_line(cs: &Vec<char>) -> (s: String)
    ensures
        s@ == strip_cr(cs@),
{
    let n = cs.len();
    if n > 0 && cs[n - 1] == '\r' {
        let mut trimmed: Vec<char> = Vec::new();
        let mut i: usize = 0;
        while i < n - 1
            invariant
                n == cs@.len(),
                n > 0,
                0 <= i <= n - 1,
                trimmed@ == cs@.subrange(0, i as int),
            decreases n - 1 - i,
        {
            trimmed.push(cs[i]);
            assert(cs@.subrange(0, i + 1) =~= cs@.subrange(0, i as int).push(cs@[i as int]));
            i = i + 1;
        }
        assert(cs@.drop_last() =~= cs@.subrange(0, n - 1));
        string_from_chars(&trimmed)
    } else {
        string_from_chars(cs)
    }
}

/// Splits `text` into lines at `\n`, dropping one `\r` before each `\n`, as
/// `str::lines` does.
pub fn split_lines(text: &str) -> (lines: Vec<String>)
    ensures
        views(lines@) == text_lines(text@),
{
    let cs = chars_of(text);
    let mut lines: Vec<String> = Vec::new();
    let mut current: Vec<char> = Vec::new();
    let mut i: usize = 0;
    assert(views(lines@) =~= Seq::<Seq<char>>::empty());
    assert(current@ =~= Seq::<char>::empty());
    while i < cs.len()
        invariant
            0 <= i <= cs@.len(),
            cs@ == text@,
            line_scan(cs@, i as int, views(lines@), current@) == text_lines(text@),
        decreases cs@.len() - i,
    {
        if cs[i] == '\n' {
            let line = finish_line(&current);
            let ghost before = lines@;
            lines.push(line);
            assert(views(lines@) =~= views(before).push(strip_cr(current@)));
            current = Vec::new();
        } else {
            current.push(cs[i]);
        }
        i = i + 1;
    }
    if current.len() > 0 {
        let line = string_from_chars(&current);
        let ghost before = lines@;
        lines.push(line);
        assert(views(lines@) =~= views(before).push(current@));
    }
    lines
}

/// The cells of a CSV line from position `i` on, given the cells already
/// finished, the unfinished cell `current` and whether a quoted section is
/// open: a comma outside quotes ends a cell, a quote opens or closes a quoted
/// section and is dropped, two quotes inside a quoted section stand for one
/// quote, and every other character is kept.
pub open spec fn csv_scan(
    line: Seq<char>,
    i: int,
    cells: Seq<Seq<char>>,
    current: Seq<char>,
    in_quotes: bool,
) -> Seq<Seq<char>>
    decreases line.len() - i,
{
    if i >= line.len() {
        cells.push(current)
    } else if line[i] == '"' && in_quotes && i + 1 < line.len() && line[i + 1] == '"' {
        csv_scan(line, i + 2, cells, current.push('"'), in_quotes)
    } else if line[i] == '"' {
        csv_scan(line, i + 1, cells, current, !in_quotes)
    } else if line[i] == ',' && !in_quotes {
        csv_scan(line, i + 1, cells.push(current), Seq::empty(), in_quotes)
    } else {
        csv_scan(line, i + 1, cells, current.push(line[i]), in_quotes)
    }
}

/// The cells of the CSV line `line`.
pub open spec fn csv_cells(line: Seq<char>) -> Seq<Seq<char>> {
    csv_scan(line, 0, Seq::empty(), Seq::empty(), false)
}

/// Splits one CSV line into its cells, honouring double-quoted sections and
/// doubled quotes inside them.
pub fn parse_csv_line(line: &str) -> (cells: Vec<String>)
    ensures
        views(cells@) == csv_cells(line@),
{
    let cs = chars_of(line);
    let mut cells: Vec<String> = Vec::new();
    let mut current: Vec<char> = Vec::new();
    let mut in_quotes = false;
    let mut i: usize = 0;
    assert(views(cells@) =~= Seq::<Seq<char>>::empty());
    assert(current@ =~= Seq::<char>::empty());
    while i < cs.len()
        invariant
            0 <= i <= cs@.len(),
            cs@ == line@,
            csv_scan(cs@, i as int, views(cells@), current@, in_quotes) == csv_cells(line@),
        decreases cs@.len() - i,
    {
        let ch = cs[i];
        if ch == '"' && in_quotes && i + 1 < cs.len() && cs[i + 1] == '"' {
            current.push('"');
            i = i + 2;
        } else if ch == '"' {
            in_quotes = !in_quotes;
            i = i + 1;
        } else if ch == ',' && !in_quotes {
            let cell = string_from_chars(&current);
            let ghost before = cells@;
            cells.push(cell);
            assert(views(cells@) =~= views(before).push(current@));
            current = Vec::new();
            i = i + 1;
        } else {
            current.push(ch);
            i = i + 1;
        }
    }
    let cell = string_from_chars(&current);
    let ghost before = cells@;
    cells.push(cell);
    assert(views(cells@) =~= views(before).push(current@));
    cells
}

/// The cells joined by commas.
pub open spec fn join_cells(cells: Seq<Seq<char>>) -> Seq<char>
    decreases cells.len(),
{
    if cells.len() <= 1 {
        if cells.len() == 1 {
            cells[0]
        } else {
            Seq::empty()
        }
    } else {
        cells[0] + seq![','] + join_cells(cells.drop_first())
    }
}

/// No comma and no double quote in `s`.
pub open spec fn is_plain_cell(s: Seq<char>) -> bool {
    forall|k: int| 0 <= k < s.len() ==> #[trigger] s[k] != ',' && s[k] != '"'
}

/// Scanning plain characters outside quotes only extends the current cell.
proof fn lemma_scan_plain(
    line: Seq<char>,
    i: int,
    j: int,
    cells: Seq<Seq<char>>,
    current: Seq<char>,
)
    requires
        0 <= i <= j <= line.len(),
        is_plain_cell(line.subrange(i, j)),
    ensures
        csv_scan(line, i, cells, current, false) == csv_scan(
            line,
            j,
            cells,
            current + line.subrange(i, j),
            false,
        ),
    decreases j - i,
{
    if i == j {
        assert(current + line.subrange(i, j) =~= current);
    } else {
        assert(line.subrange(i, j)[0] == line[i]);
        assert(line.subrange(i + 1, j) =~= line.subrange(i, j).drop_first());
        lemma_scan_plain(line, i + 1, j, cells, current.push(line[i]));
        assert(current.push(line[i]) + line.subrange(i + 1, j) =~= current + line.subrange(i, j));
    }
}

/// Scanning a joined list of plain cells from a cell boundary adds exactly
/// those cells.
proof fn lemma_scan_joined(line: Seq<char>, i: int, cells: Seq<Seq<char>>, rest: Seq<Seq<char>>)
    requires
        rest.len() >= 1,
        forall|k: int| 0 <= k < rest.len() ==> is_plain_cell(#[trigger] rest[k]),
        0 <= i <= line.len(),
        line.subrange(i, line.len() as int) == join_cells(rest),
    ensures
        csv_scan(line, i, cells, Seq::empty(), false) == cells + rest,
    decreases rest.len(),
{
    let c = rest[0];
    let j = i + c.len();
    if rest.len() == 1 {
        assert(line.subrange(i, j) =~= c);
        lemma_scan_plain(line, i, j, cells, Seq::empty());
        assert(Seq::<char>::empty() + c =~= c);
        assert(cells.push(c) =~= cells + rest);
    } else {
        let tail = line.subrange(i, line.len() as int);
        assert(tail =~= c + seq![','] + join_cells(rest.drop_first()));
        assert(line.subrange(i, j) =~= c);
        lemma_scan_plain(line, i, j, cells, Seq::empty());
        assert(Seq::<char>::empty() + c =~= c);
        assert(line[j] == tail[c.len() as int]);
        let jr = join_cells(rest.drop_first());
        assert(tail.subrange(c.len() as int + 1, tail.len() as int) =~= jr);
        assert(line.subrange(j + 1, line.len() as int) =~= tail.subrange(
            c.len() as int + 1,
            tail.len() as int,
        ));
        assert forall|k: int| 0 <= k < rest.drop_first().len() implies is_plain_cell(
            #[trigger] rest.drop_first()[k],
        ) by {
            assert(rest.drop_first()[k] == rest[k + 1]);
        }
        lemma_scan_joined(line, j + 1, cells.push(c), rest.drop_first());
        assert(cells.push(c) + rest.drop_first() =~= cells + rest);
    }
}

/// Joining cells that hold no comma and no quote with commas, then parsing
/// the line, gives the cells back.
pub proof fn lemma_csv_round_trip(cells: Seq<Seq<char>>)
    requires
        cells.len() >= 1,
        forall|k: int| 0 <= k < cells.len() ==> is_plain_cell(#[trigger] cells[k]),
    ensures
        csv_cells(join_cells(cells)) == cells,
{
    let line = join_cells(cells);
    assert(line.subrange(0, line.len() as int) =~= line);
    lemma_scan_joined(line, 0, Seq::empty(), cells);
    assert(Seq::<Seq<char>>::empty() + cells =~= cells);
}

/// The position of the last header equal to `name`, `None` when no header
/// is: later duplicates of a name shadow earlier ones.
pub open spec fn last_column(headers: Seq<Seq<char>>, name: Seq<char>) -> Option<int>
    decreases headers.len(),
{
    if headers.len() == 0 {
        None
    } else if headers.last() == name {
        Some(headers.len() - 1)
    } else {
        last_column(headers.drop_last(), name)
    }
}

/// A found column lies inside the header row and carries the name.
pub proof fn lemma_last_column_found(headers: Seq<Seq<char>>, name: Seq<char>)
    ensures
        last_column(headers, name) matches Some(i) ==> 0 <= i < headers.len() && headers[i]
            == name && forall|j: int| i < j < headers.len() ==> #[trigger] headers[j] != name,
        last_column(headers, name) is None ==> forall|j: int|
            0 <= j < headers.len() ==> #[trigger] headers[j] != name,
    decreases headers.len(),
{
    if headers.len() > 0 && headers.last() != name {
        let t = headers.drop_last();
        lemma_last_column_found(t, name);
        assert forall|j: int| 0 <= j < t.len() implies t[j] == #[trigger] headers[j] by {}
    }
}

/// The position of the last header equal to `name`.
pub fn column_index(headers: &[String], name: &str) -> (r: Option<usize>)
    ensures
        r matches Some(i) ==> last_column(views(headers@), name@) == Some(i as int),
        r is None ==> last_column(views(headers@), name@) is None,
{
    let ghost h = views(headers@);
    let mut k: usize = headers.len();
    assert(h.subrange(0, k as int) =~= h);
    while k > 0
        invariant
            0 <= k <= headers@.len(),
            h == views(headers@),
            last_column(h, name@) == last_column(h.subrange(0, k as int), name@),
        decreases k,
    {
        let ghost sub = h.subrange(0, k as int);
        assert(sub.drop_last() =~= h.subrange(0, k - 1));
        if str_eq(headers[k - 1].as_str(), name) {
            return Some(k - 1);
        }
        k = k - 1;
    }
    proof {
        assert(h.subrange(0, 0) =~= Seq::<Seq<char>>::empty());
    }
    None
}

/// Why a transition CSV cannot be read.
#[derive(Debug, Clone)]
pub enum CsvError {
    /// A required column (`action_id`, `reward` or `done`) is missing.
    MissingColumn { name: String },
    /// A `prev_`/`next_` feature column is missing.
    MissingFeatureColumn { column: String },
}

/// The characters of a `CsvError`.
pub enum CsvErrorView {
    MissingColumn(Seq<char>),
    MissingFeatureColumn(Seq<char>),
}

impl View for CsvError {
    type V = CsvErrorView;

    open spec fn view(&self) -> CsvErrorView {
        match self {
            CsvError::MissingColumn { name } => CsvErrorView::MissingColumn(name@),
            CsvError::MissingFeatureColumn { column } => CsvErrorView::MissingFeatureColumn(
                column@,
            ),
        }
    }
}

/// The position of a required column.
pub fn required_column(headers: &[String], name: &str) -> (r: Result<usize, CsvError>)
    ensures
        match last_column(views(headers@), name@) {
            Some(i) => r == Ok::<usize, CsvError>(i as usize),
            None => r matches Err(e) && e@ == CsvErrorView::MissingColumn(name@),
        },
{
    match column_index(headers, name) {
        Some(i) => Ok(i),
        None => Err(CsvError::MissingColumn { name: owned(name) }),
    }
}

/// The characters of each name.
pub open spec fn str_views(v: Seq<&str>) -> Seq<Seq<char>> {
    v.map_values(|s: &str| s@)
}

/// The positions of the columns `prefix + name` for each feature name in
/// order, or the first such column that is missing.
pub open spec fn feature_columns(
    headers: Seq<Seq<char>>,
    prefix: Seq<char>,
    names: Seq<Seq<char>>,
) -> Result<Seq<usize>, CsvErrorView>
    decreases names.len(),
{
    if names.len() == 0 {
        Ok(Seq::empty())
    } else {
        match feature_columns(headers, prefix, names.drop_last()) {
            Err(e) => Err(e),
            Ok(found) => match last_column(headers, prefix + names.last()) {
                Some(i) => Ok(found.push(i as usize)),
                None => Err(CsvErrorView::MissingFeatureColumn(prefix + names.last())),
            },
        }
    }
}

/// The positions of the `prefix + name` columns of the given features.
pub fn feature_indices(headers: &[String], prefix: &str, feature_names: &[&str]) -> (r: Result<
    Vec<usize>,
    CsvError,
>)
    ensures
        match feature_columns(views(headers@), prefix@, str_views(feature_names@)) {
            Ok(found) => r matches Ok(v) && v@ == found,
            Err(e) => r matches Err(err) && err@ == e,
        },
{
    let ghost names = str_views(feature_names@);
    let mut found: Vec<usize> = Vec::new();
    let mut k: usize = 0;
    assert(names.subrange(0, 0) =~= Seq::<Seq<char>>::empty());
    while k < feature_names.len()
        invariant
            0 <= k <= feature_names@.len(),
            names == str_views(feature_names@),
            feature_columns(views(headers@), prefix@, names.subrange(0, k as int)) == Ok::<
                Seq<usize>,
                CsvErrorView,
            >(found@),
        decreases feature_names@.len() - k,
    {
        let column = concat(prefix, feature_names[k]);
        let ghost next = names.subrange(0, k + 1);
        assert(next.drop_last() =~= names.subrange(0, k as int));
        assert(next.last() == feature_names@[k as int]@);
        match column_index(headers, column.as_str()) {
            Some(i) => {
                found.push(i);
            },
            None => {
                proof {
                    lemma_feature_columns_stop(views(headers@), prefix@, names, k as int + 1);
                }
                return Err(CsvError::MissingFeatureColumn { column });
            },
        }
        k = k + 1;
    }
    assert(names.subrange(0, names.len() as int) =~= names);
    Ok(found)
}

/// Once a prefix of the names fails, every longer prefix fails the same way.
proof fn lemma_feature_columns_stop(
    headers: Seq<Seq<char>>,
    prefix: Seq<char>,
    names: Seq<Seq<char>>,
    k: int,
)
    requires
        0 <= k <= names.len(),
        feature_columns(headers, prefix, names.subrange(0, k)) is Err,
    ensures
        feature_columns(headers, prefix, names) == feature_columns(
            headers,
            prefix,
            names.subrange(0, k),
        ),
    decreases names.len() - k,
{
    if k < names.len() {
        let next = names.subrange(0, k + 1);
        assert(next.drop_last() =~= names.subrange(0, k));
        lemma_feature_columns_stop(headers, prefix, names, k + 1);
    } else {
        assert(names.subrange(0, k) =~= names);
    }
}

/// Whether a CSV cell reads as true: after trimming white space and
/// lowercasing it is `1`, `true` or `yes`.
pub open spec fn is_true_cell(value: Seq<char>) -> bool {
    let v = unicode_lowercase(trimmed(value));
    v == "1"@ || v == "true"@ || v == "yes"@
}

/// Reads a CSV cell as a boolean.
pub fn parse_bool_cell(value: &str) -> (r: bool)
    ensures
        r == is_true_cell(value@),
{
    let t = trim(value);
    let lowered = to_lowercase(t.as_str());
    str_eq(lowered.as_str(), "1") || str_eq(lowered.as_str(), "true") || str_eq(
        lowered.as_str(),
        "yes",
    )
}

/// Where the fields of a transition sit in a CSV row.
#[derive(Debug, Clone)]
pub struct TransitionColumns {
    pub action: usize,
    pub reward: usize,
    pub done: usize,
    pub prev: Vec<usize>,
    pub next: Vec<usize>,
}

/// The positions of a `TransitionColumns`.
pub struct ColumnsView {
    pub action: usize,
    pub reward: usize,
    pub done: usize,
    pub prev: Seq<usize>,
    pub next: Seq<usize>,
}

impl View for TransitionColumns {
    type V = ColumnsView;

    open spec fn view(&self) -> ColumnsView {
        ColumnsView {
            action: self.action,
            reward: self.reward,
            done: self.done,
            prev: self.prev@,
            next: self.next@,
        }
    }
}

/// The columns of a transition CSV with the given header row: `action_id`,
/// `reward` and `done`, then `prev_<feature>` and `next_<feature>` for each
/// feature; the first one missing is the error.
pub open spec fn spec_transition_columns(headers: Seq<Seq<char>>, names: Seq<Seq<char>>) -> Result<
    ColumnsView,
    CsvErrorView,
> {
    match last_column(headers, "action_id"@) {
        None => Err(CsvErrorView::MissingColumn("action_id"@)),
        Some(action) => match last_column(headers, "reward"@) {
            None => Err(CsvErrorView::MissingColumn("reward"@)),
            Some(reward) => match last_column(headers, "done"@) {
                None => Err(CsvErrorView::MissingColumn("done"@)),
                Some(done) => match feature_columns(headers, "prev_"@, names) {
                    Err(e) => Err(e),
                    Ok(prev) => match feature_columns(headers, "next_"@, names) {
                        Err(e) => Err(e),
                        Ok(next) => Ok(
                            ColumnsView {
                                action: action as usize,
                                reward: reward as usize,
                                done: done as usize,
                                prev,
                                next,
                            },
                        ),
                    },
                },
            },
        },
    }
}

/// A header that carries `name` at `i` and nowhere after it finds `name` at
/// `i`.
proof fn lemma_last_column_at(headers: Seq<Seq<char>>, name: Seq<char>, i: int)
    requires
        0 <= i < headers.len(),
        headers[i] == name,
        forall|j: int| i < j < headers.len() ==> #[trigger] headers[j] != name,
    ensures
        last_column(headers, name) == Some(i),
    decreases headers.len(),
{
    if i < headers.len() - 1 {
        let t = headers.drop_last();
        assert forall|j: int| i < j < t.len() implies #[trigger] t[j] != name by {
            assert(t[j] == headers[j]);
        }
        lemma_last_column_at(t, name, i);
    }
}

/// The names, each behind `prefix`.
pub open spec fn prefixed(prefix: Seq<char>, names: Seq<Seq<char>>) -> Seq<Seq<char>> {
    names.map_values(|n: Seq<char>| prefix + n)
}

/// The header row the trainer writes its CSV with: `action_id`, `reward`,
/// `done`, then `prev_<feature>` and `next_<feature>` for each feature in
/// order.
pub open spec fn canonical_header(names: Seq<Seq<char>>) -> Seq<Seq<char>> {
    seq!["action_id"@, "reward"@, "done"@] + prefixed("prev_"@, names) + prefixed("next_"@, names)
}

/// The columns of the canonical header row.
pub open spec fn canonical_columns(n: nat) -> ColumnsView {
    ColumnsView {
        action: 0,
        reward: 1,
        done: 2,
        prev: Seq::new(n, |k: int| (3 + k) as usize),
        next: Seq::new(n, |k: int| (3 + n + k) as usize),
    }
}

/// The first character of each entry of the canonical header.
proof fn lemma_canonical_first_chars(names: Seq<Seq<char>>, j: int)
    requires
        0 <= j < canonical_header(names).len(),
    ensures
        canonical_header(names)[j].len() > 0,
        j == 0 ==> canonical_header(names)[j][0] == 'a',
        j == 1 ==> canonical_header(names)[j][0] == 'r',
        j == 2 ==> canonical_header(names)[j][0] == 'd',
        3 <= j < 3 + names.len() ==> canonical_header(names)[j] == "prev_"@ + names[j - 3]
            && canonical_header(names)[j][0] == 'p',
        3 + names.len() <= j ==> canonical_header(names)[j] == "next_"@ + names[j - 3
            - names.len()] && canonical_header(names)[j][0] == 'n',
{
    reveal_strlit("action_id");
    reveal_strlit("reward");
    reveal_strlit("done");
    reveal_strlit("prev_");
    reveal_strlit("next_");
    let h = canonical_header(names);
    let n = names.len() as int;
    if 3 <= j < 3 + n {
        assert(h[j] == prefixed("prev_"@, names)[j - 3]);
    } else if 3 + n <= j {
        assert(h[j] == prefixed("next_"@, names)[j - 3 - n]);
    }
}

/// The feature columns of the canonical header under `prefix_len`-char
/// prefix `prefix` start at `start`.
proof fn lemma_canonical_features(
    names: Seq<Seq<char>>,
    prefix: Seq<char>,
    start: int,
    m: int,
)
    requires
        0 <= m <= names.len(),
        prefix == "prev_"@ && start == 3 || prefix == "next_"@ && start == 3 + names.len(),
        forall|a: int, b: int|
            0 <= a < b < names.len() ==> #[trigger] names[a] != #[trigger] names[b],
    ensures
        feature_columns(canonical_header(names), prefix, names.subrange(0, m)) == Ok::<
            Seq<usize>,
            CsvErrorView,
        >(Seq::new(m as nat, |k: int| (start + k) as usize)),
    decreases m,
{
    reveal_strlit("prev_");
    reveal_strlit("next_");
    let h = canonical_header(names);
    let n = names.len() as int;
    if m == 0 {
        assert(Seq::new(0, |k: int| (start + k) as usize) =~= Seq::<usize>::empty());
    } else {
        let sub = names.subrange(0, m);
        assert(sub.drop_last() =~= names.subrange(0, m - 1));
        lemma_canonical_features(names, prefix, start, m - 1);
        let x = prefix + names[m - 1];
        let i = start + m - 1;
        lemma_canonical_first_chars(names, i);
        assert(h[i] == x);
        assert forall|j: int| i < j < h.len() implies #[trigger] h[j] != x by {
            lemma_canonical_first_chars(names, j);
            if prefix == "prev_"@ && j < 3 + n || prefix == "next_"@ {
                let other = if prefix == "prev_"@ {
                    j - 3
                } else {
                    j - 3 - n
                };
                assert(names[other] != names[m - 1]);
                if h[j] == x {
                    assert(names[other] =~= h[j].subrange(5, h[j].len() as int));
                    assert(names[m - 1] =~= x.subrange(5, x.len() as int));
                }
            } else {
                assert(h[j][0] != x[0]);
            }
        }
        lemma_last_column_at(h, x, i);
        assert(sub.last() == names[m - 1]);
        assert(Seq::new((m - 1) as nat, |k: int| (start + k) as usize).push(i as usize) =~= Seq::new(
            m as nat,
            |k: int| (start + k) as usize,
        ));
    }
}

/// The header row the trainer expects is read as expected: with distinct
/// feature names, `action_id`, `reward` and `done` are columns 0 to 2 and
/// the `prev_` and `next_` columns follow in feature order.
pub proof fn lemma_canonical_header_columns(names: Seq<Seq<char>>)
    requires
        forall|a: int, b: int|
            0 <= a < b < names.len() ==> #[trigger] names[a] != #[trigger] names[b],
    ensures
        spec_transition_columns(canonical_header(names), names) == Ok::<
            ColumnsView,
            CsvErrorView,
        >(canonical_columns(names.len())),
{
    reveal_strlit("action_id");
    reveal_strlit("reward");
    reveal_strlit("done");
    let h = canonical_header(names);
    let n = names.len() as int;
    assert forall|j: int| 0 < j < h.len() implies #[trigger] h[j] != "action_id"@ by {
        lemma_canonical_first_chars(names, j);
    }
    lemma_canonical_first_chars(names, 0);
    lemma_last_column_at(h, "action_id"@, 0);
    assert forall|j: int| 1 < j < h.len() implies #[trigger] h[j] != "reward"@ by {
        lemma_canonical_first_chars(names, j);
    }
    lemma_canonical_first_chars(names, 1);
    lemma_last_column_at(h, "reward"@, 1);
    assert forall|j: int| 2 < j < h.len() implies #[trigger] h[j] != "done"@ by {
        lemma_canonical_first_chars(names, j);
    }
    lemma_canonical_first_chars(names, 2);
    lemma_last_column_at(h, "done"@, 2);
    lemma_canonical_features(names, "prev_"@, 3, n);
    lemma_canonical_features(names, "next_"@, 3 + n, n);
    assert(names.subrange(0, n) =~= names);
}

/// Each found feature column carries `prefix` + the feature's name, and no
/// later header carries it: the columns follow the features in order.
pub proof fn lemma_feature_columns_named(
    headers: Seq<Seq<char>>,
    prefix: Seq<char>,
    names: Seq<Seq<char>>,
)
    requires
        headers.len() <= usize::MAX,
    ensures
        feature_columns(headers, prefix, names) matches Ok(found) ==> {
            &&& found.len() == names.len()
            &&& forall|k: int|
                0 <= k < names.len() ==> found[k] < headers.len() && headers[#[trigger] found[k] as int]
                    == prefix + names[k]
            &&& forall|k: int, j: int|
                0 <= k < names.len() && found[k] < j < headers.len() ==> #[trigger] headers[j]
                    != prefix + #[trigger] names[k]
        },
    decreases names.len(),
{
    if names.len() > 0 {
        let init = names.drop_last();
        lemma_feature_columns_named(headers, prefix, init);
        lemma_last_column_found(headers, prefix + names.last());
        if feature_columns(headers, prefix, names) is Ok {
            let found = feature_columns(headers, prefix, names)->Ok_0;
            assert(feature_columns(headers, prefix, init) is Ok);
            let before = feature_columns(headers, prefix, init)->Ok_0;
            let name = prefix + names.last();
            assert(last_column(headers, name) is Some);
            let i = last_column(headers, name)->Some_0;
            assert(found == before.push(i as usize));
            assert(names.last() == names[names.len() - 1]);
            assert forall|k: int| 0 <= k < names.len() implies found[k] < headers.len()
                && headers[#[trigger] found[k] as int] == prefix + names[k] by {
                if k < names.len() - 1 {
                    assert(found[k] == before[k]);
                    assert(names[k] == init[k]);
                } else {
                    assert(found[k] as int == i);
                }
            }
            assert forall|k: int, j: int|
                0 <= k < names.len() && found[k] < j < headers.len() implies #[trigger] headers[j]
                != prefix + #[trigger] names[k] by {
                if k < names.len() - 1 {
                    assert(found[k] == before[k]);
                    assert(names[k] == init[k]);
                } else {
                    assert(found[k] as int == i);
                    assert(headers[j] != name);
                }
            }
        }
    }
}

/// The columns found for a header row carry their names: `action_id`,
/// `reward`, `done`, and `prev_`/`next_` + each feature's name in feature
/// order.
pub proof fn lemma_transition_columns_named(headers: Seq<Seq<char>>, names: Seq<Seq<char>>)
    requires
        headers.len() <= usize::MAX,
    ensures
        spec_transition_columns(headers, names) matches Ok(c) ==> {
            &&& c.action < headers.len() && headers[c.action as int] == "action_id"@
            &&& c.reward < headers.len() && headers[c.reward as int] == "reward"@
            &&& c.done < headers.len() && headers[c.done as int] == "done"@
            &&& c.prev.len() == names.len()
            &&& c.next.len() == names.len()
            &&& forall|k: int|
                0 <= k < names.len() ==> c.prev[k] < headers.len() && headers[#[trigger] c.prev[k]
                    as int] == "prev_"@ + names[k]
            &&& forall|k: int|
                0 <= k < names.len() ==> c.next[k] < headers.len() && headers[#[trigger] c.next[k]
                    as int] == "next_"@ + names[k]
        },
{
    lemma_last_column_found(headers, "action_id"@);
    lemma_last_column_found(headers, "reward"@);
    lemma_last_column_found(headers, "done"@);
    lemma_feature_columns_named(headers, "prev_"@, names);
    lemma_feature_columns_named(headers, "next_"@, names);
}

/// Finds the columns of a transition CSV from its header cells.
pub fn transition_columns(headers: &[String], feature_names: &[&str]) -> (r: Result<
    TransitionColumns,
    CsvError,
>)
    ensures
        match spec_transition_columns(views(headers@), str_views(feature_names@)) {
            Ok(c) => r matches Ok(cols) && cols@ == c,
            Err(e) => r matches Err(err) && err@ == e,
        },
        r matches Ok(cols) ==> {
            &&& cols.action < headers@.len() && headers@[cols.action as int]@ == "action_id"@
            &&& cols.reward < headers@.len() && headers@[cols.reward as int]@ == "reward"@
            &&& cols.done < headers@.len() && headers@[cols.done as int]@ == "done"@
            &&& cols.prev@.len() == feature_names@.len()
            &&& cols.next@.len() == feature_names@.len()
            &&& forall|k: int|
                0 <= k < feature_names@.len() ==> cols.prev@[k] < headers@.len()
                    && headers@[#[trigger] cols.prev@[k] as int]@ == "prev_"@
                    + feature_names@[k]@
            &&& forall|k: int|
                0 <= k < feature_names@.len() ==> cols.next@[k] < headers@.len()
                    && headers@[#[trigger] cols.next@[k] as int]@ == "next_"@
                    + feature_names@[k]@
        },
{
    let action = match required_column(headers, "action_id") {
        Ok(i) => i,
        Err(e) => return Err(e),
    };
    let reward = match required_column(headers, "reward") {
        Ok(i) => i,
        Err(e) => return Err(e),
    };
    let done = match required_column(headers, "done") {
        Ok(i) => i,
        Err(e) => return Err(e),
    };
    let prev = match feature_indices(headers, "prev_", feature_names) {
        Ok(v) => v,
        Err(e) => return Err(e),
    };
    let next = match feature_indices(headers, "next_", feature_names) {
        Ok(v) => v,
        Err(e) => return Err(e),
    };
    proof {
        let h = views(headers@);
        let names = str_views(feature_names@);
        assert(h.len() == headers.len());
        lemma_transition_columns_named(h, names);
        assert forall|k: int| 0 <= k < feature_names@.len() implies prev@[k] < headers@.len()
            && headers@[#[trigger] prev@[k] as int]@ == "prev_"@ + feature_names@[k]@ by {
            assert(names[k] == feature_names@[k]@);
            assert(h[prev@[k] as int] == headers@[prev@[k] as int]@);
        }
        assert forall|k: int| 0 <= k < feature_names@.len() implies next@[k] < headers@.len()
            && headers@[#[trigger] next@[k] as int]@ == "next_"@ + feature_names@[k]@ by {
            assert(names[k] == feature_names@[k]@);
            assert(h[next@[k] as int] == headers@[next@[k] as int]@);
        }
        assert(h[action as int] == headers@[action as int]@);
        assert(h[reward as int] == headers@[reward as int]@);
        assert(h[done as int] == headers@[done as int]@);
    }
    Ok(TransitionColumns { action, reward, done, prev, next })
}

/// A transition row whose numbers are still text: the trainer reads the
/// reward and the feature cells as floats.
#[derive(Debug, Clone)]
pub struct RawTransition {
    pub state: Vec<String>,
    pub action: usize,
    pub reward: String,
    pub next_state: Vec<String>,
    pub done: bool,
}

/// What becomes of one non-blank CSV row; `line_number` counts the lines
/// after the header from zero, so the row is line `line_number + 2` of the
/// file.
#[derive(Debug, Clone)]
pub enum RowOutcome {
    Accepted(RawTransition),
    ShortRow { line_number: usize },
    InvalidAction { line_number: usize, action: usize },
}

/// The characters of a `RowOutcome`.
pub enum RowPlan {
    Accepted {
        state: Seq<Seq<char>>,
        action: usize,
        reward: Seq<char>,
        next_state: Seq<Seq<char>>,
        done: bool,
    },
    ShortRow { line_number: usize },
    InvalidAction { line_number: usize, action: usize },
}

impl View for RowOutcome {
    type V = RowPlan;

    open spec fn view(&self) -> RowPlan {
        match self {
            RowOutcome::Accepted(t) => RowPlan::Accepted {
                state: views(t.state@),
                action: t.action,
                reward: t.reward@,
                next_state: views(t.next_state@),
                done: t.done,
            },
            RowOutcome::ShortRow { line_number } => RowPlan::ShortRow { line_number: *line_number },
            RowOutcome::InvalidAction { line_number, action } => RowPlan::InvalidAction {
                line_number: *line_number,
                action: *action,
            },
        }
    }
}

/// Every column of `cols` lies within a row of `len` cells.
pub open spec fn columns_within(cols: ColumnsView, len: int) -> bool {
    &&& cols.action < len
    &&& cols.reward < len
    &&& cols.done < len
    &&& forall|k: int| 0 <= k < cols.prev.len() ==> #[trigger] cols.prev[k] < len
    &&& forall|k: int| 0 <= k < cols.next.len() ==> #[trigger] cols.next[k] < len
}

/// The cells at the given positions.
pub open spec fn pick_cells(cells: Seq<Seq<char>>, positions: Seq<usize>) -> Seq<Seq<char>> {
    positions.map_values(|i: usize| cells[i as int])
}

/// The decision on one row with cells `cells`: a row too short for some
/// column is skipped; an action cell that does not parse counts as action 0;
/// an action of `ACTION_COUNT` or more is skipped; otherwise the row is a
/// transition.
pub open spec fn plan_row(cells: Seq<Seq<char>>, cols: ColumnsView, line_number: usize) -> RowPlan {
    if !columns_within(cols, cells.len() as int) {
        RowPlan::ShortRow { line_number }
    } else {
        let action = match parsed_usize(cells[cols.action as int]) {
            Some(a) => a,
            None => 0,
        };
        if action >= ACTION_COUNT {
            RowPlan::InvalidAction { line_number, action }
        } else {
            RowPlan::Accepted {
                state: pick_cells(cells, cols.prev),
                action,
                reward: cells[cols.reward as int],
                next_state: pick_cells(cells, cols.next),
                done: is_true_cell(cells[cols.done as int]),
            }
        }
    }
}

/// Copies of the cells at the given positions.
fn copy_cells(cells: &Vec<String>, positions: &Vec<usize>) -> (r: Vec<String>)
    requires
        forall|k: int| 0 <= k < positions@.len() ==> #[trigger] positions@[k] < cells@.len(),
    ensures
        views(r@) == pick_cells(views(cells@), positions@),
{
    let mut r: Vec<String> = Vec::new();
    let mut k: usize = 0;
    while k < positions.len()
        invariant
            0 <= k <= positions@.len(),
            forall|j: int| 0 <= j < positions@.len() ==> #[trigger] positions@[j] < cells@.len(),
            views(r@) == pick_cells(views(cells@), positions@).subrange(0, k as int),
        decreases positions@.len() - k,
    {
        let cell = cells[positions[k]].clone();
        let ghost before = r@;
        assert(cell@ == views(cells@)[positions@[k as int] as int]);
        r.push(cell);
        assert(views(r@) =~= views(before).push(cell@));
        assert(views(r@) =~= pick_cells(views(cells@), positions@).subrange(0, k + 1));
        k = k + 1;
    }
    assert(pick_cells(views(cells@), positions@).subrange(0, k as int) =~= pick_cells(
        views(cells@),
        positions@,
    ));
    r
}

/// The picked cells are the cells at the positions, in position order.
proof fn lemma_picked_cells(cells: Seq<Seq<char>>, positions: Seq<usize>, picked: Seq<Seq<char>>)
    requires
        picked == pick_cells(cells, positions),
    ensures
        picked.len() == positions.len(),
        forall|k: int| 0 <= k < positions.len() ==> #[trigger] picked[k] == cells[positions[k] as int],
{
}

/// Whether every position is below `len`.
fn all_below(positions: &Vec<usize>, len: usize) -> (r: bool)
    ensures
        r == forall|k: int| 0 <= k < positions@.len() ==> #[trigger] positions@[k] < len,
{
    let mut k: usize = 0;
    while k < positions.len()
        invariant
            0 <= k <= positions@.len(),
            forall|j: int| 0 <= j < k ==> #[trigger] positions@[j] < len,
        decreases positions@.len() - k,
    {
        if positions[k] >= len {
            return false;
        }
        k = k + 1;
    }
    true
}

/// Decides one CSV row.
pub fn plan_transition_row(cells: &Vec<String>, cols: &TransitionColumns, line_number: usize) -> (r:
    RowOutcome)
    ensures
        r@ == plan_row(views(cells@), cols@, line_number),
        r matches RowOutcome::Accepted(t) ==> {
            &&& t.state@.len() == cols.prev@.len()
            &&& t.next_state@.len() == cols.next@.len()
            &&& forall|k: int|
                0 <= k < cols.prev@.len() ==> #[trigger] t.state@[k]@ == cells@[cols.prev@[k] as int]@
            &&& forall|k: int|
                0 <= k < cols.next@.len() ==> #[trigger] t.next_state@[k]@
                    == cells@[cols.next@[k] as int]@
            &&& t.reward@ == cells@[cols.reward as int]@
            &&& t.action < ACTION_COUNT
        },
{
    let n = cells.len();
    if !(cols.action < n && cols.reward < n && cols.done < n && all_below(&cols.prev, n)
        && all_below(&cols.next, n)) {
        return RowOutcome::ShortRow { line_number };
    }
    let action = match parse_usize(cells[cols.action].as_str()) {
        Some(a) => a,
        None => 0,
    };
    if action >= ACTION_COUNT {
        return RowOutcome::InvalidAction { line_number, action };
    }
    let done = parse_bool_cell(cells[cols.done].as_str());
    let state = copy_cells(cells, &cols.prev);
    let next_state = copy_cells(cells, &cols.next);
    let reward = cells[cols.reward].clone();
    proof {
        lemma_picked_cells(views(cells@), cols.prev@, views(state@));
        lemma_picked_cells(views(cells@), cols.next@, views(next_state@));
        assert forall|k: int| 0 <= k < cols.prev@.len() implies #[trigger] state@[k]@
            == cells@[cols.prev@[k] as int]@ by {
            assert(views(state@)[k] == state@[k]@);
        }
        assert forall|k: int| 0 <= k < cols.next@.len() implies #[trigger] next_state@[k]@
            == cells@[cols.next@[k] as int]@ by {
            assert(views(next_state@)[k] == next_state@[k]@);
        }
    }
    RowOutcome::Accepted(RawTransition { state, action, reward, next_state, done })
}

/// The decisions on the rows after the header: blank rows are passed over
/// without a word, the others are decided with their line number.
pub open spec fn planned_rows(body: Seq<Seq<char>>, cols: ColumnsView) -> Seq<RowPlan>
    decreases body.len(),
{
    if body.len() == 0 {
        Seq::empty()
    } else {
        let before = planned_rows(body.drop_last(), cols);
        let k = body.len() - 1;
        if is_blank(body[k]) {
            before
        } else {
            before.push(plan_row(csv_cells(body[k]), cols, k as usize))
        }
    }
}

/// What reading a transition CSV with text `text` gives: nothing for an
/// empty text, the header's error, or the decision on each non-blank row.
pub open spec fn spec_plan_transitions(text: Seq<char>, names: Seq<Seq<char>>) -> Result<
    Seq<RowPlan>,
    CsvErrorView,
> {
    let lines = text_lines(text);
    if lines.len() == 0 {
        Ok(Seq::empty())
    } else {
        match spec_transition_columns(csv_cells(lines[0]), names) {
            Err(e) => Err(e),
            Ok(cols) => Ok(planned_rows(lines.drop_first(), cols)),
        }
    }
}

/// The views of a list of row outcomes.
pub open spec fn plans(v: Seq<RowOutcome>) -> Seq<RowPlan> {
    v.map_values(|o: RowOutcome| o@)
}

/// Reads a transition CSV: finds the columns of the header row, then
/// decides each non-blank row. The cells that hold floats are handed back
/// as text.
pub fn plan_transitions(text: &str, feature_names: &[&str]) -> (r: Result<Vec<RowOutcome>, CsvError>)
    ensures
        match spec_plan_transitions(text@, str_views(feature_names@)) {
            Ok(p) => r matches Ok(v) && plans(v@) == p,
            Err(e) => r matches Err(err) && err@ == e,
        },
{
    let lines = split_lines(text);
    if lines.len() == 0 {
        let empty: Vec<RowOutcome> = Vec::new();
        assert(plans(empty@) =~= Seq::<RowPlan>::empty());
        return Ok(empty);
    }
    let headers = parse_csv_line(lines[0].as_str());
    let cols = match transition_columns(headers.as_slice(), feature_names) {
        Ok(c) => c,
        Err(e) => return Err(e),
    };
    let ghost body = views(lines@).drop_first();
    let mut outcomes: Vec<RowOutcome> = Vec::new();
    let mut k: usize = 1;
    assert(body.subrange(0, 0) =~= Seq::<Seq<char>>::empty());
    assert(plans(outcomes@) =~= Seq::<RowPlan>::empty());
    while k < lines.len()
        invariant
            1 <= k <= lines@.len(),
            body == views(lines@).drop_first(),
            plans(outcomes@) == planned_rows(body.subrange(0, k - 1), cols@),
        decreases lines@.len() - k,
    {
        let ghost sub = body.subrange(0, k as int);
        assert(sub.drop_last() =~= body.subrange(0, k - 1));
        assert(sub[k - 1] == lines@[k as int]@);
        let chars = chars_of(lines[k].as_str());
        if !blank(&chars) {
            let cells = parse_csv_line(lines[k].as_str());
            let outcome = plan_transition_row(&cells, &cols, k - 1);
            let ghost before = outcomes@;
            outcomes.push(outcome);
            assert(plans(outcomes@) =~= plans(before).push(outcome@));
        }
        k = k + 1;
    }
    assert(body.subrange(0, k - 1) =~= body);
    Ok(outcomes)
}

/// The fields of `line` from position `i` on, given the finished fields and
/// the unfinished field `current`: every comma ends a field, with no quoting
/// (the splitting of `str::split(',')`).
pub open spec fn comma_scan(
    line: Seq<char>,
    i: int,
    fields: Seq<Seq<char>>,
    current: Seq<char>,
) -> Seq<Seq<char>>
    decreases line.len() - i,
{
    if i >= line.len() {
        fields.push(current)
    } else if line[i] == ',' {
        comma_scan(line, i + 1, fields.push(current), Seq::empty())
    } else {
        comma_scan(line, i + 1, fields, current.push(line[i]))
    }
}

/// The comma-separated fields of `line`.
pub open spec fn comma_fields(line: Seq<char>) -> Seq<Seq<char>> {
    comma_scan(line, 0, Seq::empty(), Seq::empty())
}

/// Splits `line` at every comma.
pub fn split_commas(line: &str) -> (fields: Vec<String>)
    ensures
        views(fields@) == comma_fields(line@),
{
    let cs = chars_of(line);
    let mut fields: Vec<String> = Vec::new();
    let mut current: Vec<char> = Vec::new();
    let mut i: usize = 0;
    assert(views(fields@) =~= Seq::<Seq<char>>::empty());
    assert(current@ =~= Seq::<char>::empty());
    while i < cs.len()
        invariant
            0 <= i <= cs@.len(),
            cs@ == line@,
            comma_scan(cs@, i as int, views(fields@), current@) == comma_fields(line@),
        decreases cs@.len() - i,
    {
        if cs[i] == ',' {
            let field = string_from_chars(&current);
            let ghost before = fields@;
            fields.push(field);
            assert(views(fields@) =~= views(before).push(current@));
            current = Vec::new();
        } else {
            current.push(cs[i]);
        }
        i = i + 1;
    }
    let field = string_from_chars(&current);
    let ghost before = fields@;
    fields.push(field);
    assert(views(fields@) =~= views(before).push(current@));
    fields
}

/// Number of columns of a self-play report row.
pub const REPORT_COLUMNS: usize = 13;

/// Column of a report row that holds the evaluation score.
pub const REPORT_SCORE_COLUMN: usize = 9;

/// Column of a report row that holds the best episode.
pub const REPORT_BEST_EPISODE_COLUMN: usize = 12;

/// The score text and best episode of each full report row (the header row
/// skipped, rows of fewer than `REPORT_COLUMNS` fields passed over), or
/// `None` once a full row's best-episode field does not read as a count.
pub open spec fn report_candidates_of(rows: Seq<Seq<char>>) -> Option<Seq<(Seq<char>, usize)>>
    decreases rows.len(),
{
    if rows.len() == 0 {
        Some(Seq::empty())
    } else {
        match report_candidates_of(rows.drop_last()) {
            None => None,
            Some(found) => {
                let fields = comma_fields(rows.last());
                if fields.len() < REPORT_COLUMNS {
                    Some(found)
                } else {
                    match parsed_usize(fields[REPORT_BEST_EPISODE_COLUMN as int]) {
                        None => None,
                        Some(episode) => Some(
                            found.push((fields[REPORT_SCORE_COLUMN as int], episode)),
                        ),
                    }
                }
            },
        }
    }
}

/// The lines after the first one.
pub open spec fn after_header(lines: Seq<Seq<char>>) -> Seq<Seq<char>> {
    if lines.len() == 0 {
        Seq::empty()
    } else {
        lines.drop_first()
    }
}

/// The candidates for the best checkpoint recorded in a self-play report
/// with text `text`; the caller reads the score texts as floats.
pub fn report_candidates(text: &str) -> (r: Option<Vec<(String, usize)>>)
    ensures
        match report_candidates_of(after_header(text_lines(text@))) {
            None => r is None,
            Some(found) => r matches Some(v) && v@.map_values(|c: (String, usize)| (c.0@, c.1))
                == found,
        },
{
    let lines = split_lines(text);
    let mut found: Vec<(String, usize)> = Vec::new();
    if lines.len() == 0 {
        proof {
            assert(found@.map_values(|c: (String, usize)| (c.0@, c.1)) =~= Seq::<
                (Seq<char>, usize),
            >::empty());
        }
        return Some(found);
    }
    let ghost body = views(lines@).drop_first();
    let mut k: usize = 1;
    assert(body.subrange(0, 0) =~= Seq::<Seq<char>>::empty());
    assert(found@.map_values(|c: (String, usize)| (c.0@, c.1)) =~= Seq::<
        (Seq<char>, usize),
    >::empty());
    while k < lines.len()
        invariant
            1 <= k <= lines@.len(),
            body == views(lines@).drop_first(),
            body == after_header(text_lines(text@)),
            report_candidates_of(body.subrange(0, k - 1)) == Some(
                found@.map_values(|c: (String, usize)| (c.0@, c.1)),
            ),
        decreases lines@.len() - k,
    {
        let ghost sub = body.subrange(0, k as int);
        assert(sub.drop_last() =~= body.subrange(0, k - 1));
        assert(sub.last() == lines@[k as int]@);
        let fields = split_commas(lines[k].as_str());
        if fields.len() >= REPORT_COLUMNS {
            let episode = match parse_usize(fields[REPORT_BEST_EPISODE_COLUMN].as_str()) {
                Some(e) => e,
                None => {
                    proof {
                        lemma_report_candidates_stop(body, k as int);
                    }
                    return None;
                },
            };
            let score = fields[REPORT_SCORE_COLUMN].clone();
            let ghost before = found@;
            found.push((score, episode));
            assert(found@.map_values(|c: (String, usize)| (c.0@, c.1)) =~= before.map_values(
                |c: (String, usize)| (c.0@, c.1),
            ).push((views(fields@)[REPORT_SCORE_COLUMN as int], episode)));
        }
        k = k + 1;
    }
    assert(body.subrange(0, k - 1) =~= body);
    Some(found)
}

/// Once a prefix of the report rows gives `None`, so does every longer one.
proof fn lemma_report_candidates_stop(rows: Seq<Seq<char>>, k: int)
    requires
        0 <= k <= rows.len(),
        report_candidates_of(rows.subrange(0, k)) is None,
    ensures
        report_candidates_of(rows) is None,
    decreases rows.len() - k,
{
    if k < rows.len() {
        assert(rows.subrange(0, k + 1).drop_last() =~= rows.subrange(0, k));
        lemma_report_candidates_stop(rows, k + 1);
    } else {
        assert(rows.subrange(0, k) =~= rows);
    }
}

} // verus!
