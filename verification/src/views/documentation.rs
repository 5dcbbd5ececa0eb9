//! Documentation documents: load results, Markdown tables and link anchors.

use vstd::prelude::*;
use crate::views::language_drafts::{lookup, upsert};
use crate::text::{
    decimal, joined, lemma_trim_start_skip, string_push, strs_view, trim_start_seq, trim, u64_to_decimal,
    char_is_alphanumeric, chars_starts_with, copy_str, from_chars, is_white_space, is_whitespace, push_str,
    str_eq, to_chars, to_lowercase, trim_chars, trim_seq, unicode_alphanumeric, unicode_lowercase,
};

verus! {

/// Which document a documentation tab shows.
#[derive(Debug, Clone, Copy, PartialEq, Eq, Structural)]
pub enum DocumentationKind {
    Guide,
    Api,
    Cli,
    Mcp,
}

/// The outcome of loading a document, with the signature of its sources.
#[derive(Debug, Clone)]
pub enum DocumentLoad {
    Ready { source: String, signature: u64 },
    Missing { signature: u64 },
    Malformed { signature: u64, error: String },
}

/// The signature a load carries.
pub open spec fn load_signature(load: DocumentLoad) -> u64 {
    match load {
        DocumentLoad::Ready { signature, .. } => signature,
        DocumentLoad::Missing { signature } => signature,
        DocumentLoad::Malformed { signature, .. } => signature,
    }
}

impl DocumentLoad {
    /// The signature of the document's sources.
    pub fn signature(&self) -> (res: u64)
        ensures
            res == load_signature(*self),
    {
        match self {
            DocumentLoad::Ready { signature, .. } => *signature,
            DocumentLoad::Missing { signature } => *signature,
            DocumentLoad::Malformed { signature, .. } => *signature,
        }
    }
}

/// Load state of a documentation tab.
#[derive(Debug, Clone, Copy, PartialEq, Eq, Structural)]
pub enum DocumentStatus {
    NotLoaded,
    Loading,
    Ready,
    Missing,
    Malformed,
}

/// `Instant` of std: a reading of the monotonic clock.
#[verifier::external_type_specification]
#[verifier::external_body]
pub struct ExInstant(std::time::Instant);

/// `Instant::now`: the monotonic clock now. Nothing is stated of it.
#[verifier::external_body]
fn instant_now() -> std::time::Instant {
    std::time::Instant::now()
}

/// `Instant::elapsed`, as whole milliseconds: the time since `t` on the
/// monotonic clock. Nothing is stated of it.
#[verifier::external_body]
fn elapsed_millis(t: &std::time::Instant) -> u128 {
    t.elapsed().as_millis()
}

/// Least time between two checks of a document's sources, in milliseconds.
pub const CHECK_INTERVAL_MS: u128 = 1000;

/// Whether a document's sources are due for a check: never while loading;
/// otherwise when they were never checked or were checked at least a
/// second (`elapsed` milliseconds) ago.
pub open spec fn check_due_spec(status: DocumentStatus, elapsed: Option<u128>) -> bool {
    status != DocumentStatus::Loading && match elapsed {
        None => true,
        Some(ms) => ms >= CHECK_INTERVAL_MS,
    }
}

/// Whether a document's sources are due for a check, given the time since
/// the last check (none if never checked).
pub fn check_due(status: DocumentStatus, elapsed: Option<u128>) -> (res: bool)
    ensures
        res == check_due_spec(status, elapsed),
{
    status != DocumentStatus::Loading && match elapsed {
        None => true,
        Some(ms) => ms >= CHECK_INTERVAL_MS,
    }
}

/// The load state of a documentation tab. The parsed document that the
/// view renders is kept beside it.
#[derive(Debug, Clone)]
pub struct DocumentationState {
    pub kind: DocumentationKind,
    pub status: DocumentStatus,
    pub signature: u64,
    pub error: Option<String>,
    pub load_generation: u64,
    pub last_checked: Option<std::time::Instant>,
    pub parsed: ParsedDocument,
}

/// The status a load leads to.
pub open spec fn status_after(load: DocumentLoad) -> DocumentStatus {
    match load {
        DocumentLoad::Ready { .. } => DocumentStatus::Ready,
        DocumentLoad::Missing { .. } => DocumentStatus::Missing,
        DocumentLoad::Malformed { .. } => DocumentStatus::Malformed,
    }
}

/// The error a load leads to: that of a malformed document.
pub open spec fn error_after(load: DocumentLoad) -> Option<Seq<char>> {
    match load {
        DocumentLoad::Malformed { error, .. } => Some(error@),
        _ => None,
    }
}

/// The optional error's text.
pub open spec fn error_view(e: Option<String>) -> Option<Seq<char>> {
    match e {
        Some(x) => Some(x@),
        None => None,
    }
}

impl DocumentationState {
    /// Whether the sources were ever checked.
    pub open spec fn checked(&self) -> bool {
        self.last_checked is Some
    }

    /// A tab of `kind` with nothing loaded.
    pub fn new(kind: DocumentationKind) -> (s: Self)
        ensures
            s.kind == kind,
            s.status == DocumentStatus::NotLoaded,
            s.signature == 0,
            s.error is None,
            s.load_generation == 0,
            !s.checked(),
            s.parsed.is_empty(),
    {
        DocumentationState {
            kind,
            status: DocumentStatus::NotLoaded,
            signature: 0,
            error: None,
            load_generation: 0,
            last_checked: None,
            parsed: ParsedDocument::empty(),
        }
    }

    /// Starts a new load and returns its generation, one more than the last
    /// (saturating).
    pub fn start_loading(&mut self) -> (generation: u64)
        ensures
            generation == (if old(self).load_generation == u64::MAX { u64::MAX } else { (old(self).load_generation + 1) as u64 }),
            final(self).load_generation == generation,
            final(self).status == DocumentStatus::Loading,
            final(self).error is None,
            final(self).kind == old(self).kind,
            final(self).signature == old(self).signature,
            final(self).checked() == old(self).checked(),
            final(self).parsed == old(self).parsed,
    {
        self.load_generation = self.load_generation.saturating_add(1);
        self.status = DocumentStatus::Loading;
        self.error = None;
        self.load_generation
    }

    /// Takes the outcome of a load: its signature, the status it leads to,
    /// a malformed document's error, and the parse of a ready document's
    /// source (an empty document otherwise); the sources count as checked
    /// now.
    pub fn apply(&mut self, load: DocumentLoad)
        ensures
            match load {
                DocumentLoad::Ready { source, .. } => final(self).parsed.parses(source@),
                _ => final(self).parsed.is_empty(),
            },
            final(self).signature == load_signature(load),
            final(self).status == status_after(load),
            error_view(final(self).error) == error_after(load),
            final(self).checked(),
            final(self).kind == old(self).kind,
            final(self).load_generation == old(self).load_generation,
    {
        self.signature = load.signature();
        self.last_checked = Some(instant_now());
        match load {
            DocumentLoad::Ready { source, .. } => {
                self.parsed = parse_document(source.as_str());
                self.status = DocumentStatus::Ready;
                self.error = None;
            },
            DocumentLoad::Missing { .. } => {
                self.parsed = ParsedDocument::empty();
                self.status = DocumentStatus::Missing;
                self.error = None;
            },
            DocumentLoad::Malformed { error, .. } => {
                self.parsed = ParsedDocument::empty();
                self.status = DocumentStatus::Malformed;
                self.error = Some(error);
            },
        }
    }

    /// Whether the sources are due for a check: never while loading, always
    /// when never checked, and otherwise once a second has passed on the
    /// monotonic clock.
    pub fn should_check(&self) -> (res: bool)
        ensures
            self.status == DocumentStatus::Loading ==> !res,
            self.status != DocumentStatus::Loading && !self.checked() ==> res,
    {
        let elapsed = match &self.last_checked {
            Some(t) => Some(elapsed_millis(t)),
            None => None,
        };
        check_due(self.status, elapsed)
    }

    /// Records a check of the sources now.
    pub fn mark_checked(&mut self)
        ensures
            final(self).checked(),
            final(self).kind == old(self).kind,
            final(self).status == old(self).status,
            final(self).signature == old(self).signature,
            final(self).error == old(self).error,
            final(self).load_generation == old(self).load_generation,
            final(self).parsed == old(self).parsed,
    {
        self.last_checked = Some(instant_now());
    }
}

/// The API document: the reference, the types, then the three example
/// scripts as Lua code blocks under their headings.
pub open spec fn api_document_spec(
    reference: Seq<char>,
    types: Seq<char>,
    utility: Seq<char>,
    macro_example: Seq<char>,
    transform: Seq<char>,
) -> Seq<char> {
    reference + "\n\n"@ + types + "\n\n# Lua Examples\n\n## Utility Lua example\n\n```lua\n"@ + utility
        + "\n```\n\n## Macro Lua example\n\n```lua\n"@ + macro_example
        + "\n```\n\n## Transform Lua example\n\n```lua\n"@ + transform + "\n```\n"@
}

/// Assembles the API document from its sources.
pub fn api_document_source(reference: &str, types: &str, utility: &str, macro_example: &str, transform: &str) -> (res: String)
    ensures
        res@ == api_document_spec(reference@, types@, utility@, macro_example@, transform@),
{
    let mut s = copy_str(reference);
    push_str(&mut s, "\n\n");
    push_str(&mut s, types);
    push_str(&mut s, "\n\n# Lua Examples\n\n## Utility Lua example\n\n```lua\n");
    push_str(&mut s, utility);
    push_str(&mut s, "\n```\n\n## Macro Lua example\n\n```lua\n");
    push_str(&mut s, macro_example);
    push_str(&mut s, "\n```\n\n## Transform Lua example\n\n```lua\n");
    push_str(&mut s, transform);
    push_str(&mut s, "\n```\n");
    s
}

/// A document read from disk, falling back to the bundled copy `embedded`
/// when the file is missing; other outcomes are kept.
pub fn load_embedded_document(file: DocumentLoad, embedded: &str) -> (res: DocumentLoad)
    ensures
        match file {
            DocumentLoad::Missing { signature } => res matches DocumentLoad::Ready { source, signature: s }
                && source@ == embedded@ && s == signature,
            _ => res == file,
        },
{
    match file {
        DocumentLoad::Missing { signature } => DocumentLoad::Ready { source: copy_str(embedded), signature },
        other => other,
    }
}

// ---------------------------------------------------------------------------
// Tables
// ---------------------------------------------------------------------------

/// `s` with every non-overlapping occurrence of the two-character pattern
/// `[a, b]` removed, scanning from the left (`str::replace` with "").
pub open spec fn remove_pair(s: Seq<char>, a: char, b: char) -> Seq<char>
    decreases s.len(),
{
    if s.len() == 0 {
        s
    } else if s.len() >= 2 && s[0] == a && s[1] == b {
        remove_pair(s.skip(2), a, b)
    } else {
        seq![s[0]] + remove_pair(s.drop_first(), a, b)
    }
}

/// A table cell's text: trimmed, without `**` and `__` markers.
pub open spec fn clean_cell_spec(cell: Seq<char>) -> Seq<char> {
    remove_pair(remove_pair(trim_seq(cell), '*', '*'), '_', '_')
}

/// Removes every occurrence of `[a, b]`, scanning from the left.
fn remove_pair_exec(s: &[char], a: char, b: char) -> (res: Vec<char>)
    ensures
        res@ == remove_pair(s@, a, b),
{
    let mut out: Vec<char> = Vec::new();
    let mut i: usize = 0;
    assert(s@.skip(0) =~= s@);
    assert(out@ + remove_pair(s@, a, b) =~= remove_pair(s@, a, b));
    while i < s.len()
        invariant
            i <= s@.len(),
            remove_pair(s@, a, b) == out@ + remove_pair(s@.skip(i as int), a, b),
        decreases s@.len() - i,
    {
        let ghost rest = s@.skip(i as int);
        if i + 1 < s.len() && s[i] == a && s[i + 1] == b {
            assert(rest.skip(2) =~= s@.skip(i + 2));
            assert(rest[0] == s@[i as int] && rest[1] == s@[i + 1]);
            i = i + 2;
        } else {
            assert(rest.drop_first() =~= s@.skip(i + 1));
            assert(rest[0] == s@[i as int]);
            if i + 1 < s.len() {
                assert(rest[1] == s@[i + 1]);
            }
            assert(remove_pair(rest, a, b) == seq![s@[i as int]] + remove_pair(rest.drop_first(), a, b));
            let ghost prev = out@;
            out.push(s[i]);
            assert(out@ + remove_pair(s@.skip(i + 1), a, b) =~= prev + (seq![s@[i as int]] + remove_pair(
                rest.drop_first(),
                a,
                b,
            )));
            i = i + 1;
        }
    }
    assert(s@.skip(s@.len() as int) =~= Seq::<char>::empty());
    assert(out@ + Seq::<char>::empty() =~= out@);
    out
}

/// A table cell's text: trimmed, without `**` and `__` markers.
pub fn clean_table_cell(cell: &[char]) -> (res: String)
    ensures
        res@ == clean_cell_spec(cell@),
{
    let t = trim_chars(cell);
    let a = remove_pair_exec(t.as_slice(), '*', '*');
    let b = remove_pair_exec(a.as_slice(), '_', '_');
    from_chars(b.as_slice())
}

/// The state of splitting a table line: the cells so far, the current
/// cell, whether inside a code span, and whether after a backslash.
pub ghost struct ScanState {
    pub cells: Seq<Seq<char>>,
    pub cell: Seq<char>,
    pub in_code: bool,
    pub escaped: bool,
}

/// One character of a table line: an escaped character is literal, a
/// backslash escapes, a backtick toggles a code span, a pipe outside code
/// ends the cell.
pub open spec fn scan_step(st: ScanState, c: char) -> ScanState {
    if st.escaped {
        ScanState { cell: st.cell.push(c), escaped: false, ..st }
    } else if c == '\\' {
        ScanState { escaped: true, ..st }
    } else if c == '`' {
        ScanState { in_code: !st.in_code, ..st }
    } else if c == '|' && !st.in_code {
        ScanState { cells: st.cells.push(st.cell), cell: Seq::empty(), ..st }
    } else {
        ScanState { cell: st.cell.push(c), ..st }
    }
}

/// The state after splitting `chars`.
pub open spec fn scan(chars: Seq<char>) -> ScanState
    decreases chars.len(),
{
    if chars.len() == 0 {
        ScanState { cells: Seq::empty(), cell: Seq::empty(), in_code: false, escaped: false }
    } else {
        scan_step(scan(chars.drop_last()), chars.last())
    }
}

/// `cells` without an empty first cell, then without an empty last cell.
pub open spec fn strip_outer_empty(cells: Seq<Seq<char>>) -> Seq<Seq<char>> {
    let a = if cells.len() > 0 && cells[0].len() == 0 { cells.drop_first() } else { cells };
    if a.len() > 0 && a.last().len() == 0 { a.drop_last() } else { a }
}

/// Each cell cleaned.
pub open spec fn clean_cells(cells: Seq<Seq<char>>) -> Seq<Seq<char>> {
    cells.map_values(|c: Seq<char>| clean_cell_spec(c))
}

/// The cells of a Markdown table line, cleaned; the empty cells outside the
/// leading and trailing pipes are dropped.
pub open spec fn table_cells_spec(line: Seq<char>) -> Seq<Seq<char>> {
    let st = scan(trim_seq(line));
    strip_outer_empty(clean_cells(st.cells.push(st.cell)))
}

/// The views of a sequence of strings.
pub open spec fn string_views(v: Seq<String>) -> Seq<Seq<char>> {
    v.map_values(|s: String| s@)
}

/// The cells of a Markdown table line.
pub fn table_cells(line: &str) -> (res: Vec<String>)
    ensures
        string_views(res@) == table_cells_spec(line@),
{
    let chars = to_chars(line);
    let t = trim_chars(chars.as_slice());
    let mut cells: Vec<String> = Vec::new();
    let mut cell: Vec<char> = Vec::new();
    let mut in_code = false;
    let mut escaped = false;
    let mut i: usize = 0;
    while i < t.len()
        invariant
            i <= t@.len(),
            ({
                let st = scan(t@.take(i as int));
                &&& string_views(cells@) == clean_cells(st.cells)
                &&& cell@ == st.cell
                &&& in_code == st.in_code
                &&& escaped == st.escaped
            }),
        decreases t@.len() - i,
    {
        let c = t[i];
        let ghost st0 = scan(t@.take(i as int));
        assert(t@.take(i + 1).drop_last() =~= t@.take(i as int));
        assert(t@.take(i + 1).last() == c);
        if escaped {
            cell.push(c);
            escaped = false;
        } else if c == '\\' {
            escaped = true;
        } else if c == '`' {
            in_code = !in_code;
        } else if c == '|' && !in_code {
            let cleaned = clean_table_cell(cell.as_slice());
            let ghost prev = cells@;
            cells.push(cleaned);
            cell = Vec::new();
            assert(string_views(cells@) =~= string_views(prev).push(cleaned@));
            assert(clean_cells(st0.cells.push(st0.cell)) =~= clean_cells(st0.cells).push(clean_cell_spec(st0.cell)));
        } else {
            cell.push(c);
        }
        i = i + 1;
    }
    assert(t@.take(t@.len() as int) =~= t@);
    let ghost st = scan(t@);
    let last = clean_table_cell(cell.as_slice());
    let ghost prev = cells@;
    cells.push(last);
    let ghost all = clean_cells(st.cells.push(st.cell));
    assert(string_views(cells@) =~= string_views(prev).push(last@));
    assert(all =~= clean_cells(st.cells).push(clean_cell_spec(st.cell)));
    assert(string_views(cells@) =~= all);
    let ghost a = if all.len() > 0 && all[0].len() == 0 { all.drop_first() } else { all };
    if cells.len() > 0 && cells[0].unicode_len() == 0 {
        cells.remove(0);
        assert(string_views(cells@) =~= all.drop_first());
    }
    assert(string_views(cells@) == a);
    if cells.len() > 0 && cells[cells.len() - 1].unicode_len() == 0 {
        cells.pop();
        assert(string_views(cells@) =~= a.drop_last());
    }
    cells
}

/// `s` without leading and trailing `ch` characters.
pub open spec fn trim_char(s: Seq<char>, ch: char) -> Seq<char>
    decreases s.len(),
{
    if s.len() > 0 && s[0] == ch {
        trim_char(s.drop_first(), ch)
    } else if s.len() > 0 && s.last() == ch {
        trim_char(s.drop_last(), ch)
    } else {
        s
    }
}

/// A delimiter cell: after trimming colons, three or more dashes.
pub open spec fn delimiter_cell(cell: Seq<char>) -> bool {
    let t = trim_char(cell, ':');
    t.len() >= 3 && forall|k: int| 0 <= k < t.len() ==> t[k] == '-'
}

/// A table delimiter line: at least one cell, each a delimiter cell.
pub open spec fn delimiter_spec(line: Seq<char>) -> bool {
    let cells = table_cells_spec(line);
    cells.len() > 0 && forall|k: int| 0 <= k < cells.len() ==> delimiter_cell(#[trigger] cells[k])
}

proof fn lemma_trim_char_inner(s: Seq<char>, ch: char, i: int, j: int)
    requires
        0 <= i <= j <= s.len(),
        forall|k: int| 0 <= k < i ==> s[k] == ch,
        forall|k: int| j <= k < s.len() ==> s[k] == ch,
        i < j ==> s[i] != ch && s[j - 1] != ch,
        i == j ==> (i == 0 || j == s.len() || true),
    ensures
        i < j ==> trim_char(s, ch) == s.subrange(i, j),
        i == j ==> trim_char(s, ch).len() == 0,
    decreases s.len(),
{
    if s.len() > 0 {
        if s[0] == ch {
            assert(i > 0 || j == 0);
            if i > 0 {
                let t = s.drop_first();
                lemma_trim_char_inner(t, ch, i - 1, j - 1);
                assert(t.subrange(i - 1, j - 1) =~= s.subrange(i, j));
            } else {
                lemma_trim_char_inner_all(s, ch);
            }
        } else if s.last() == ch {
            let t = s.drop_last();
            assert(j < s.len());
            lemma_trim_char_inner(t, ch, i, j);
            assert(t.subrange(i, j) =~= s.subrange(i, j));
        } else {
            assert(i == 0 && j == s.len());
            assert(s.subrange(0, s.len() as int) =~= s);
        }
    }
}

proof fn lemma_trim_char_inner_all(s: Seq<char>, ch: char)
    requires
        forall|k: int| 0 <= k < s.len() ==> s[k] == ch,
    ensures
        trim_char(s, ch).len() == 0,
    decreases s.len(),
{
    if s.len() > 0 {
        lemma_trim_char_inner_all(s.drop_first(), ch);
    }
}

/// Whether a cell is a delimiter cell.
fn is_delimiter_cell(cell: &str) -> (res: bool)
    ensures
        res == delimiter_cell(cell@),
{
    let c = to_chars(cell);
    let mut i: usize = 0;
    while i < c.len() && c[i] == ':'
        invariant
            i <= c@.len(),
            forall|k: int| 0 <= k < i ==> c@[k] == ':',
        decreases c@.len() - i,
    {
        i = i + 1;
    }
    let mut j: usize = c.len();
    while j > i && c[j - 1] == ':'
        invariant
            i <= j <= c@.len(),
            forall|k: int| j <= k < c@.len() ==> c@[k] == ':',
        decreases j,
    {
        j = j - 1;
    }
    proof {
        if i == j {
            if j < c@.len() {
                assert forall|k: int| 0 <= k < c@.len() implies c@[k] == ':' by {
                    if k >= i { assert(k >= j); }
                }
                lemma_trim_char_inner_all(c@, ':');
            } else {
                assert forall|k: int| 0 <= k < c@.len() implies c@[k] == ':' by {}
                lemma_trim_char_inner_all(c@, ':');
            }
        } else {
            lemma_trim_char_inner(c@, ':', i as int, j as int);
        }
    }
    if j - i < 3 {
        return false;
    }
    let ghost tt = trim_char(c@, ':');
    assert(tt == c@.subrange(i as int, j as int));
    let mut k: usize = i;
    while k < j
        invariant
            c@ == cell@,
            i <= k <= j <= c@.len(),
            j - i >= 3,
            tt == c@.subrange(i as int, j as int),
            tt == trim_char(c@, ':'),
            forall|m: int| i <= m < k ==> c@[m] == '-',
        decreases j - k,
    {
        if c[k] != '-' {
            assert(tt[k - i] == c@[k as int]);
            assert(trim_char(cell@, ':') == tt);
            assert(!(forall|m: int| 0 <= m < tt.len() ==> tt[m] == '-'));
            assert(!delimiter_cell(cell@));
            return false;
        }
        k = k + 1;
    }
    assert forall|m: int| 0 <= m < tt.len() implies tt[m] == '-' by {
        assert(tt[m] == c@[i + m]);
    }
    true
}

/// Whether a line is a table delimiter line.
pub fn is_table_delimiter(line: &str) -> (res: bool)
    ensures
        res == delimiter_spec(line@),
{
    let cells = table_cells(line);
    let ghost cv = string_views(cells@);
    if cells.len() == 0 {
        return false;
    }
    let mut k: usize = 0;
    while k < cells.len()
        invariant
            cv == string_views(cells@),
            cv == table_cells_spec(line@),
            k <= cells@.len(),
            forall|m: int| 0 <= m < k ==> delimiter_cell(#[trigger] cv[m]),
        decreases cells@.len() - k,
    {
        if !is_delimiter_cell(cells[k].as_str()) {
            assert(!delimiter_cell(cv[k as int]));
            return false;
        }
        k = k + 1;
    }
    true
}

/// Whether `c` occurs in `s`.
fn str_has_char(s: &str, c: char) -> (res: bool)
    ensures
        res == s@.contains(c),
{
    let v = to_chars(s);
    let mut i: usize = 0;
    while i < v.len()
        invariant
            v@ == s@,
            i <= v@.len(),
            forall|k: int| 0 <= k < i ==> v@[k] != c,
        decreases v@.len() - i,
    {
        if v[i] == c {
            assert(v@[i as int] == c);
            assert(s@[i as int] == c);
            assert(s@.contains(c));
            return true;
        }
        i = i + 1;
    }
    false
}

/// The views of a sequence of string slices.
pub open spec fn lines_view(lines: Seq<&str>) -> Seq<Seq<char>> {
    lines.map_values(|l: &str| l@)
}

/// The cells of each line.
pub open spec fn cells_of_lines(lines: Seq<Seq<char>>) -> Seq<Seq<Seq<char>>> {
    lines.map_values(|l: Seq<char>| table_cells_spec(l))
}

/// The views of table rows.
pub open spec fn rows_views(rows: Seq<Vec<String>>) -> Seq<Seq<Seq<char>>> {
    rows.map_values(|r: Vec<String>| string_views(r@))
}

/// A table row: it contains a pipe and has `n` cells.
pub open spec fn row_fits(line: Seq<char>, n: int) -> bool {
    line.contains('|') && table_cells_spec(line).len() == n
}

/// The end of the table rows that start at line `k`.
pub open spec fn rows_end(lines: Seq<Seq<char>>, k: int, n: int) -> int
    decreases lines.len() - k,
{
    if 0 <= k < lines.len() && row_fits(lines[k], n) {
        rows_end(lines, k + 1, n)
    } else {
        k
    }
}

/// A table at the start of `lines`: the header cells, the row cells and the
/// number of lines it spans; none unless a header with a pipe is followed
/// by a delimiter line of the same width.
pub open spec fn parse_table_spec(lines: Seq<Seq<char>>) -> Option<(Seq<Seq<char>>, Seq<Seq<Seq<char>>>, int)> {
    if lines.len() < 2 || !lines[0].contains('|') || !delimiter_spec(lines[1]) {
        None
    } else {
        let headers = table_cells_spec(lines[0]);
        if headers.len() == 0 || table_cells_spec(lines[1]).len() != headers.len() {
            None
        } else {
            let end = rows_end(lines, 2, headers.len() as int);
            Some((headers, cells_of_lines(lines.subrange(2, end)), end))
        }
    }
}

/// Whether a line is a table row of width `n`.
fn row_fits_exec(line: &str, n: usize) -> (res: bool)
    ensures
        res == row_fits(line@, n as int),
{
    if !str_has_char(line, '|') {
        return false;
    }
    let cells = table_cells(line);
    cells.len() == n
}

/// The table at the start of `lines`, if any.
pub fn parse_table(lines: &[&str]) -> (res: Option<(Vec<String>, Vec<Vec<String>>, usize)>)
    ensures
        match res {
            Some((h, rows, n)) => parse_table_spec(lines_view(lines@)) == Some(
                (string_views(h@), rows_views(rows@), n as int),
            ),
            None => parse_table_spec(lines_view(lines@)) is None,
        },
{
    let ghost lv = lines_view(lines@);
    if lines.len() < 2 {
        return None;
    }
    assert(lv[0] == lines@[0]@ && lv[1] == lines@[1]@);
    if !str_has_char(lines[0], '|') || !is_table_delimiter(lines[1]) {
        return None;
    }
    let headers = table_cells(lines[0]);
    let second = table_cells(lines[1]);
    if headers.len() == 0 || second.len() != headers.len() {
        return None;
    }
    let mut rows: Vec<Vec<String>> = Vec::new();
    let mut consumed: usize = 2;
    let n = headers.len();
    while consumed < lines.len() && row_fits_exec(lines[consumed], n)
        invariant
            2 <= consumed <= lines@.len(),
            lv == lines_view(lines@),
            lv.len() == lines@.len(),
            n == table_cells_spec(lv[0]).len(),
            rows_end(lv, 2, n as int) == rows_end(lv, consumed as int, n as int),
            rows_views(rows@) == cells_of_lines(lv.subrange(2, consumed as int)),
        decreases lines@.len() - consumed,
    {
        assert(lv[consumed as int] == lines@[consumed as int]@);
        let cells = table_cells(lines[consumed]);
        let ghost prev = rows@;
        rows.push(cells);
        assert(rows_views(rows@) =~= rows_views(prev).push(string_views(cells@)));
        assert(cells_of_lines(lv.subrange(2, consumed + 1)) =~= cells_of_lines(lv.subrange(2, consumed as int)).push(
            table_cells_spec(lv[consumed as int]),
        ));
        consumed = consumed + 1;
    }
    proof {
        if consumed < lines@.len() {
            assert(lv[consumed as int] == lines@[consumed as int]@);
        }
        assert(rows_end(lv, consumed as int, n as int) == consumed);
    }
    Some((headers, rows, consumed))
}

// ---------------------------------------------------------------------------
// Links and anchors
// ---------------------------------------------------------------------------

/// The index of the first `c` in `s` at or after `i`, or the length.
pub open spec fn first_index_of(s: Seq<char>, c: char, i: int) -> int
    decreases s.len() - i,
{
    if i < 0 || i >= s.len() {
        s.len() as int
    } else if s[i] == c {
        i
    } else {
        first_index_of(s, c, i + 1)
    }
}

/// Where links to the API document lead.
pub const API_DOCUMENTATION_URL: &'static str = "https://ruds.invalid/api-documentation";

/// The base of links to headings of the shown document.
pub const DOCUMENT_ANCHOR_URL: &'static str = "https://ruds.invalid/document#";

/// A Markdown image with an external `http(s)` source: alt text, then URL.
pub const EXTERNAL_IMAGE_PATTERN: &'static str = "!\\[([^\\]]*)\\]\\((https?://[^)\\s]+)\\)";

/// The link an external image becomes: a picture mark before the alt text.
pub const EXTERNAL_IMAGE_LINK: &'static str = "[\u{1F5BC} $1]($2)";

/// A Markdown link: its opening up to `(`, its target, and the rest.
pub const MARKDOWN_LINK_PATTERN: &'static str = "(\\[[^\\]]*\\]\\()([^\\s)]+)([^)]*\\))";

/// What `regex::Regex::replace_all` gives for the regex `pattern`, the
/// text `haystack` and the replacement `replacement` (with `$n` naming
/// capture groups); none when `regex::Regex::new` refuses the pattern.
pub uninterp spec fn regex_replaced(pattern: Seq<char>, haystack: Seq<char>, replacement: Seq<char>) -> Option<Seq<char>>;

/// `regex::Regex::new` and `Regex::replace_all` with a replacement string:
/// every non-overlapping match in `haystack` replaced, `$n` expanded to
/// capture group `n`. The result is named by `regex_replaced`; `None` when
/// the pattern does not compile.
#[verifier::external_body]
fn regex_replace_all(pattern: &str, haystack: &str, replacement: &str) -> (res: Option<String>)
    ensures
        match res {
            Some(s) => regex_replaced(pattern@, haystack@, replacement@) == Some(s@),
            None => regex_replaced(pattern@, haystack@, replacement@) is None,
        },
{
    match regex::Regex::new(pattern) {
        Ok(re) => Some(re.replace_all(haystack, replacement).into_owned()),
        Err(_) => None,
    }
}

/// What `regex::Regex::replace_all` gives for the regex `pattern` and the
/// text `haystack` when each match becomes what `rewritten_link` makes of
/// the match and its capture groups 1 to 3 (a group that did not take part
/// counts as empty); none when `regex::Regex::new` refuses the pattern.
pub uninterp spec fn regex_links_rewritten(pattern: Seq<char>, haystack: Seq<char>) -> Option<Seq<char>>;

/// `regex::Regex::new` and `Regex::replace_all` with a closure that hands
/// each match and its groups 1 to 3 to `rewritten_link`. The result is
/// named by `regex_links_rewritten`; `None` when the pattern does not
/// compile.
#[verifier::external_body]
fn regex_rewrite_links(pattern: &str, haystack: &str) -> (res: Option<String>)
    ensures
        match res {
            Some(s) => regex_links_rewritten(pattern@, haystack@) == Some(s@),
            None => regex_links_rewritten(pattern@, haystack@) is None,
        },
{
    match regex::Regex::new(pattern) {
        Ok(re) => Some(re.replace_all(haystack, |c: &regex::Captures<'_>| {
            let g = |i: usize| c.get(i).map_or("", |m| m.as_str());
            rewritten_link(g(0), g(1), g(2), g(3))
        }).into_owned()),
        Err(_) => None,
    }
}

/// The text a regex result gives, or `fallback` when there is none.
pub open spec fn or_unchanged(r: Option<Seq<char>>, fallback: Seq<char>) -> Seq<char> {
    match r {
        Some(s) => s,
        None => fallback,
    }
}

/// Markdown with every external image turned into a plain link, so that no
/// remote image is loaded. (The pattern always compiles; were it refused,
/// the text would stay as it is.)
pub fn external_images_as_links(source: &str) -> (res: String)
    ensures
        res@ == or_unchanged(regex_replaced(EXTERNAL_IMAGE_PATTERN@, source@, EXTERNAL_IMAGE_LINK@), source@),
{
    match regex_replace_all(EXTERNAL_IMAGE_PATTERN, source, EXTERNAL_IMAGE_LINK) {
        Some(s) => s,
        None => copy_str(source),
    }
}

/// What a matched Markdown link becomes: a link to `API.md` leads to the
/// API documentation, a link to a heading of the shown documents leads to
/// its anchor, and any other link stays as it is.
pub open spec fn rewritten_link_spec(whole: Seq<char>, open: Seq<char>, target: Seq<char>, close: Seq<char>) -> Seq<char> {
    if target == "API.md"@ {
        open + API_DOCUMENTATION_URL@ + close
    } else {
        match internal_anchor_spec(target) {
            None => whole,
            Some(a) => open + DOCUMENT_ANCHOR_URL@ + a + close,
        }
    }
}

/// What a matched Markdown link becomes.
pub fn rewritten_link(whole: &str, open: &str, target: &str, close: &str) -> (res: String)
    ensures
        res@ == rewritten_link_spec(whole@, open@, target@, close@),
{
    if str_eq(target, "API.md") {
        let mut s = copy_str(open);
        push_str(&mut s, API_DOCUMENTATION_URL);
        push_str(&mut s, close);
        return s;
    }
    match internal_anchor(target) {
        None => copy_str(whole),
        Some(a) => {
            let mut s = copy_str(open);
            push_str(&mut s, DOCUMENT_ANCHOR_URL);
            push_str(&mut s, a.as_str());
            push_str(&mut s, close);
            s
        },
    }
}

/// Markdown with its links to the API document and to headings of the
/// shown documents pointed at the in-app locations. (The pattern always
/// compiles; were it refused, the text would stay as it is.)
pub fn rewrite_links(source: &str) -> (res: String)
    ensures
        res@ == or_unchanged(regex_links_rewritten(MARKDOWN_LINK_PATTERN@, source@), source@),
{
    match regex_rewrite_links(MARKDOWN_LINK_PATTERN, source) {
        Some(s) => s,
        None => copy_str(source),
    }
}

/// The default anchor of a known API document path.
pub open spec fn default_anchor_spec(path: Seq<char>) -> Option<&'static str> {
    if path == "API_REFERENCE.md"@ {
        Some("ruds-lua-api-reference")
    } else if path == "TYPES.md"@ {
        Some("lua-api-types")
    } else if path == "examples"@ || path == "examples/"@ {
        Some("lua-examples")
    } else if path == "examples/utility.lua"@ {
        Some("utility-lua-example")
    } else if path == "examples/macro.lua"@ {
        Some("macro-lua-example")
    } else if path == "examples/transform.lua"@ {
        Some("transform-lua-example")
    } else {
        None
    }
}

/// The anchor that a documentation link target points to: a `#anchor`, or
/// a known API document (with an optional `#fragment` overriding its
/// default anchor).
pub open spec fn internal_anchor_spec(target: Seq<char>) -> Option<Seq<char>> {
    if target.len() > 0 && target[0] == '#' {
        Some(target.drop_first())
    } else {
        let k = first_index_of(target, '#', 0);
        let path = target.take(k);
        let fragment = if k < target.len() { target.skip(k + 1) } else { Seq::empty() };
        match default_anchor_spec(path) {
            None => None,
            Some(d) => Some(if fragment.len() == 0 { d@ } else { fragment }),
        }
    }
}

/// The default anchor of a known API document path.
fn default_anchor(path: &str) -> (res: Option<&'static str>)
    ensures
        res == default_anchor_spec(path@),
{
    if str_eq(path, "API_REFERENCE.md") {
        Some("ruds-lua-api-reference")
    } else if str_eq(path, "TYPES.md") {
        Some("lua-api-types")
    } else if str_eq(path, "examples") || str_eq(path, "examples/") {
        Some("lua-examples")
    } else if str_eq(path, "examples/utility.lua") {
        Some("utility-lua-example")
    } else if str_eq(path, "examples/macro.lua") {
        Some("macro-lua-example")
    } else if str_eq(path, "examples/transform.lua") {
        Some("transform-lua-example")
    } else {
        None
    }
}

/// The anchor that a documentation link target points to, if it is internal.
pub fn internal_anchor(target: &str) -> (res: Option<String>)
    ensures
        match res {
            Some(a) => internal_anchor_spec(target@) == Some(a@),
            None => internal_anchor_spec(target@) is None,
        },
{
    let t = to_chars(target);
    if t.len() > 0 && t[0] == '#' {
        let mut rest: Vec<char> = Vec::new();
        let mut i: usize = 1;
        while i < t.len()
            invariant
                1 <= i <= t@.len(),
                rest@ == t@.subrange(1, i as int),
            decreases t@.len() - i,
        {
            rest.push(t[i]);
            i = i + 1;
        }
        assert(rest@ =~= t@.drop_first());
        return Some(from_chars(rest.as_slice()));
    }
    let mut k: usize = 0;
    while k < t.len() && t[k] != '#'
        invariant
            k <= t@.len(),
            first_index_of(t@, '#', 0) == first_index_of(t@, '#', k as int),
        decreases t@.len() - k,
    {
        k = k + 1;
    }
    assert(first_index_of(t@, '#', 0) == k);
    let mut path: Vec<char> = Vec::new();
    let mut m: usize = 0;
    while m < k
        invariant
            m <= k <= t@.len(),
            path@ == t@.take(m as int),
        decreases k - m,
    {
        path.push(t[m]);
        m = m + 1;
        assert(t@.take(m as int) == t@.take((m - 1) as int).push(t@[m - 1]));
    }
    let mut fragment: Vec<char> = Vec::new();
    if k < t.len() {
        let mut f: usize = k + 1;
        while f < t.len()
            invariant
                k + 1 <= f <= t@.len(),
                fragment@ == t@.subrange(k + 1, f as int),
            decreases t@.len() - f,
        {
            fragment.push(t[f]);
            f = f + 1;
        }
        assert(fragment@ =~= t@.skip(k + 1));
    } else {
        assert(fragment@ =~= Seq::<char>::empty());
    }
    let path_str = from_chars(path.as_slice());
    match default_anchor(path_str.as_str()) {
        None => None,
        Some(d) => {
            if fragment.len() == 0 {
                Some(copy_str(d))
            } else {
                Some(from_chars(fragment.as_slice()))
            }
        },
    }
}

/// An ASCII letter or digit (each of which `char::is_alphanumeric` holds of).
pub open spec fn ascii_alphanumeric(c: char) -> bool {
    ('0' <= c && c <= '9') || ('a' <= c && c <= 'z') || ('A' <= c && c <= 'Z')
}

/// Whether `c` is an ASCII letter or digit.
fn is_ascii_alphanumeric(c: char) -> (res: bool)
    ensures
        res == ascii_alphanumeric(c),
{
    ('0' <= c && c <= '9') || ('a' <= c && c <= 'z') || ('A' <= c && c <= 'Z')
}

/// The slug characters of a lowercased heading: alphanumerics (ASCII ones
/// and all others that `char::is_alphanumeric` accepts), `-` and `_` are
/// kept, white space becomes `-`, everything else is dropped.
pub open spec fn slug_chars(s: Seq<char>) -> Seq<char>
    decreases s.len(),
{
    if s.len() == 0 {
        s
    } else {
        let c = s.last();
        let rest = slug_chars(s.drop_last());
        if ascii_alphanumeric(c) || unicode_alphanumeric(c) || c == '-' || c == '_' {
            rest.push(c)
        } else if is_white_space(c) {
            rest.push('-')
        } else {
            rest
        }
    }
}

/// Law: a heading's letters, digits, `-` and `_` all stay in its slug, in
/// their order: appending one to the lowercased heading appends it to the
/// slug characters.
pub proof fn law_slug_keeps_letters_and_digits(s: Seq<char>, c: char)
    requires
        ascii_alphanumeric(c) || c == '-' || c == '_',
    ensures
        slug_chars(s.push(c)) == slug_chars(s).push(c),
{
    assert(s.push(c).drop_last() =~= s);
}

/// Law: a slug keeps the ASCII letters and digits of the lowercased heading,
/// each as often as it occurs there.
pub proof fn law_slug_keeps_every_letter_and_digit(s: Seq<char>, c: char)
    requires
        ascii_alphanumeric(c),
    ensures
        slug_chars(s).to_multiset().count(c) == s.to_multiset().count(c),
    decreases s.len(),
{
    broadcast use vstd::seq_lib::group_to_multiset_ensures;
    if s.len() > 0 {
        law_slug_keeps_every_letter_and_digit(s.drop_last(), c);
        assert(s =~= s.drop_last().push(s.last()));
        let d = s.last();
        let r = slug_chars(s.drop_last());
        if ascii_alphanumeric(d) || unicode_alphanumeric(d) || d == '-' || d == '_' {
            assert(slug_chars(s) == r.push(d));
        } else if is_white_space(d) {
            assert(slug_chars(s) == r.push('-'));
            assert(d != c);
        } else {
            assert(slug_chars(s) == r);
            assert(d != c);
        }
    } else {
        assert(s.to_multiset() =~= vstd::multiset::Multiset::empty());
    }
}

/// Trimming `ch` keeps every other character, as often as it occurs.
proof fn lemma_trim_char_count(s: Seq<char>, ch: char, c: char)
    requires
        c != ch,
    ensures
        trim_char(s, ch).to_multiset().count(c) == s.to_multiset().count(c),
    decreases s.len(),
{
    broadcast use vstd::seq_lib::group_to_multiset_ensures;
    if s.len() > 0 && s[0] == ch {
        lemma_trim_char_count(s.drop_first(), ch, c);
        assert(s =~= seq![s[0]] + s.drop_first());
        vstd::seq_lib::lemma_multiset_commutative(seq![s[0]], s.drop_first());
        assert(seq![s[0]].to_multiset().count(c) == 0) by {
            assert(seq![s[0]] =~= Seq::<char>::empty().push(s[0]));
        }
    } else if s.len() > 0 && s.last() == ch {
        lemma_trim_char_count(s.drop_last(), ch, c);
        assert(s =~= s.drop_last().push(s.last()));
    }
}

/// Law: a heading's ASCII letters and digits (lowercased) all stay in its
/// anchor, each as often as it occurs: only `-` is trimmed from the ends.
pub proof fn law_anchor_keeps_letters_and_digits(heading: Seq<char>, c: char)
    requires
        ascii_alphanumeric(c),
    ensures
        github_slug_spec(heading).to_multiset().count(c) == unicode_lowercase(heading).to_multiset().count(c),
{
    law_slug_keeps_every_letter_and_digit(unicode_lowercase(heading), c);
    lemma_trim_char_count(slug_chars(unicode_lowercase(heading)), '-', c);
}

/// The GitHub-style anchor of a heading.
pub open spec fn github_slug_spec(heading: Seq<char>) -> Seq<char> {
    trim_char(slug_chars(unicode_lowercase(heading)), '-')
}

/// The GitHub-style anchor of a heading.
pub fn github_slug(heading: &str) -> (res: String)
    ensures
        res@ == github_slug_spec(heading@),
{
    let lower = to_lowercase(heading);
    let chars = to_chars(lower.as_str());
    let mut slug: Vec<char> = Vec::new();
    let mut i: usize = 0;
    while i < chars.len()
        invariant
            i <= chars@.len(),
            slug@ == slug_chars(chars@.take(i as int)),
        decreases chars@.len() - i,
    {
        let c = chars[i];
        assert(chars@.take(i + 1).drop_last() =~= chars@.take(i as int));
        if is_ascii_alphanumeric(c) || char_is_alphanumeric(c) || c == '-' || c == '_' {
            slug.push(c);
        } else if is_whitespace(c) {
            slug.push('-');
        }
        i = i + 1;
    }
    assert(chars@.take(chars@.len() as int) =~= chars@);
    let mut a: usize = 0;
    while a < slug.len() && slug[a] == '-'
        invariant
            a <= slug@.len(),
            forall|k: int| 0 <= k < a ==> slug@[k] == '-',
        decreases slug@.len() - a,
    {
        a = a + 1;
    }
    let mut b: usize = slug.len();
    while b > a && slug[b - 1] == '-'
        invariant
            a <= b <= slug@.len(),
            forall|k: int| b <= k < slug@.len() ==> slug@[k] == '-',
        decreases b,
    {
        b = b - 1;
    }
    proof {
        if a == b {
            assert forall|k: int| 0 <= k < slug@.len() implies slug@[k] == '-' by {
                if k >= a { assert(k >= b); }
            }
            lemma_trim_char_inner_all(slug@, '-');
        } else {
            lemma_trim_char_inner(slug@, '-', a as int, b as int);
        }
    }
    let mut res = String::new();
    let mut k: usize = a;
    while k < b
        invariant
            a <= k <= b <= slug@.len(),
            res@ == slug@.subrange(a as int, k as int),
        decreases b - k,
    {
        crate::text::string_push(&mut res, slug[k]);
        k = k + 1;
    }
    res
}

// ---------------------------------------------------------------------------
// Document structure
// ---------------------------------------------------------------------------

/// `first_index_of` lies between its start and the length, and no `c`
/// comes before it.
pub proof fn lemma_first_index_of(s: Seq<char>, c: char, i: int)
    requires
        0 <= i <= s.len(),
    ensures
        i <= first_index_of(s, c, i) <= s.len(),
        first_index_of(s, c, i) < s.len() ==> s[first_index_of(s, c, i)] == c,
        forall|k: int| i <= k < first_index_of(s, c, i) ==> s[k] != c,
    decreases s.len() - i,
{
    if i < s.len() && s[i] != c {
        lemma_first_index_of(s, c, i + 1);
    }
}

/// The lines of `s` from position `i` on (`str::lines`): split at `\n`,
/// a `\r` just before a `\n` dropped, and no line after a final `\n`.
pub open spec fn lines_from(s: Seq<char>, i: int) -> Seq<Seq<char>>
    decreases s.len() - i,
{
    if i < 0 || i >= s.len() {
        Seq::empty()
    } else {
        let e = first_index_of(s, '\n', i);
        proof {
            lemma_first_index_of(s, '\n', i);
        }
        let raw = s.subrange(i, e);
        let line = if e < s.len() && raw.len() > 0 && raw.last() == '\r' { raw.drop_last() } else { raw };
        if e < s.len() { seq![line] + lines_from(s, e + 1) } else { seq![line] }
    }
}

/// The lines of `s`.
pub open spec fn lines_of(s: Seq<char>) -> Seq<Seq<char>> {
    lines_from(s, 0)
}

/// The lines of `s`, as `str::lines` splits them.
pub fn split_lines(s: &str) -> (res: Vec<String>)
    ensures
        strs_view(res@) == lines_of(s@),
{
    let chars = to_chars(s);
    let mut res: Vec<String> = Vec::new();
    let mut i: usize = 0;
    while i < chars.len()
        invariant
            i <= chars@.len(),
            chars@ == s@,
            lines_of(s@) == strs_view(res@) + lines_from(s@, i as int),
        decreases chars@.len() - i,
    {
        let mut e: usize = i;
        while e < chars.len() && chars[e] != '\n'
            invariant
                i <= e <= chars@.len(),
                chars@ == s@,
                first_index_of(s@, '\n', i as int) == first_index_of(s@, '\n', e as int),
            decreases chars@.len() - e,
        {
            e = e + 1;
        }
        proof {
            lemma_first_index_of(s@, '\n', i as int);
        }
        let mut end: usize = e;
        if e < chars.len() && end > i && chars[end - 1] == '\r' {
            end = end - 1;
        }
        let mut line = String::new();
        let mut k: usize = i;
        while k < end
            invariant
                i <= k <= end <= chars@.len(),
                chars@ == s@,
                line@ == s@.subrange(i as int, k as int),
            decreases end - k,
        {
            string_push(&mut line, chars[k]);
            k = k + 1;
        }
        proof {
            let raw = s@.subrange(i as int, e as int);
            let expect = if e < s@.len() && raw.len() > 0 && raw.last() == '\r' { raw.drop_last() } else { raw };
            assert(line@ =~= expect);
            assert(lines_from(s@, i as int) == seq![expect] + lines_from(s@, e + 1)) by {
                if e == s@.len() {
                    assert(lines_from(s@, e + 1) =~= Seq::<Seq<char>>::empty());
                    assert(seq![expect] + Seq::<Seq<char>>::empty() =~= seq![expect]);
                }
            }
        }
        let ghost before = res@;
        res.push(line);
        proof {
            assert(strs_view(res@) =~= strs_view(before).push(line@));
            assert(strs_view(before).push(line@) + lines_from(s@, e + 1) =~= strs_view(before) + (seq![line@]
                + lines_from(s@, e + 1)));
        }
        i = if e < chars.len() { e + 1 } else { chars.len() };
    }
    assert(lines_from(s@, i as int) =~= Seq::<Seq<char>>::empty());
    assert(strs_view(res@) + Seq::<Seq<char>>::empty() =~= strs_view(res@));
    res
}

/// Whether a line opens or closes a fenced code block: it starts with
/// three backticks after leading white space.
pub open spec fn is_fence_spec(line: Seq<char>) -> bool {
    let t = trim_start_seq(line);
    t.len() >= 3 && t[0] == '`' && t[1] == '`' && t[2] == '`'
}

/// Whether a line opens or closes a fenced code block.
pub fn is_fence_line(line: &str) -> (res: bool)
    ensures
        res == is_fence_spec(line@),
{
    let c = to_chars(line);
    let mut i: usize = 0;
    while i < c.len() && is_whitespace(c[i])
        invariant
            i <= c@.len(),
            c@ == line@,
            forall|j: int| 0 <= j < i ==> is_white_space(#[trigger] c@[j]),
        decreases c@.len() - i,
    {
        i = i + 1;
    }
    proof {
        lemma_trim_start_skip(line@, i as int);
        let t = line@.skip(i as int);
        if t.len() > 0 {
            assert(t[0] == c@[i as int]);
        }
        assert(trim_start_seq(t) == t);
    }
    c.len() - i >= 3 && c[i] == '`' && c[i + 1] == '`' && c[i + 2] == '`'
}

/// A part of a documentation page: Markdown text, or a table.
#[derive(Debug, Clone)]
pub enum DocumentSegment {
    Markdown(String),
    Table { headers: Vec<String>, rows: Vec<Vec<String>> },
}

/// The value of a segment.
pub ghost enum SegmentV {
    Markdown(Seq<char>),
    Table(Seq<Seq<char>>, Seq<Seq<Seq<char>>>),
}

/// The value of a segment.
pub open spec fn segment_view(s: DocumentSegment) -> SegmentV {
    match s {
        DocumentSegment::Markdown(t) => SegmentV::Markdown(t@),
        DocumentSegment::Table { headers, rows } => SegmentV::Table(string_views(headers@), rows_views(rows@)),
    }
}

/// The values of segments.
pub open spec fn segments_view(s: Seq<DocumentSegment>) -> Seq<SegmentV> {
    s.map_values(|x: DocumentSegment| segment_view(x))
}

/// The Markdown segment that pending lines make: none without lines, else
/// the lines joined with `\n`.
pub open spec fn flush_spec(pending: Seq<Seq<char>>) -> Seq<SegmentV> {
    if pending.len() == 0 { Seq::empty() } else { seq![SegmentV::Markdown(joined(pending, "\n"@))] }
}

/// A table spans at least its header and delimiter lines, and no more
/// lines than there are.
pub proof fn lemma_table_span(lines: Seq<Seq<char>>)
    ensures
        parse_table_spec(lines) matches Some((_, _, n)) ==> 2 <= n <= lines.len(),
{
    if parse_table_spec(lines) is Some {
        lemma_rows_end(lines, 2, table_cells_spec(lines[0]).len() as int);
    }
}

/// The end of the rows lies between their start and the last line.
proof fn lemma_rows_end(lines: Seq<Seq<char>>, k: int, n: int)
    requires
        0 <= k <= lines.len(),
    ensures
        k <= rows_end(lines, k, n) <= lines.len(),
    decreases lines.len() - k,
{
    if k < lines.len() && row_fits(lines[k], n) {
        lemma_rows_end(lines, k + 1, n);
    }
}

/// The segments of `lines` from line `i`, with `pending` Markdown lines
/// gathered so far: outside a fenced code block, a table starts wherever
/// `parse_table_spec` finds one; fences and all other lines are Markdown.
pub open spec fn segments_from(lines: Seq<Seq<char>>, i: int, in_fence: bool, pending: Seq<Seq<char>>) -> Seq<SegmentV>
    decreases lines.len() - i,
{
    if i < 0 || i >= lines.len() {
        flush_spec(pending)
    } else if is_fence_spec(lines[i]) {
        segments_from(lines, i + 1, !in_fence, pending.push(lines[i]))
    } else if !in_fence && parse_table_spec(lines.skip(i)) is Some {
        proof {
            lemma_table_span(lines.skip(i));
        }
        let (h, r, n) = parse_table_spec(lines.skip(i)).unwrap();
        flush_spec(pending) + seq![SegmentV::Table(h, r)] + segments_from(lines, i + n, in_fence, Seq::empty())
    } else {
        segments_from(lines, i + 1, in_fence, pending.push(lines[i]))
    }
}

/// The segments of a page's lines.
pub open spec fn segments_spec(lines: Seq<Seq<char>>) -> Seq<SegmentV> {
    segments_from(lines, 0, false, Seq::empty())
}

/// The Markdown segment for pending lines, if any, appended to `out`.
fn flush_pending(out: &mut Vec<DocumentSegment>, pending: &mut Vec<String>)
    ensures
        segments_view(final(out)@) == segments_view(old(out)@) + flush_spec(strs_view(old(pending)@)),
        final(pending)@.len() == 0,
{
    if pending.len() > 0 {
        let text = join_lines(pending);
        let ghost before = out@;
        out.push(DocumentSegment::Markdown(text));
        assert(segments_view(out@) =~= segments_view(before).push(SegmentV::Markdown(text@)));
    } else {
        assert(segments_view(out@) + flush_spec(strs_view(pending@)) =~= segments_view(out@));
    }
    *pending = Vec::new();
}

/// The lines joined with `\n`.
fn join_lines(lines: &Vec<String>) -> (res: String)
    ensures
        res@ == joined(strs_view(lines@), "\n"@),
{
    crate::text::join_strs(lines, "\n")
}

/// The segments of a page's lines: Markdown text, and the tables found
/// outside fenced code blocks.
pub fn document_segments(lines: &[&str]) -> (res: Vec<DocumentSegment>)
    ensures
        segments_view(res@) == segments_spec(lines_view(lines@)),
{
    let ghost lv = lines_view(lines@);
    let mut out: Vec<DocumentSegment> = Vec::new();
    let mut pending: Vec<String> = Vec::new();
    let mut in_fence = false;
    let mut i: usize = 0;
    assert(strs_view(pending@) =~= Seq::<Seq<char>>::empty());
    assert(segments_view(out@) =~= Seq::<SegmentV>::empty());
    assert(segments_view(out@) + segments_spec(lv) =~= segments_spec(lv));
    while i < lines.len()
        invariant
            i <= lines@.len(),
            lv == lines_view(lines@),
            lv.len() == lines@.len(),
            segments_spec(lv) == segments_view(out@) + segments_from(lv, i as int, in_fence, strs_view(pending@)),
        decreases lines@.len() - i,
    {
        assert(lv[i as int] == lines@[i as int]@);
        if is_fence_line(lines[i]) {
            in_fence = !in_fence;
            let ghost before = pending@;
            pending.push(copy_str(lines[i]));
            assert(strs_view(pending@) =~= strs_view(before).push(lv[i as int]));
            i = i + 1;
        } else {
            let rest = vstd::slice::slice_subrange(lines, i, lines.len());
            assert(lines_view(rest@) =~= lv.skip(i as int));
            let table = if in_fence { None } else { parse_table(rest) };
            match table {
                Some((headers, rows, consumed)) => {
                    proof {
                        lemma_table_span(lv.skip(i as int));
                    }
                    let ghost seg = SegmentV::Table(string_views(headers@), rows_views(rows@));
                    let ghost pend = strs_view(pending@);
                    flush_pending(&mut out, &mut pending);
                    let ghost mid = out@;
                    out.push(DocumentSegment::Table { headers, rows });
                    proof {
                        assert(segments_view(out@) =~= segments_view(mid).push(seg));
                        assert(strs_view(pending@) =~= Seq::<Seq<char>>::empty());
                    }
                    i = i + consumed;
                },
                None => {
                    let ghost before = pending@;
                    pending.push(copy_str(lines[i]));
                    assert(strs_view(pending@) =~= strs_view(before).push(lv[i as int]));
                    i = i + 1;
                },
            }
        }
    }
    flush_pending(&mut out, &mut pending);
    assert(segments_view(out@) =~= segments_view(out@) + Seq::<SegmentV>::empty());
    out
}

/// The number of `#` a line starts with.
pub open spec fn leading_hashes(line: Seq<char>) -> int
    decreases line.len(),
{
    if line.len() > 0 && line[0] == '#' {
        1 + leading_hashes(line.drop_first())
    } else {
        0
    }
}

/// The title of a heading line: one to six `#` then a space, the rest of
/// the line trimmed; none for other lines.
pub open spec fn heading_text(line: Seq<char>) -> Option<Seq<char>> {
    let h = leading_hashes(line);
    if 1 <= h <= 6 && h < line.len() && line[h] == ' ' {
        Some(trim_seq(line.skip(h + 1)))
    } else {
        None
    }
}

/// The anchor of a heading whose slug `count` earlier headings share:
/// the slug, numbered from the second on.
pub open spec fn numbered_slug(base: Seq<char>, count: nat) -> Seq<char> {
    if count == 0 { base } else { base + "-"@ + decimal(count) }
}

/// Progress through a page's lines while collecting heading anchors.
pub ghost struct AnchorScan {
    pub in_fence: bool,
    pub counts: Seq<(Seq<char>, nat)>,
    pub anchors: Seq<(Seq<char>, int)>,
}

/// One line of the scan: fences toggle the code block; outside it, a
/// heading with a non-empty slug gets its numbered anchor at `index`.
pub open spec fn anchor_step(st: AnchorScan, line: Seq<char>, index: int) -> AnchorScan {
    if is_fence_spec(line) {
        AnchorScan { in_fence: !st.in_fence, ..st }
    } else if st.in_fence {
        st
    } else {
        match heading_text(line) {
            None => st,
            Some(t) => {
                let base = github_slug_spec(t);
                if base.len() == 0 {
                    st
                } else {
                    let c: nat = match lookup(st.counts, base) {
                        Some(n) => n,
                        None => 0,
                    };
                    AnchorScan {
                        in_fence: st.in_fence,
                        counts: upsert(st.counts, base, c + 1),
                        anchors: st.anchors.push((numbered_slug(base, c), index)),
                    }
                }
            },
        }
    }
}

/// The scan after the first `n` lines.
pub open spec fn anchor_scan(lines: Seq<Seq<char>>, n: int) -> AnchorScan
    decreases n,
{
    if n <= 0 {
        AnchorScan { in_fence: false, counts: Seq::empty(), anchors: Seq::empty() }
    } else {
        anchor_step(anchor_scan(lines, n - 1), lines[n - 1], n - 1)
    }
}

/// The heading anchors of a page's lines, with the line each stands on.
pub open spec fn heading_anchors_spec(lines: Seq<Seq<char>>) -> Seq<(Seq<char>, int)> {
    anchor_scan(lines, lines.len() as int).anchors
}

/// The counts by slug.
pub open spec fn counts_view(v: Seq<(String, usize)>) -> Seq<(Seq<char>, nat)> {
    v.map_values(|e: (String, usize)| (e.0@, e.1 as nat))
}

/// The anchors by line.
pub open spec fn anchors_view(v: Seq<(String, usize)>) -> Seq<(Seq<char>, int)> {
    v.map_values(|e: (String, usize)| (e.0@, e.1 as int))
}

/// No count exceeds `b`.
pub open spec fn counts_bounded(d: Seq<(Seq<char>, nat)>, b: nat) -> bool {
    forall|k: int| 0 <= k < d.len() ==> #[trigger] d[k].1 <= b
}

/// A looked-up count is within the bound of all counts.
proof fn lemma_lookup_bounded(d: Seq<(Seq<char>, nat)>, key: Seq<char>, b: nat)
    requires
        counts_bounded(d, b),
    ensures
        lookup(d, key) matches Some(n) ==> n <= b,
    decreases d.len(),
{
    if d.len() > 0 && d[0].0 != key {
        let t = d.drop_first();
        assert forall|k: int| 0 <= k < t.len() implies #[trigger] t[k].1 <= b by {
            assert(t[k] == d[k + 1]);
        }
        lemma_lookup_bounded(t, key, b);
    }
}

/// Setting a count within the bound keeps all counts within it.
proof fn lemma_upsert_bounded(d: Seq<(Seq<char>, nat)>, key: Seq<char>, v: nat, b: nat)
    requires
        counts_bounded(d, b),
        v <= b,
    ensures
        counts_bounded(upsert(d, key, v), b),
    decreases d.len(),
{
    if d.len() > 0 && d[0].0 != key {
        let t = d.drop_first();
        assert forall|k: int| 0 <= k < t.len() implies #[trigger] t[k].1 <= b by {
            assert(t[k] == d[k + 1]);
        }
        lemma_upsert_bounded(t, key, v, b);
        let u = upsert(d, key, v);
        assert forall|k: int| 0 <= k < u.len() implies #[trigger] u[k].1 <= b by {
            if k > 0 {
                assert(u[k] == upsert(t, key, v)[k - 1]);
            }
        }
    }
}

/// The count of `key`: the index of its first entry, if any.
fn find_count(v: &Vec<(String, usize)>, key: &str) -> (res: Option<usize>)
    ensures
        match res {
            Some(i) => {
                &&& i < v@.len()
                &&& lookup(counts_view(v@), key@) == Some(v@[i as int].1 as nat)
                &&& counts_view(v@)[i as int].0 == key@
                &&& forall|j: int| 0 <= j < i ==> counts_view(v@)[j].0 != key@
            },
            None => {
                &&& lookup(counts_view(v@), key@) is None
                &&& forall|j: int| 0 <= j < v@.len() ==> counts_view(v@)[j].0 != key@
            },
        },
{
    let ghost d = counts_view(v@);
    assert(d.skip(0) =~= d);
    let mut i: usize = 0;
    while i < v.len()
        invariant
            i <= v@.len(),
            d == counts_view(v@),
            d.len() == v@.len(),
            lookup(d, key@) == lookup(d.skip(i as int), key@),
            forall|j: int| 0 <= j < i ==> d[j].0 != key@,
        decreases v@.len() - i,
    {
        let ghost rest = d.skip(i as int);
        assert(rest[0] == d[i as int]);
        assert(rest.drop_first() =~= d.skip(i + 1));
        if str_eq(v[i].0.as_str(), key) {
            return Some(i);
        }
        i = i + 1;
    }
    assert(d.skip(i as int) =~= Seq::<(Seq<char>, nat)>::empty());
    None
}

/// Sets the count of `key` to `n`.
fn set_count(v: &mut Vec<(String, usize)>, key: String, n: usize)
    ensures
        counts_view(final(v)@) == upsert(counts_view(old(v)@), key@, n as nat),
{
    let ghost d = counts_view(v@);
    let ghost kv = key@;
    match find_count(v, key.as_str()) {
        Some(i) => {
            proof {
                crate::views::language_drafts::lemma_upsert_at(d, kv, n as nat, i as int);
            }
            let ghost old_v = v@;
            v.set(i, (key, n));
            assert(counts_view(v@) =~= d.update(i as int, (kv, n as nat)));
        },
        None => {
            proof {
                crate::views::language_drafts::lemma_upsert_absent(d, kv, n as nat);
            }
            v.push((key, n));
            assert(counts_view(v@) =~= d.push((kv, n as nat)));
        },
    }
}




/// The number of leading `#` of a line, as characters.
fn count_hashes(c: &Vec<char>) -> (h: usize)
    ensures
        h as int == leading_hashes(c@),
        h <= c@.len(),
{
    let mut h: usize = 0;
    assert(c@.skip(0) =~= c@);
    while h < c.len() && c[h] == '#'
        invariant
            h <= c@.len(),
            leading_hashes(c@) == h + leading_hashes(c@.skip(h as int)),
        decreases c@.len() - h,
    {
        let ghost rest = c@.skip(h as int);
        assert(rest[0] == c@[h as int]);
        assert(rest.drop_first() =~= c@.skip(h + 1));
        h = h + 1;
    }
    proof {
        let rest = c@.skip(h as int);
        if h < c@.len() {
            assert(rest[0] == c@[h as int]);
        }
    }
    h
}

/// The title of a heading line, if it is one.
fn heading_title(line: &str) -> (res: Option<String>)
    ensures
        match res {
            Some(t) => heading_text(line@) == Some(t@),
            None => heading_text(line@) is None,
        },
{
    let c = to_chars(line);
    let h = count_hashes(&c);
    if h >= 1 && h <= 6 && h < c.len() && c[h] == ' ' {
        let mut rest = String::new();
        let mut k: usize = h + 1;
        while k < c.len()
            invariant
                h + 1 <= k <= c@.len(),
                c@ == line@,
                rest@ == line@.subrange(h + 1, k as int),
            decreases c@.len() - k,
        {
            string_push(&mut rest, c[k]);
            k = k + 1;
        }
        assert(rest@ =~= line@.skip(h + 1));
        Some(trim(rest.as_str()))
    } else {
        None
    }
}

/// The anchors of a page's headings outside fenced code blocks, in order,
/// each with the line it stands on. A slug shared by earlier headings is
/// numbered (`-1`, `-2`, ...).
pub fn heading_anchors(lines: &[&str]) -> (res: Vec<(String, usize)>)
    ensures
        anchors_view(res@) == heading_anchors_spec(lines_view(lines@)),
{
    let ghost lv = lines_view(lines@);
    let mut anchors: Vec<(String, usize)> = Vec::new();
    let mut counts: Vec<(String, usize)> = Vec::new();
    let mut in_fence = false;
    let mut i: usize = 0;
    assert(anchors_view(anchors@) =~= Seq::<(Seq<char>, int)>::empty());
    assert(counts_view(counts@) =~= Seq::<(Seq<char>, nat)>::empty());
    while i < lines.len()
        invariant
            i <= lines@.len(),
            lv == lines_view(lines@),
            lv.len() == lines@.len(),
            anchor_scan(lv, i as int) == (AnchorScan {
                in_fence: in_fence,
                counts: counts_view(counts@),
                anchors: anchors_view(anchors@),
            }),
            counts_bounded(counts_view(counts@), i as nat),
        decreases lines@.len() - i,
    {
        assert(lv[i as int] == lines@[i as int]@);
        if is_fence_line(lines[i]) {
            in_fence = !in_fence;
        } else if !in_fence {
            match heading_title(lines[i]) {
                None => {},
                Some(t) => {
                    let base = github_slug(t.as_str());
                    if base.unicode_len() > 0 {
                        let c: usize = match find_count(&counts, base.as_str()) {
                            Some(j) => counts[j].1,
                            None => 0,
                        };
                        proof {
                            lemma_lookup_bounded(counts_view(counts@), base@, i as nat);
                        }
                        let slug = if c == 0 {
                            copy_str(base.as_str())
                        } else {
                            let mut s = copy_str(base.as_str());
                            push_str(&mut s, "-");
                            let digits = u64_to_decimal(c as u64);
                            push_str(&mut s, digits.as_str());
                            s
                        };
                        let ghost before_anchors = anchors@;
                        let ghost before_counts = counts_view(counts@);
                        proof {
                            lemma_upsert_bounded(before_counts, base@, (c + 1) as nat, (i + 1) as nat);
                        }
                        set_count(&mut counts, base, c + 1);
                        anchors.push((slug, i));
                        assert(anchors_view(anchors@) =~= anchors_view(before_anchors).push((
                            numbered_slug(github_slug_spec(t@), c as nat),
                            i as int,
                        )));
                    }
                },
            }
        }
        proof {
            assert forall|k: int| 0 <= k < counts_view(counts@).len() implies #[trigger] counts_view(counts@)[k].1
                <= (i + 1) as nat by {}
        }
        i = i + 1;
    }
    anchors
}

/// A documentation page taken apart: its Markdown and table segments, its
/// heading anchors with their lines, and its number of lines (which the
/// view turns into scroll offsets).
#[derive(Debug, Clone)]
pub struct ParsedDocument {
    pub segments: Vec<DocumentSegment>,
    pub anchors: Vec<(String, usize)>,
    pub line_count: usize,
}

impl ParsedDocument {
    /// A document with nothing in it.
    pub open spec fn is_empty(&self) -> bool {
        self.segments@.len() == 0 && self.anchors@.len() == 0 && self.line_count == 0
    }

    /// This is what parsing `source` gives.
    pub open spec fn parses(&self, source: Seq<char>) -> bool {
        &&& segments_view(self.segments@) == segments_spec(lines_of(safe_source(source)))
        &&& anchors_view(self.anchors@) == heading_anchors_spec(lines_of(safe_source(source)))
        &&& self.line_count == lines_of(safe_source(source)).len()
    }

    /// The empty document, shown before anything is loaded and when a
    /// document is missing or malformed.
    pub fn empty() -> (d: Self)
        ensures
            d.is_empty(),
    {
        ParsedDocument { segments: Vec::new(), anchors: Vec::new(), line_count: 0 }
    }
}

/// The text a page is parsed from: external images made links, then links
/// rewritten.
pub open spec fn safe_source(source: Seq<char>) -> Seq<char> {
    let images = or_unchanged(regex_replaced(EXTERNAL_IMAGE_PATTERN@, source, EXTERNAL_IMAGE_LINK@), source);
    or_unchanged(regex_links_rewritten(MARKDOWN_LINK_PATTERN@, images), images)
}

/// The lines as string slices.
fn line_slices(lines: &Vec<String>) -> (res: Vec<&str>)
    ensures
        lines_view(res@) == strs_view(lines@),
{
    let mut res: Vec<&str> = Vec::new();
    let mut i: usize = 0;
    while i < lines.len()
        invariant
            i <= lines@.len(),
            res@.len() == i,
            forall|k: int| 0 <= k < i ==> (#[trigger] res@[k])@ == lines@[k]@,
        decreases lines@.len() - i,
    {
        res.push(lines[i].as_str());
        i = i + 1;
    }
    assert(lines_view(res@) =~= strs_view(lines@));
    res
}

/// Takes a documentation page apart: external images become links, links
/// point into the app, then the lines are split into Markdown and table
/// segments, and the heading anchors are collected.
pub fn parse_document(source: &str) -> (res: ParsedDocument)
    ensures
        segments_view(res.segments@) == segments_spec(lines_of(safe_source(source@))),
        anchors_view(res.anchors@) == heading_anchors_spec(lines_of(safe_source(source@))),
        res.line_count == lines_of(safe_source(source@)).len(),
        res.parses(source@),
{
    let images = external_images_as_links(source);
    let safe = rewrite_links(images.as_str());
    let lines = split_lines(safe.as_str());
    let slices = line_slices(&lines);
    let anchors = heading_anchors(slices.as_slice());
    let segments = document_segments(slices.as_slice());
    ParsedDocument { segments, anchors, line_count: lines.len() }
}

} // verus!
