//! The report: the one on-disk contract the core guarantees. A report is
//! tab-separated text with a header row and one `(id, path, decision)`
//! row per record, no embedded tabs or line breaks in field values; this
//! module renders it and reads it back.
//!
//! The reader maps fields by header name: it needs `id` and `path`
//! columns, takes a `size` column when one is there and falls back to a
//! placeholder when it is not, normalizes an empty size to the
//! placeholder, and silently skips rows whose path is blank — a
//! per-row defect never loses the rest of the report.

use vstd::prelude::*;
use crate::decode::Decision;
use crate::graph::DecisionRecord;
use crate::text::{dec_str_spec, trim_spec, trim_bounds, u64_to_string, utf8_lossy, utf8_lossy_of};

verus! {

/// Why a report failed to parse: a data row exists but the header lacks
/// the `id` or `path` column, or a data row has a different number of
/// fields than the header.
#[derive(Clone, Copy, Debug, PartialEq, Eq, Structural)]
pub enum ReportError {
    MissingColumn,
    UnequalRow,
}

/// One row read back from a report file.
#[derive(Debug, Clone, PartialEq, Eq)]
pub struct ReportRow {
    pub id: String,
    pub path: String,
    pub size: String,
}

/// The view of a parsed row, for the parser's contract.
pub struct SpecRow {
    pub id: Seq<char>,
    pub path: Seq<char>,
    pub size: Seq<char>,
}

/// The placeholder a missing or empty size column is read as.
pub fn default_size() -> (r: String)
    ensures
        r@ == "—"@,
{
    String::from_str("—")
}

/// A field value the report format can carry: no tabs, no line breaks.
pub open spec fn spec_clean_field(s: Seq<char>) -> bool {
    forall|i: int| 0 <= i < s.len() ==> s[i] != '\t' && s[i] != '\n' && s[i] != '\r'
}

/// Whether a string can stand as a report field.
pub fn field_is_clean(s: &str) -> (r: bool)
    ensures
        r == spec_clean_field(s@),
{
    let n = s.unicode_len();
    let mut i: usize = 0;
    while i < n
        invariant
            0 <= i <= n,
            n == s@.len(),
            forall|k: int| 0 <= k < i ==> s@[k] != '\t' && s@[k] != '\n' && s@[k] != '\r',
        decreases n - i,
    {
        let c = s.get_char(i);
        if c == '\t' || c == '\n' || c == '\r' {
            return false;
        }
        i = i + 1;
    }
    true
}

/// How a decision appears in the report: the conservative fallback is a
/// keep.
pub open spec fn spec_decision_str(d: Decision) -> Seq<char> {
    match d {
        Decision::Delete => "delete"@,
        Decision::Keep => "keep"@,
        Decision::FallbackKeep => "keep"@,
    }
}

/// The report text of a decision.
pub fn decision_to_str(d: Decision) -> (r: &'static str)
    ensures
        r@ == spec_decision_str(d),
{
    match d {
        Decision::Delete => "delete",
        Decision::Keep => "keep",
        Decision::FallbackKeep => "keep",
    }
}

/// One rendered report row.
pub open spec fn spec_report_line(d: DecisionRecord) -> Seq<char> {
    dec_str_spec(d.id as nat) + "\t"@ + d.path@ + "\t"@ + spec_decision_str(d.decision) + "\n"@
}

/// The whole rendered report: header row, then one row per decision.
pub open spec fn spec_report(rows: Seq<DecisionRecord>) -> Seq<char>
    decreases rows.len(),
{
    if rows.len() == 0 {
        "id\tpath\tdecision\n"@
    } else {
        spec_report(rows.drop_last()) + spec_report_line(rows.last())
    }
}

/// Render the report: a header row and one tab-separated
/// `(id, path, decision)` row per decision, each ended by a line break.
/// Paths must be clean of tabs and line breaks — that is the format's
/// guarantee to its readers.
pub fn render_llm_report(rows: &Vec<DecisionRecord>) -> (r: String)
    requires
        forall|k: int| 0 <= k < rows@.len() ==> spec_clean_field((#[trigger] rows@[k]).path@),
    ensures
        r@ == spec_report(rows@),
{
    let mut s = String::from_str("id\tpath\tdecision\n");
    proof {
        assert(rows@.subrange(0, 0) =~= Seq::<DecisionRecord>::empty());
    }
    let mut i: usize = 0;
    while i < rows.len()
        invariant
            0 <= i <= rows@.len(),
            s@ == spec_report(rows@.subrange(0, i as int)),
        decreases rows@.len() - i,
    {
        let row = &rows[i];
        let id_text = u64_to_string(row.id);
        s.append(id_text.as_str());
        s.append("\t");
        s.append(row.path.as_str());
        s.append("\t");
        s.append(decision_to_str(row.decision));
        s.append("\n");
        proof {
            let pre = rows@.subrange(0, i as int);
            let cur = rows@.subrange(0, i as int + 1);
            assert(cur.drop_last() =~= pre);
            assert(cur.last() == rows@[i as int]);
        }
        i = i + 1;
    }
    proof {
        assert(rows@.subrange(0, rows@.len() as int) =~= rows@);
    }
    s
}

/// Length of the prefix of `s` before the first `sep` byte (all of `s`
/// when none occurs).
pub open spec fn prefix_to_sep(s: Seq<u8>, sep: u8) -> nat
    decreases s.len(),
{
    if s.len() == 0 || s[0] == sep {
        0
    } else {
        1 + prefix_to_sep(s.drop_first(), sep)
    }
}

/// `s` split on `sep`: the fields between separators, in order; one more
/// field than separators, empty fields included.
pub open spec fn split_on(s: Seq<u8>, sep: u8) -> Seq<Seq<u8>>
    decreases s.len(),
{
    let k = prefix_to_sep(s, sep);
    if k >= s.len() {
        seq![s]
    } else {
        seq![s.subrange(0, k as int)] + split_on(s.subrange(k as int + 1, s.len() as int), sep)
    }
}

proof fn lemma_prefix_to_sep_is(s: Seq<u8>, sep: u8, k: int)
    requires
        0 <= k <= s.len(),
        forall|j: int| 0 <= j < k ==> s[j] != sep,
        k < s.len() ==> s[k] == sep,
    ensures
        prefix_to_sep(s, sep) == k,
    decreases s.len(),
{
    if k > 0 {
        lemma_prefix_to_sep_is(s.drop_first(), sep, k - 1);
    }
}

/// A line with a trailing carriage return dropped, so the reader accepts
/// both line-break conventions.
pub open spec fn clean_line(l: Seq<u8>) -> Seq<u8> {
    if l.len() > 0 && l[l.len() - 1] == 13 {
        l.drop_last()
    } else {
        l
    }
}

/// Split a byte slice on a separator.
fn split_bytes(s: &[u8], sep: u8) -> (r: Vec<Vec<u8>>)
    ensures
        r@.map_values(|f: Vec<u8>| f@) == split_on(s@, sep),
{
    let n = s.len();
    let mut fields: Vec<Vec<u8>> = Vec::new();
    let mut cur: Vec<u8> = Vec::new();
    let mut start: usize = 0;
    let mut i: usize = 0;
    proof {
        assert(s@.subrange(0, n as int) =~= s@);
        assert(cur@ =~= s@.subrange(0, 0));
        assert(fields@.map_values(|f: Vec<u8>| f@) + split_on(s@, sep) =~= split_on(s@, sep));
    }
    while i < n
        invariant
            0 <= start <= i <= n,
            n == s@.len(),
            cur@ == s@.subrange(start as int, i as int),
            forall|j: int| start <= j < i ==> s@[j] != sep,
            split_on(s@, sep) == fields@.map_values(|f: Vec<u8>| f@) + split_on(s@.subrange(
                start as int, n as int), sep),
        decreases n - i,
    {
        if s[i] == sep {
            proof {
                let t = s@.subrange(start as int, n as int);
                lemma_prefix_to_sep_is(t, sep, i - start);
                assert(t.subrange(0, i - start) =~= s@.subrange(start as int, i as int));
                assert(t.subrange(i - start + 1, t.len() as int) =~= s@.subrange(i as int + 1,
                    n as int));
                assert(fields@.map_values(|f: Vec<u8>| f@) + split_on(t, sep)
                    =~= fields@.map_values(|f: Vec<u8>| f@).push(cur@) + split_on(s@.subrange(
                    i as int + 1, n as int), sep));
            }
            fields.push(cur);
            cur = Vec::new();
            start = i + 1;
            proof {
                assert(fields@.map_values(|f: Vec<u8>| f@) =~= fields@.drop_last().map_values(
                    |f: Vec<u8>| f@).push(fields@.last()@));
                assert(cur@ =~= s@.subrange(start as int, start as int));
            }
        } else {
            cur.push(s[i]);
            proof {
                assert(cur@ =~= s@.subrange(start as int, i as int + 1));
            }
        }
        i = i + 1;
    }
    proof {
        let t = s@.subrange(start as int, n as int);
        lemma_prefix_to_sep_is(t, sep, n - start);
        assert(split_on(t, sep) =~= seq![t]);
        assert(cur@ == t);
    }
    fields.push(cur);
    proof {
        assert(fields@.map_values(|f: Vec<u8>| f@) =~= fields@.drop_last().map_values(
            |f: Vec<u8>| f@).push(fields@.last()@));
    }
    fields
}

/// Copy a line with its trailing carriage return dropped.
fn clean_of(line: &[u8]) -> (r: Vec<u8>)
    ensures
        r@ == clean_line(line@),
{
    let n = if line.len() > 0 && line[line.len() - 1] == 13 {
        line.len() - 1
    } else {
        line.len()
    };
    let mut v: Vec<u8> = Vec::new();
    let mut i: usize = 0;
    while i < n
        invariant
            0 <= i <= n <= line@.len(),
            v@ == line@.subrange(0, i as int),
        decreases n - i,
    {
        v.push(line[i]);
        proof {
            assert(v@ =~= line@.subrange(0, i as int + 1));
        }
        i = i + 1;
    }
    proof {
        assert(clean_line(line@) =~= line@.subrange(0, n as int));
    }
    v
}

/// The header bytes of the key column.
pub open spec fn id_name() -> Seq<u8> {
    seq![105u8, 100u8]  // "id"
}

/// The header bytes of the path column.
pub open spec fn path_name() -> Seq<u8> {
    seq![112u8, 97u8, 116u8, 104u8]  // "path"
}

/// The header bytes of the optional size column.
pub open spec fn size_name() -> Seq<u8> {
    seq![115u8, 105u8, 122u8, 101u8]  // "size"
}

/// First column of `header` named `name`, if any.
pub open spec fn col_index(header: Seq<Seq<u8>>, name: Seq<u8>) -> Option<int>
    decreases header.len(),
{
    if header.len() == 0 {
        None
    } else if header[0] == name {
        Some(0)
    } else {
        match col_index(header.drop_first(), name) {
            Some(j) => Some(j + 1),
            None => None,
        }
    }
}

proof fn lemma_col_index_at(header: Seq<Seq<u8>>, name: Seq<u8>, i: int)
    requires
        0 <= i < header.len(),
        header[i] == name,
        forall|k: int| 0 <= k < i ==> header[k] != name,
    ensures
        col_index(header, name) == Some(i),
    decreases header.len(),
{
    if header[0] == name {
    } else {
        lemma_col_index_at(header.drop_first(), name, i - 1);
    }
}

proof fn lemma_col_index_none(header: Seq<Seq<u8>>, name: Seq<u8>)
    requires
        forall|k: int| 0 <= k < header.len() ==> header[k] != name,
    ensures
        col_index(header, name) is None,
    decreases header.len(),
{
    if header.len() > 0 {
        lemma_col_index_none(header.drop_first(), name);
    }
}

/// Compare two byte sequences.
fn bytes_eq(a: &[u8], b: &[u8]) -> (r: bool)
    ensures
        r == (a@ == b@),
{
    if a.len() != b.len() {
        return false;
    }
    let mut i: usize = 0;
    while i < a.len()
        invariant
            0 <= i <= a@.len(),
            a@.len() == b@.len(),
            forall|k: int| 0 <= k < i ==> a@[k] == b@[k],
        decreases a@.len() - i,
    {
        if a[i] != b[i] {
            return false;
        }
        i = i + 1;
    }
    proof {
        assert(a@ =~= b@);
    }
    true
}

/// First column of `header` whose bytes equal `name`, if any.
fn find_col(header: &Vec<Vec<u8>>, name: &[u8]) -> (r: Option<usize>)
    ensures
        match r {
            Some(i) => col_index(header@.map_values(|f: Vec<u8>| f@), name@) == Some(i as int)
                && i < header@.len(),
            None => col_index(header@.map_values(|f: Vec<u8>| f@), name@) is None,
        },
{
    let ghost hs = header@.map_values(|f: Vec<u8>| f@);
    let mut i: usize = 0;
    while i < header.len()
        invariant
            0 <= i <= header@.len(),
            hs == header@.map_values(|f: Vec<u8>| f@),
            forall|k: int| 0 <= k < i ==> hs[k] != name@,
        decreases header@.len() - i,
    {
        if bytes_eq(header[i].as_slice(), name) {
            proof {
                lemma_col_index_at(hs, name@, i as int);
            }
            return Some(i);
        }
        i = i + 1;
    }
    proof {
        lemma_col_index_none(hs, name@);
    }
    None
}

/// The view of the row the given fields yield, with the size column
/// normalized: absent or blank becomes the placeholder.
pub open spec fn spec_row(fields: Seq<Seq<u8>>, idi: int, pi: int, si: Option<int>) -> SpecRow {
    SpecRow {
        id: utf8_lossy_of(fields[idi]),
        path: utf8_lossy_of(fields[pi]),
        size: match si {
            Some(s) => if trim_spec(fields[s]).len() == 0 {
                "—"@
            } else {
                utf8_lossy_of(fields[s])
            },
            None => "—"@,
        },
    }
}

/// Parse the data rows against a header: blank lines are skipped, a row
/// with a different field count than the header fails, a missing `id` or
/// `path` column fails at the first data row, and a row whose path is
/// blank is skipped.
pub open spec fn spec_parse_rows(header: Seq<Seq<u8>>, lines: Seq<Seq<u8>>) -> Result<
    Seq<SpecRow>,
    ReportError,
>
    decreases lines.len(),
{
    if lines.len() == 0 {
        Ok(Seq::empty())
    } else {
        let l = clean_line(lines[0]);
        if l.len() == 0 {
            spec_parse_rows(header, lines.drop_first())
        } else {
            let fields = split_on(l, 9);
            if fields.len() != header.len() {
                Err(ReportError::UnequalRow)
            } else if col_index(header, id_name()) is Some && col_index(header, path_name())
                is Some {
                let idi = col_index(header, id_name())->Some_0;
                let pi = col_index(header, path_name())->Some_0;
                match spec_parse_rows(header, lines.drop_first()) {
                    Err(e) => Err(e),
                    Ok(tail) => if trim_spec(fields[pi]).len() == 0 {
                        Ok(tail)
                    } else {
                        Ok(seq![spec_row(fields, idi, pi, col_index(header, size_name()))] + tail)
                    },
                }
            } else {
                Err(ReportError::MissingColumn)
            }
        }
    }
}

/// Parse a whole report: blank lines before the header are skipped, the
/// first non-blank line is the header, and a report with no lines at all
/// is empty.
pub open spec fn spec_parse_all(lines: Seq<Seq<u8>>) -> Result<Seq<SpecRow>, ReportError>
    decreases lines.len(),
{
    if lines.len() == 0 {
        Ok(Seq::empty())
    } else {
        let h = clean_line(lines[0]);
        if h.len() == 0 {
            spec_parse_all(lines.drop_first())
        } else {
            spec_parse_rows(split_on(h, 9), lines.drop_first())
        }
    }
}

/// What parsing a report's bytes yields.
pub open spec fn spec_parse_report(content: Seq<u8>) -> Result<Seq<SpecRow>, ReportError> {
    spec_parse_all(split_on(content, 10))
}

/// The view a parsed row presents, for the parser's contract.
pub open spec fn row_view(row: ReportRow) -> SpecRow {
    SpecRow { id: row.id@, path: row.path@, size: row.size@ }
}

/// Read a report back from its bytes: fields are mapped by header name,
/// the size column is optional and normalized, blank-path rows are
/// skipped. The result is exactly [`spec_parse_report`] of the content.
pub fn load_llm_report_tsv(content: &[u8]) -> (r: Result<Vec<ReportRow>, ReportError>)
    ensures
        match r {
            Ok(rows) => spec_parse_report(content@) == Ok::<Seq<SpecRow>, ReportError>(
                rows@.map_values(|row: ReportRow| row_view(row)),
            ),
            Err(e) => spec_parse_report(content@) == Err::<Seq<SpecRow>, ReportError>(e),
        },
{
    let lines = split_bytes(content, 10);
    let ghost ls = lines@.map_values(|f: Vec<u8>| f@);
    let n = lines.len();
    let mut li: usize = 0;
    let mut found = false;
    proof {
        assert(ls.subrange(0, n as int) =~= ls);
    }
    // find the header: the first non-blank line
    loop
        invariant_except_break
            0 <= li <= n,
            !found,
            n == lines@.len(),
            ls == lines@.map_values(|f: Vec<u8>| f@),
            spec_parse_all(ls.subrange(li as int, n as int)) == spec_parse_report(content@),
        ensures
            li <= n,
            n == lines@.len(),
            ls == lines@.map_values(|f: Vec<u8>| f@),
            found ==> li < n && clean_line(ls[li as int]).len() > 0 && spec_parse_rows(split_on(
                clean_line(ls[li as int]), 9), ls.subrange(li as int + 1, n as int))
                == spec_parse_report(content@),
            !found ==> spec_parse_report(content@) == Ok::<Seq<SpecRow>, ReportError>(
                Seq::empty(),
            ),
        decreases n - li,
    {
        if li == n {
            proof {
                assert(ls.subrange(li as int, n as int) =~= Seq::<Seq<u8>>::empty());
            }
            break;
        }
        proof {
            assert(ls.subrange(li as int, n as int)[0] == ls[li as int]);
            assert(ls.subrange(li as int, n as int).drop_first() =~= ls.subrange(li as int + 1,
                n as int));
        }
        let cleaned = clean_of(lines[li].as_slice());
        if cleaned.len() > 0 {
            found = true;
            break;
        }
        li = li + 1;
    }
    if !found {
        proof {
            assert(Seq::<ReportRow>::empty().map_values(|row: ReportRow| row_view(row))
                =~= Seq::<SpecRow>::empty());
        }
        return Ok(Vec::new());
    }
    let cleaned = clean_of(lines[li].as_slice());
    let header = split_bytes(cleaned.as_slice(), 9);
    let ghost hs = header@.map_values(|f: Vec<u8>| f@);
    let id_pat: [u8; 2] = [105, 100];
    let path_pat: [u8; 4] = [112, 97, 116, 104];
    let size_pat: [u8; 4] = [115, 105, 122, 101];
    proof {
        assert(id_pat@ =~= id_name());
        assert(path_pat@ =~= path_name());
        assert(size_pat@ =~= size_name());
    }
    let idi_opt = find_col(&header, id_pat.as_slice());
    let pi_opt = find_col(&header, path_pat.as_slice());
    let si_opt = find_col(&header, size_pat.as_slice());
    let mut rows: Vec<ReportRow> = Vec::new();
    let mut lj: usize = li + 1;
    proof {
        assert(rows@.map_values(|row: ReportRow| row_view(row)) =~= Seq::<SpecRow>::empty());
    }
    while lj < n
        invariant
            li < lj <= n,
            n == lines@.len(),
            ls == lines@.map_values(|f: Vec<u8>| f@),
            hs == header@.map_values(|f: Vec<u8>| f@),
            (match idi_opt {
                Some(i) => col_index(hs, id_name()) == Some(i as int) && i < hs.len(),
                None => col_index(hs, id_name()) is None,
            }),
            (match pi_opt {
                Some(i) => col_index(hs, path_name()) == Some(i as int) && i < hs.len(),
                None => col_index(hs, path_name()) is None,
            }),
            (match si_opt {
                Some(i) => col_index(hs, size_name()) == Some(i as int) && i < hs.len(),
                None => col_index(hs, size_name()) is None,
            }),
            (match spec_parse_rows(hs, ls.subrange(lj as int, n as int)) {
                Ok(tail) => spec_parse_report(content@) == Ok::<Seq<SpecRow>, ReportError>(
                    rows@.map_values(|row: ReportRow| row_view(row)) + tail,
                ),
                Err(e) => spec_parse_report(content@) == Err::<Seq<SpecRow>, ReportError>(e),
            }),
        decreases n - lj,
    {
        proof {
            assert(ls.subrange(lj as int, n as int)[0] == ls[lj as int]);
            assert(ls.subrange(lj as int, n as int).drop_first() =~= ls.subrange(lj as int + 1,
                n as int));
        }
        let cleaned = clean_of(lines[lj].as_slice());
        if cleaned.len() > 0 {
            let fields = split_bytes(cleaned.as_slice(), 9);
            let ghost fs = fields@.map_values(|f: Vec<u8>| f@);
            if fields.len() != header.len() {
                return Err(ReportError::UnequalRow);
            }
            let (idi, pi) = match (idi_opt, pi_opt) {
                (Some(idi), Some(pi)) => (idi, pi),
                _ => {
                    return Err(ReportError::MissingColumn);
                },
            };
            let (plo, phi) = trim_bounds(fields[pi].as_slice());
            if plo == phi {
                // blank path: skip the row
                proof {
                    assert(trim_spec(fs[pi as int]).len() == 0);
                }
            } else {
                let id_text = utf8_lossy(fields[idi].as_slice());
                let path_text = utf8_lossy(fields[pi].as_slice());
                let size_text = match si_opt {
                    Some(si) => {
                        let (slo, shi) = trim_bounds(fields[si].as_slice());
                        if slo == shi {
                            default_size()
                        } else {
                            utf8_lossy(fields[si].as_slice())
                        }
                    },
                    None => default_size(),
                };
                let row = ReportRow { id: id_text, path: path_text, size: size_text };
                let ghost oldmap = rows@.map_values(|r2: ReportRow| row_view(r2));
                let ghost v = spec_row(fs, idi as int, pi as int, col_index(hs, size_name()));
                proof {
                    assert(trim_spec(fs[pi as int]).len() > 0);
                    assert(row_view(row) == v);
                }
                rows.push(row);
                proof {
                    assert(rows@.map_values(|r2: ReportRow| row_view(r2)) =~= oldmap.push(v));
                    match spec_parse_rows(hs, ls.subrange(lj as int + 1, n as int)) {
                        Ok(tail) => {
                            assert(oldmap.push(v) + tail =~= oldmap + (seq![v] + tail));
                        },
                        Err(_) => {},
                    }
                }
            }
        }
        lj = lj + 1;
    }
    proof {
        assert(ls.subrange(lj as int, n as int) =~= Seq::<Seq<u8>>::empty());
        assert(rows@.map_values(|row: ReportRow| row_view(row))
            + Seq::<SpecRow>::empty() =~= rows@.map_values(|row: ReportRow| row_view(row)));
    }
    Ok(rows)
}

} // verus!
