//! The durable report: rendering the filtered accounts to comma-separated
//! text, and parsing such text back for the cleanup phase.
//!
//! The format is the usual quoted tabular one: a fixed header line, then
//! one line per account with two fields.  A field containing a comma, a
//! double quote or a line break is wrapped in double quotes, with each
//! embedded quote doubled; any other field stands verbatim.

use vstd::prelude::*;
use vstd::string::StrSliceExecFns;
use vstd::string::StringExecFns;
use crate::account::{Account, AccountView, activity_field, views};

verus! {

broadcast use vstd::seq_lib::group_seq_properties;

/// A character that forces its field into quotes.
pub open spec fn is_special(c: char) -> bool {
    c == ',' || c == '"' || c == '\n' || c == '\r'
}

/// Whether a field must be quoted to survive the trip through the file.
pub open spec fn needs_quoting(f: Seq<char>) -> bool {
    exists|i: int| 0 <= i < f.len() && is_special(f[i])
}

/// The field with every double quote doubled.
pub open spec fn doubled(f: Seq<char>) -> Seq<char>
    decreases f.len(),
{
    if f.len() == 0 {
        Seq::empty()
    } else {
        (if f.first() == '"' {
            seq!['"', '"']
        } else {
            seq![f.first()]
        }) + doubled(f.drop_first())
    }
}

/// The text written for one field: quoted exactly when it must be.
pub open spec fn field_text(f: Seq<char>) -> Seq<char> {
    if needs_quoting(f) {
        seq!['"'] + doubled(f) + seq!['"']
    } else {
        f
    }
}

/// The line written for one account: name, comma, timestamp, line feed.
pub open spec fn row_text(name: Seq<char>, activity: Seq<char>) -> Seq<char> {
    field_text(name) + seq![','] + field_text(activity) + seq!['\n']
}

/// The data lines of a report, in account order.
pub open spec fn rows_text(rows: Seq<AccountView>) -> Seq<char>
    decreases rows.len(),
{
    if rows.len() == 0 {
        Seq::empty()
    } else {
        row_text(rows.first().name, activity_field(rows.first())) + rows_text(rows.drop_first())
    }
}

/// The fixed header line.
pub open spec fn header_text() -> Seq<char> {
    "Name,Last Activity\n"@
}

/// The whole report: header, then one line per account.
pub open spec fn report_text(rows: Seq<AccountView>) -> Seq<char> {
    header_text() + rows_text(rows)
}

/// Relies on `String::push` of std: appends exactly one character.
#[verifier::external_body]
fn push_char(s: &mut String, c: char)
    ensures
        final(s)@ == old(s)@.push(c),
{
    s.push(c);
}

fn field_needs_quoting(f: &str) -> (r: bool)
    ensures
        r == needs_quoting(f@),
{
    let n = f.unicode_len();
    let mut i: usize = 0;
    while i < n
        invariant
            0 <= i <= n,
            n == f@.len(),
            forall|j: int| 0 <= j < i ==> !is_special(f@[j]),
        decreases n - i,
    {
        let c = f.get_char(i);
        if c == ',' || c == '"' || c == '\n' || c == '\r' {
            proof {
                assert(is_special(f@[i as int]));
            }
            return true;
        }
        i = i + 1;
    }
    false
}

/// Renders one field, quoting it exactly when the format requires.
fn render_field(f: &str) -> (out: String)
    ensures
        out@ == field_text(f@),
{
    if !field_needs_quoting(f) {
        return f.to_owned();
    }
    let n = f.unicode_len();
    let mut out = String::from_str("\"");
    proof {
        reveal_strlit("\"");
        assert(out@ =~= seq!['"']);
        assert(f@.skip(0) == f@);
    }
    let mut i: usize = 0;
    while i < n
        invariant
            0 <= i <= n,
            n == f@.len(),
            seq!['"'] + doubled(f@) == out@ + doubled(f@.skip(i as int)),
        decreases n - i,
    {
        proof {
            let rest = f@.skip(i as int);
            assert(rest.first() == f@[i as int]);
            assert(rest.drop_first() == f@.skip(i as int + 1));
        }
        let c = f.get_char(i);
        if c == '"' {
            push_char(&mut out, '"');
            push_char(&mut out, '"');
        } else {
            push_char(&mut out, c);
        }
        i = i + 1;
    }
    proof {
        assert(doubled(f@.skip(n as int)) =~= Seq::<char>::empty());
        assert(out@ =~= seq!['"'] + doubled(f@));
    }
    push_char(&mut out, '"');
    proof {
        assert(out@ =~= seq!['"'] + doubled(f@) + seq!['"']);
    }
    out
}

/// Renders the whole report: the fixed header, then one line per
/// account in input order, fields taken verbatim from the account (a
/// missing timestamp becomes the empty field).
pub fn render_report(accounts: &Vec<Account>) -> (out: String)
    ensures
        out@ == report_text(views(accounts@)),
{
    let ghost vs = views(accounts@);
    let n = accounts.len();
    let mut out = String::from_str("Name,Last Activity\n");
    let mut i: usize = 0;
    proof {
        assert(vs.skip(0) == vs);
    }
    while i < n
        invariant
            0 <= i <= n,
            n == accounts@.len(),
            vs == views(accounts@),
            report_text(vs) == out@ + rows_text(vs.skip(i as int)),
        decreases n - i,
    {
        proof {
            let rest = vs.skip(i as int);
            assert(rest.first() == vs[i as int]);
            assert(rest.drop_first() == vs.skip(i as int + 1));
            assert(vs[i as int] == accounts@[i as int]@);
        }
        let ghost out0 = out@;
        let a = &accounts[i];
        let name_field = render_field(a.name.as_str());
        out.append(name_field.as_str());
        out.append(",");
        let act_field = match &a.last_activity_at {
            Some(s) => render_field(s.as_str()),
            None => String::new(),
        };
        proof {
            if a.last_activity_at is None {
                assert(!needs_quoting(Seq::<char>::empty()));
            }
            assert(act_field@ == field_text(activity_field(vs[i as int])));
        }
        out.append(act_field.as_str());
        out.append("\n");
        proof {
            reveal_strlit(",");
            reveal_strlit("\n");
            assert(","@ =~= seq![',']);
            assert("\n"@ =~= seq!['\n']);
            assert(out@ =~= out0 + row_text(vs[i as int].name, activity_field(vs[i as int])));
            assert(out0 + rows_text(vs.skip(i as int)) =~= (out0 + row_text(
                vs[i as int].name,
                activity_field(vs[i as int]),
            )) + rows_text(vs.skip(i as int + 1)));
        }
        i = i + 1;
    }
    proof {
        assert(rows_text(vs.skip(n as int)) =~= Seq::<char>::empty());
        assert(out@ + rows_text(vs.skip(n as int)) =~= out@);
    }
    out
}

/// One data row read back from a report: the two fields as written.
#[derive(Debug, PartialEq, Eq)]
pub struct ReportRow {
    pub name: String,
    pub last_activity: String,
}

/// The mathematical value of a [`ReportRow`].
pub struct RowView {
    pub name: Seq<char>,
    pub last_activity: Seq<char>,
}

impl View for ReportRow {
    type V = RowView;

    open spec fn view(&self) -> RowView {
        RowView { name: self.name@, last_activity: self.last_activity@ }
    }
}

/// The views of a sequence of rows.
pub open spec fn row_views(s: Seq<ReportRow>) -> Seq<RowView> {
    s.map_values(|r: ReportRow| r@)
}

/// Why a report text was rejected.
#[derive(Clone, Copy, Debug, PartialEq, Eq, Structural)]
pub enum ReportError {
    /// The fixed header line is absent or differs.
    MissingHeader,
    /// A data row is malformed: an unterminated quote, a stray quote or
    /// carriage return in a bare field, a missing comma or line feed.
    MalformedRows,
}

/// Reads a quoted field from the text after its opening quote: the field
/// ends at the first quote not doubled; a doubled quote stands for one.
/// Nothing where the quote is never closed.
pub open spec fn scan_quoted(s: Seq<char>) -> Option<(Seq<char>, Seq<char>)>
    decreases s.len(),
{
    if s.len() == 0 {
        None
    } else if s.first() == '"' {
        if s.len() >= 2 && s[1] == '"' {
            match scan_quoted(s.skip(2)) {
                Some(p) => Some((seq!['"'] + p.0, p.1)),
                None => None,
            }
        } else {
            Some((Seq::empty(), s.drop_first()))
        }
    } else {
        match scan_quoted(s.drop_first()) {
            Some(p) => Some((seq![s.first()] + p.0, p.1)),
            None => None,
        }
    }
}

/// Reads a bare field: everything up to the next comma or line feed.
/// Nothing where a quote or carriage return stands in it.
pub open spec fn scan_unquoted(s: Seq<char>) -> Option<(Seq<char>, Seq<char>)>
    decreases s.len(),
{
    if s.len() == 0 || s.first() == ',' || s.first() == '\n' {
        Some((Seq::empty(), s))
    } else if s.first() == '"' || s.first() == '\r' {
        None
    } else {
        match scan_unquoted(s.drop_first()) {
            Some(p) => Some((seq![s.first()] + p.0, p.1)),
            None => None,
        }
    }
}

/// Reads one field, quoted or bare.
pub open spec fn scan_field(s: Seq<char>) -> Option<(Seq<char>, Seq<char>)> {
    if s.len() > 0 && s.first() == '"' {
        scan_quoted(s.drop_first())
    } else {
        scan_unquoted(s)
    }
}

/// Reads one data row: two fields separated by a comma and closed by a
/// line feed.
pub open spec fn scan_row(s: Seq<char>) -> Option<(RowView, Seq<char>)> {
    match scan_field(s) {
        Some((name, r1)) => if r1.len() > 0 && r1.first() == ',' {
            match scan_field(r1.drop_first()) {
                Some((activity, r2)) => if r2.len() > 0 && r2.first() == '\n' {
                    Some((RowView { name, last_activity: activity }, r2.drop_first()))
                } else {
                    None
                },
                None => None,
            }
        } else {
            None
        },
        None => None,
    }
}

/// Reads data rows to the end of the text.
pub open spec fn scan_rows(s: Seq<char>) -> Option<Seq<RowView>>
    decreases s.len(),
{
    if s.len() == 0 {
        Some(Seq::empty())
    } else {
        match scan_row(s) {
            Some((row, rest)) => if rest.len() < s.len() {
                match scan_rows(rest) {
                    Some(rs) => Some(seq![row] + rs),
                    None => None,
                }
            } else {
                None
            },
            None => None,
        }
    }
}

/// The text opens with the fixed header line.
pub open spec fn header_matches(s: Seq<char>) -> bool {
    s.len() >= header_text().len() && s.take(header_text().len() as int) == header_text()
}

/// The rows of a report text: the header validated and dropped, then
/// every data row read; nothing where either step fails.
pub open spec fn scan_report(s: Seq<char>) -> Option<Seq<RowView>> {
    if header_matches(s) {
        scan_rows(s.skip(header_text().len() as int))
    } else {
        None
    }
}

/// A scan result with a prefix already read onto the front of the field.
spec fn prepend_scan(pre: Seq<char>, r: Option<(Seq<char>, Seq<char>)>) -> Option<
    (Seq<char>, Seq<char>),
> {
    match r {
        Some(p) => Some((pre + p.0, p.1)),
        None => None,
    }
}

/// A rows result with rows already read on the front.
spec fn prepend_rows(pre: Seq<RowView>, r: Option<Seq<RowView>>) -> Option<Seq<RowView>> {
    match r {
        Some(rs) => Some(pre + rs),
        None => None,
    }
}

fn chars_of(s: &str) -> (v: Vec<char>)
    ensures
        v@ == s@,
{
    let n = s.unicode_len();
    let mut v: Vec<char> = Vec::new();
    let mut i: usize = 0;
    while i < n
        invariant
            0 <= i <= n,
            n == s@.len(),
            v@ == s@.take(i as int),
        decreases n - i,
    {
        let c = s.get_char(i);
        v.push(c);
        proof {
            assert(v@ =~= s@.take(i as int + 1));
        }
        i = i + 1;
    }
    proof {
        assert(s@.take(n as int) =~= s@);
    }
    v
}

fn parse_quoted_at(v: &Vec<char>, start: usize) -> (r: Option<(String, usize)>)
    requires
        start <= v@.len(),
    ensures
        match r {
            Some(p) => start <= p.1 <= v@.len() && scan_quoted(v@.skip(start as int)) == Some(
                (p.0@, v@.skip(p.1 as int)),
            ),
            None => scan_quoted(v@.skip(start as int)) is None,
        },
{
    let n = v.len();
    let mut out = String::new();
    let mut i: usize = start;
    loop
        invariant
            start <= i <= n,
            n == v@.len(),
            scan_quoted(v@.skip(start as int)) == prepend_scan(
                out@,
                scan_quoted(v@.skip(i as int)),
            ),
        decreases n - i,
    {
        proof {
            let rest = v@.skip(i as int);
            if i < n {
                assert(rest.first() == v@[i as int]);
                assert(rest.drop_first() == v@.skip(i as int + 1));
                if i + 1 < n {
                    assert(rest[1] == v@[i as int + 1]);
                    assert(rest.skip(2) =~= v@.skip(i as int + 2));
                }
            }
        }
        if i >= n {
            return None;
        }
        let c = v[i];
        if c == '"' {
            if i + 1 < n && v[i + 1] == '"' {
                push_char(&mut out, '"');
                proof {
                    let rest = v@.skip(i as int);
                    assert(rest.len() >= 2 && rest[1] == '"');
                }
                i = i + 2;
            } else {
                proof {
                    let rest = v@.skip(i as int);
                    assert(!(rest.len() >= 2 && rest[1] == '"'));
                    assert(out@ + Seq::<char>::empty() =~= out@);
                }
                return Some((out, i + 1));
            }
        } else {
            push_char(&mut out, c);
            proof {
                let rest = v@.skip(i as int);
                assert(scan_quoted(rest) == prepend_scan(
                    seq![v@[i as int]],
                    scan_quoted(v@.skip(i as int + 1)),
                ));
                assert(forall|p: Seq<char>|
                    out@.drop_last() + (seq![v@[i as int]] + p) =~= out@ + p);
            }
            i = i + 1;
        }
    }
}

fn parse_unquoted_at(v: &Vec<char>, start: usize) -> (r: Option<(String, usize)>)
    requires
        start <= v@.len(),
    ensures
        match r {
            Some(p) => start <= p.1 <= v@.len() && scan_unquoted(v@.skip(start as int)) == Some(
                (p.0@, v@.skip(p.1 as int)),
            ),
            None => scan_unquoted(v@.skip(start as int)) is None,
        },
{
    let n = v.len();
    let mut out = String::new();
    let mut i: usize = start;
    loop
        invariant
            start <= i <= n,
            n == v@.len(),
            scan_unquoted(v@.skip(start as int)) == prepend_scan(
                out@,
                scan_unquoted(v@.skip(i as int)),
            ),
        decreases n - i,
    {
        proof {
            let rest = v@.skip(i as int);
            if i < n {
                assert(rest.first() == v@[i as int]);
                assert(rest.drop_first() == v@.skip(i as int + 1));
            }
            assert(out@ + Seq::<char>::empty() =~= out@);
        }
        if i >= n {
            return Some((out, i));
        }
        let c = v[i];
        if c == ',' || c == '\n' {
            return Some((out, i));
        }
        if c == '"' || c == '\r' {
            return None;
        }
        push_char(&mut out, c);
        proof {
            assert(forall|p: Seq<char>| out@.drop_last() + (seq![v@[i as int]] + p) =~= out@ + p);
        }
        i = i + 1;
    }
}

fn parse_field_at(v: &Vec<char>, start: usize) -> (r: Option<(String, usize)>)
    requires
        start <= v@.len(),
    ensures
        match r {
            Some(p) => start <= p.1 <= v@.len() && scan_field(v@.skip(start as int)) == Some(
                (p.0@, v@.skip(p.1 as int)),
            ),
            None => scan_field(v@.skip(start as int)) is None,
        },
{
    proof {
        let rest = v@.skip(start as int);
        if start < v@.len() {
            assert(rest.first() == v@[start as int]);
            assert(rest.drop_first() == v@.skip(start as int + 1));
        }
    }
    if start < v.len() && v[start] == '"' {
        parse_quoted_at(v, start + 1)
    } else {
        parse_unquoted_at(v, start)
    }
}

fn parse_row_at(v: &Vec<char>, start: usize) -> (r: Option<(ReportRow, usize)>)
    requires
        start <= v@.len(),
    ensures
        match r {
            Some(p) => start < p.1 <= v@.len() && scan_row(v@.skip(start as int)) == Some(
                (p.0@, v@.skip(p.1 as int)),
            ),
            None => scan_row(v@.skip(start as int)) is None,
        },
{
    let (name, j1) = match parse_field_at(v, start) {
        Some(p) => p,
        None => {
            return None;
        },
    };
    proof {
        let r1 = v@.skip(j1 as int);
        if j1 < v@.len() {
            assert(r1.first() == v@[j1 as int]);
            assert(r1.drop_first() == v@.skip(j1 as int + 1));
        }
    }
    if !(j1 < v.len() && v[j1] == ',') {
        return None;
    }
    let (activity, j2) = match parse_field_at(v, j1 + 1) {
        Some(p) => p,
        None => {
            return None;
        },
    };
    proof {
        let r2 = v@.skip(j2 as int);
        if j2 < v@.len() {
            assert(r2.first() == v@[j2 as int]);
            assert(r2.drop_first() == v@.skip(j2 as int + 1));
        }
    }
    if !(j2 < v.len() && v[j2] == '\n') {
        return None;
    }
    Some((ReportRow { name, last_activity: activity }, j2 + 1))
}

fn parse_rows_at(v: &Vec<char>, start: usize) -> (r: Option<Vec<ReportRow>>)
    requires
        start <= v@.len(),
    ensures
        match r {
            Some(rows) => scan_rows(v@.skip(start as int)) == Some(row_views(rows@)),
            None => scan_rows(v@.skip(start as int)) is None,
        },
{
    let n = v.len();
    let mut rows: Vec<ReportRow> = Vec::new();
    let mut i: usize = start;
    proof {
        assert(row_views(rows@) =~= Seq::<RowView>::empty());
    }
    loop
        invariant
            start <= i <= n,
            n == v@.len(),
            scan_rows(v@.skip(start as int)) == prepend_rows(
                row_views(rows@),
                scan_rows(v@.skip(i as int)),
            ),
        decreases n - i,
    {
        if i >= n {
            proof {
                assert(v@.skip(i as int).len() == 0);
                assert(row_views(rows@) + Seq::<RowView>::empty() =~= row_views(rows@));
            }
            return Some(rows);
        }
        let (row, j) = match parse_row_at(v, i) {
            Some(p) => p,
            None => {
                return None;
            },
        };
        let ghost prev = rows@;
        let ghost rowv = row@;
        rows.push(row);
        proof {
            assert(row_views(rows@) =~= row_views(prev).push(rowv));
            let si = v@.skip(i as int);
            let sj = v@.skip(j as int);
            assert(sj.len() < si.len());
            assert(scan_rows(si) == match scan_rows(sj) {
                Some(rs) => Some(seq![rowv] + rs),
                None => None::<Seq<RowView>>,
            });
            if scan_rows(sj) is Some {
                let rs = scan_rows(sj).unwrap();
                assert(row_views(prev) + (seq![rowv] + rs) =~= row_views(prev).push(rowv) + rs);
            }
        }
        i = j;
    }
}

/// Parses a report text.  Succeeds exactly on texts in the written
/// format — the fixed header line, then well-formed data rows — and
/// yields those rows in file order; says which of the two checks failed
/// otherwise.
pub fn parse_report(text: &str) -> (r: Result<Vec<ReportRow>, ReportError>)
    ensures
        match r {
            Ok(rows) => scan_report(text@) == Some(row_views(rows@)),
            Err(ReportError::MissingHeader) => !header_matches(text@),
            Err(ReportError::MalformedRows) => header_matches(text@) && scan_report(text@) is None,
        },
{
    let v = chars_of(text);
    let header = chars_of("Name,Last Activity\n");
    let hn = header.len();
    if v.len() < hn {
        return Err(ReportError::MissingHeader);
    }
    let mut j: usize = 0;
    while j < hn
        invariant
            0 <= j <= hn,
            hn == header_text().len(),
            header@ == header_text(),
            v@ == text@,
            v@.len() >= hn,
            forall|k: int| 0 <= k < j ==> v@[k] == header_text()[k],
        decreases hn - j,
    {
        if v[j] != header[j] {
            proof {
                assert(text@.take(hn as int)[j as int] != header_text()[j as int]);
            }
            return Err(ReportError::MissingHeader);
        }
        j = j + 1;
    }
    proof {
        assert(text@.take(hn as int) =~= header_text());
    }
    match parse_rows_at(&v, hn) {
        Some(rows) => Ok(rows),
        None => Err(ReportError::MalformedRows),
    }
}

proof fn lemma_scan_quoted_of_doubled(f: Seq<char>, rest: Seq<char>)
    requires
        rest.len() == 0 || rest[0] != '"',
    ensures
        scan_quoted(doubled(f) + seq!['"'] + rest) == Some((f, rest)),
    decreases f.len(),
{
    let s = doubled(f) + seq!['"'] + rest;
    if f.len() == 0 {
        assert(s =~= seq!['"'] + rest);
        assert(s.first() == '"');
        if s.len() >= 2 {
            assert(s[1] == rest[0]);
        }
        assert(s.drop_first() =~= rest);
        assert(f =~= Seq::<char>::empty());
    } else if f.first() == '"' {
        assert(doubled(f) =~= seq!['"', '"'] + doubled(f.drop_first()));
        assert(s.first() == '"' && s.len() >= 2 && s[1] == '"');
        assert(s.skip(2) =~= doubled(f.drop_first()) + seq!['"'] + rest);
        lemma_scan_quoted_of_doubled(f.drop_first(), rest);
        assert(seq!['"'] + f.drop_first() =~= f);
    } else {
        assert(doubled(f) =~= seq![f.first()] + doubled(f.drop_first()));
        assert(s.first() == f.first());
        assert(s.drop_first() =~= doubled(f.drop_first()) + seq!['"'] + rest);
        lemma_scan_quoted_of_doubled(f.drop_first(), rest);
        assert(seq![f.first()] + f.drop_first() =~= f);
    }
}

proof fn lemma_scan_unquoted_verbatim(f: Seq<char>, rest: Seq<char>)
    requires
        !needs_quoting(f),
        rest.len() == 0 || rest[0] == ',' || rest[0] == '\n',
    ensures
        scan_unquoted(f + rest) == Some((f, rest)),
    decreases f.len(),
{
    let s = f + rest;
    if f.len() == 0 {
        assert(s =~= rest);
        assert(f =~= Seq::<char>::empty());
    } else {
        assert(!is_special(f[0]));
        assert(s.first() == f.first());
        assert(s.drop_first() =~= f.drop_first() + rest);
        assert(!needs_quoting(f.drop_first())) by {
            if needs_quoting(f.drop_first()) {
                let i = choose|i: int|
                    0 <= i < f.drop_first().len() && is_special(f.drop_first()[i]);
                assert(is_special(f[i + 1]));
            }
        }
        lemma_scan_unquoted_verbatim(f.drop_first(), rest);
        assert(seq![f.first()] + f.drop_first() =~= f);
    }
}

proof fn lemma_scan_field_of_field_text(f: Seq<char>, rest: Seq<char>)
    requires
        rest.len() == 0 || rest[0] == ',' || rest[0] == '\n',
    ensures
        scan_field(field_text(f) + rest) == Some((f, rest)),
{
    let s = field_text(f) + rest;
    if needs_quoting(f) {
        assert(s =~= seq!['"'] + (doubled(f) + seq!['"'] + rest));
        assert(s.first() == '"');
        assert(s.drop_first() =~= doubled(f) + seq!['"'] + rest);
        lemma_scan_quoted_of_doubled(f, rest);
    } else {
        assert(s =~= f + rest);
        if f.len() > 0 {
            assert(!is_special(f[0]));
            assert(s.first() == f.first());
        }
        lemma_scan_unquoted_verbatim(f, rest);
    }
}

proof fn lemma_scan_row_of_row_text(name: Seq<char>, activity: Seq<char>, rest: Seq<char>)
    ensures
        scan_row(row_text(name, activity) + rest) == Some(
            (RowView { name, last_activity: activity }, rest),
        ),
{
    let s = row_text(name, activity) + rest;
    let rest1 = seq![','] + (field_text(activity) + (seq!['\n'] + rest));
    assert(s =~= field_text(name) + rest1);
    lemma_scan_field_of_field_text(name, rest1);
    assert(scan_field(s) == Some((name, rest1)));
    assert(rest1.first() == ',');
    assert(rest1.drop_first() =~= field_text(activity) + (seq!['\n'] + rest));
    lemma_scan_field_of_field_text(activity, seq!['\n'] + rest);
    let rest2 = seq!['\n'] + rest;
    assert(rest2.first() == '\n');
    assert(rest2.drop_first() =~= rest);
}

/// The fields a report row carries for an account.
pub open spec fn row_view_of(a: AccountView) -> RowView {
    RowView { name: a.name, last_activity: activity_field(a) }
}

proof fn lemma_scan_rows_of_rows_text(rows: Seq<AccountView>)
    ensures
        scan_rows(rows_text(rows)) == Some(rows.map_values(|a: AccountView| row_view_of(a))),
    decreases rows.len(),
{
    let s = rows_text(rows);
    let mapped = rows.map_values(|a: AccountView| row_view_of(a));
    if rows.len() == 0 {
        assert(mapped =~= Seq::<RowView>::empty());
    } else {
        let head = rows.first();
        let tail = rows.drop_first();
        let head_line = row_text(head.name, activity_field(head));
        assert(s == head_line + rows_text(tail));
        lemma_scan_row_of_row_text(head.name, activity_field(head), rows_text(tail));
        assert(scan_row(s) == Some((row_view_of(head), rows_text(tail))));
        assert(head_line.len() > 0) by {
            assert(head_line =~= (field_text(head.name) + seq![','] + field_text(
                activity_field(head),
            )) + seq!['\n']);
        }
        assert(rows_text(tail).len() < s.len());
        lemma_scan_rows_of_rows_text(tail);
        assert(seq![row_view_of(head)] + tail.map_values(|a: AccountView| row_view_of(a))
            =~= mapped);
    }
}

/// Law: a rendered report, read back, yields exactly one row per
/// account, in order, with the very fields that were written: the name
/// verbatim, and the timestamp text or the empty field where the account
/// had none.
pub proof fn lemma_report_round_trip(rows: Seq<AccountView>)
    ensures
        scan_report(report_text(rows)) is Some,
        scan_report(report_text(rows)).unwrap().len() == rows.len(),
        forall|i: int|
            0 <= i < rows.len() ==> scan_report(report_text(rows)).unwrap()[i] == row_view_of(
                rows[i],
            ),
{
    let s = report_text(rows);
    let hn = header_text().len() as int;
    assert(s.take(hn) =~= header_text());
    assert(header_matches(s));
    assert(s.skip(hn) =~= rows_text(rows));
    lemma_scan_rows_of_rows_text(rows);
    let mapped = rows.map_values(|a: AccountView| row_view_of(a));
    assert(scan_report(s) == Some(mapped));
    assert(forall|i: int| 0 <= i < rows.len() ==> mapped[i] == row_view_of(rows[i]));
}

} // verus!

