use vstd::prelude::*;

use crate::node::same_text;

verus! {

/// A row of fields, as sequences of characters.
pub open spec fn row_view(row: Vec<String>) -> Seq<Seq<char>> {
    row@.map_values(|f: String| f@)
}

/// A table of rows, as sequences of characters.
pub open spec fn table_view(rows: Seq<Vec<String>>) -> Seq<Seq<Seq<char>>> {
    rows.map_values(|r: Vec<String>| row_view(r))
}

/// A record: (field name, field value) pairs, in header order.
pub open spec fn record_view(rec: Vec<(String, String)>) -> Seq<(Seq<char>, Seq<char>)> {
    rec@.map_values(|p: (String, String)| (p.0@, p.1@))
}

/// A sequence of records, as sequences of characters.
pub open spec fn records_view(recs: Seq<Vec<(String, String)>>) -> Seq<
    Seq<(Seq<char>, Seq<char>)>,
> {
    recs.map_values(|r: Vec<(String, String)>| record_view(r))
}

/// The records that csv's reader yields for `text` (no header row, records of
/// any length), or `None` where it reports an error.
pub uninterp spec fn csv_records_of(text: Seq<char>) -> Option<Seq<Seq<Seq<char>>>>;

/// A character that forces quotes around the field that holds it.
pub open spec fn is_special(c: char, delimiter: char) -> bool {
    c == delimiter || c == '"' || c == '\n' || c == '\r'
}

pub open spec fn has_special(f: Seq<char>, delimiter: char) -> bool
    decreases f.len(),
{
    f.len() > 0 && (is_special(f.last(), delimiter) || has_special(f.drop_last(), delimiter))
}

/// `f` with each quote character doubled.
pub open spec fn doubled(f: Seq<char>) -> Seq<char>
    decreases f.len(),
{
    if f.len() == 0 {
        Seq::empty()
    } else {
        doubled(f.drop_last()) + if f.last() == '"' {
            seq!['"', '"']
        } else {
            seq![f.last()]
        }
    }
}

/// A field as written: quoted, with quotes doubled, where it holds a special character.
pub open spec fn csv_field(f: Seq<char>, delimiter: char) -> Seq<char> {
    if has_special(f, delimiter) {
        seq!['"'] + doubled(f) + seq!['"']
    } else {
        f
    }
}

/// The first `k` fields of `row` as written, separated by the delimiter.
pub open spec fn csv_fields(row: Seq<Seq<char>>, delimiter: char, k: nat) -> Seq<char>
    decreases k,
{
    if k == 0 || k > row.len() {
        Seq::empty()
    } else if k == 1 {
        csv_field(row[0], delimiter)
    } else {
        csv_fields(row, delimiter, (k - 1) as nat) + seq![delimiter] + csv_field(
            row[k - 1],
            delimiter,
        )
    }
}

/// A record as written, with its terminator; a record that would be written
/// as nothing (no field, or one empty field) is written as `""`.
pub open spec fn csv_line(row: Seq<Seq<char>>, delimiter: char) -> Seq<char> {
    if row.len() == 0 || (row.len() == 1 && row[0].len() == 0) {
        seq!['"', '"', '\n']
    } else {
        csv_fields(row, delimiter, row.len()) + seq!['\n']
    }
}

/// Rows as delimited text: each record as written, in order.
pub open spec fn csv_text(rows: Seq<Seq<Seq<char>>>, delimiter: char) -> Seq<char>
    decreases rows.len(),
{
    if rows.len() == 0 {
        Seq::empty()
    } else {
        csv_text(rows.drop_last(), delimiter) + csv_line(rows.last(), delimiter)
    }
}

/// Relies on csv::ReaderBuilder (has_headers(false), flexible(true)) and
/// Reader::records: the fields of every record of `text`, in order, or the
/// first error; the outcome depends on the text alone.
#[verifier::external_body]
fn read_records(text: &str) -> (r: Result<Vec<Vec<String>>, String>)
    ensures
        match r {
            Ok(rows) => csv_records_of(text@) == Some(table_view(rows@)),
            Err(_) => csv_records_of(text@) is None,
        },
{
    csv::ReaderBuilder::new().has_headers(false).flexible(true).from_reader(
        text.as_bytes(),
    ).records().map(
        |rec| rec.map(|r| r.iter().map(|f| f.to_string()).collect()).map_err(|e| e.to_string()),
    ).collect()
}

/// Relies on csv::WriterBuilder (an ASCII delimiter, flexible(true), the
/// default quote style `Necessary` and terminator `\n`), Writer::write_record
/// and Writer::into_inner, and on String::from_utf8 for the bytes written:
/// what was written is `csv_text` of the rows. Writing into a `Vec` cannot
/// fail, and with the fields UTF-8 and the delimiter, quote and terminator
/// ASCII, the bytes written are UTF-8.
#[verifier::external_body]
fn write_records(rows: &Vec<Vec<String>>, delimiter: u8) -> (r: Result<String, String>)
    requires
        delimiter < 128,
    ensures
        r is Ok,
        r->Ok_0@ == csv_text(table_view(rows@), delimiter as char),
{
    let mut writer = csv::WriterBuilder::new().delimiter(delimiter).flexible(true).from_writer(
        Vec::new(),
    );
    for row in rows {
        writer.write_record(row).map_err(|e| e.to_string())?;
    }
    let bytes = writer.into_inner().map_err(|e| e.to_string())?;
    String::from_utf8(bytes).map_err(|e| e.to_string())
}

/// The table that `parse` gives for the records read: with headers present
/// the header row is always row 0, empty where the text holds no record.
pub open spec fn parsed_table(records: Seq<Seq<Seq<char>>>, headers_present: bool) -> Seq<
    Seq<Seq<char>>,
> {
    if headers_present && records.len() == 0 {
        seq![Seq::empty()]
    } else {
        records
    }
}

/// Where `name` first stands among the names of `rec`; -1 where it does not.
pub open spec fn position(rec: Seq<(Seq<char>, Seq<char>)>, name: Seq<char>) -> int
    decreases rec.len(),
{
    if rec.len() == 0 {
        -1
    } else if rec[0].0 == name {
        0
    } else {
        let p = position(rec.drop_first(), name);
        if p < 0 {
            -1
        } else {
            p + 1
        }
    }
}

/// `rec` with `name` set to `value`: in its place where it is already there,
/// else at the end.
pub open spec fn with_field(rec: Seq<(Seq<char>, Seq<char>)>, name: Seq<char>, value: Seq<char>) -> Seq<
    (Seq<char>, Seq<char>),
> {
    let p = position(rec, name);
    if p < 0 {
        rec.push((name, value))
    } else {
        rec.update(p, (name, value))
    }
}

/// The record made of the first `k` fields of `row` under `headers`.
pub open spec fn record_prefix(headers: Seq<Seq<char>>, row: Seq<Seq<char>>, k: nat) -> Seq<
    (Seq<char>, Seq<char>),
>
    decreases k,
{
    if k == 0 {
        Seq::empty()
    } else {
        with_field(
            record_prefix(headers, row, (k - 1) as nat),
            headers[k - 1],
            row[k - 1],
        )
    }
}

/// The record that `row` makes under `headers`: fields are paired by
/// position, and a field beyond either row is left out. A name that repeats
/// keeps its first place and takes the last of its values.
pub open spec fn record_of(headers: Seq<Seq<char>>, row: Seq<Seq<char>>) -> Seq<
    (Seq<char>, Seq<char>),
> {
    let n = if headers.len() <= row.len() {
        headers.len()
    } else {
        row.len()
    };
    record_prefix(headers, row, n)
}

/// `position` is the first index that holds `name`.
proof fn lemma_position(rec: Seq<(Seq<char>, Seq<char>)>, name: Seq<char>, j: int)
    requires
        0 <= j <= rec.len(),
        forall|k: int| 0 <= k < j ==> (#[trigger] rec[k]).0 != name,
        j < rec.len() ==> rec[j].0 == name,
    ensures
        position(rec, name) == if j < rec.len() {
            j
        } else {
            -1
        },
    decreases rec.len(),
{
    if rec.len() > 0 && j > 0 {
        let rest = rec.drop_first();
        assert forall|k: int| 0 <= k < j - 1 implies (#[trigger] rest[k]).0 != name by {
            assert(rest[k] == rec[k + 1]);
        }
        if j - 1 < rest.len() {
            assert(rest[j - 1] == rec[j]);
        }
        lemma_position(rest, name, j - 1);
    }
}

/// One record per data row of `table`, whose row 0 holds the headers.
pub open spec fn records_of(table: Seq<Seq<Seq<char>>>) -> Seq<Seq<(Seq<char>, Seq<char>)>> {
    if table.len() == 0 {
        Seq::empty()
    } else {
        table.drop_first().map_values(|row: Seq<Seq<char>>| record_of(table[0], row))
    }
}

/// Why a transformation of delimited text failed.
#[derive(Debug, PartialEq)]
pub enum CodecError {
    /// The text could not be split into records.
    MalformedInput(String),
    /// The delimiter is not a single ASCII character.
    InvalidArgument(String),
}

/// Builds the table of `parse` from the records read.
pub fn table_from_records(records: Vec<Vec<String>>, headers_present: bool) -> (r: Vec<
    Vec<String>,
>)
    ensures
        table_view(r@) == parsed_table(table_view(records@), headers_present),
{
    if headers_present && records.len() == 0 {
        let header: Vec<String> = Vec::new();
        let mut r: Vec<Vec<String>> = Vec::new();
        r.push(header);
        assert(row_view(r@[0]) =~= Seq::<Seq<char>>::empty());
        assert(table_view(r@) =~= seq![Seq::<Seq<char>>::empty()]);
        r
    } else {
        records
    }
}

/// Splits delimited text into rows.
pub fn parse(text: &str, headers_present: bool) -> (r: Result<Vec<Vec<String>>, CodecError>)
    ensures
        match r {
            Ok(rows) => csv_records_of(text@) is Some && table_view(rows@) == parsed_table(
                csv_records_of(text@)->0,
                headers_present,
            ),
            Err(e) => csv_records_of(text@) is None && e is MalformedInput,
        },
{
    match read_records(text) {
        Ok(records) => Ok(table_from_records(records, headers_present)),
        Err(e) => Err(CodecError::MalformedInput(e)),
    }
}

/// Renders rows as delimited text, quoting a field where it holds the
/// delimiter, a quote or a line break.
pub fn format(rows: &Vec<Vec<String>>, delimiter: u8) -> (r: Result<String, CodecError>)
    ensures
        delimiter >= 128 <==> r matches Err(CodecError::InvalidArgument(_)),
        delimiter < 128 ==> r is Ok && r->Ok_0@ == csv_text(table_view(rows@), delimiter as char),
{
    if delimiter >= 128 {
        return Err(
            CodecError::InvalidArgument(String::from_str("Delimiter must be a single ASCII character")),
        );
    }
    match write_records(rows, delimiter) {
        Ok(t) => Ok(t),
        Err(e) => Err(CodecError::InvalidArgument(e)),
    }
}

/// Sets `name` to `value` in `rec`, in its place where it is already there.
fn set_field(rec: &mut Vec<(String, String)>, name: String, value: String)
    ensures
        record_view(*final(rec)) == with_field(record_view(*old(rec)), name@, value@),
{
    let ghost before = record_view(*rec);
    let mut j: usize = 0;
    while j < rec.len()
        invariant
            before == record_view(*old(rec)),
            record_view(*rec) == before,
            j <= rec@.len(),
            forall|k: int| 0 <= k < j ==> (#[trigger] before[k]).0 != name@,
        decreases rec@.len() - j,
    {
        assert(before[j as int].0 == rec@[j as int].0@);
        if same_text(rec[j].0.as_str(), name.as_str()) {
            proof {
                assert(before[j as int].0 == name@);
                lemma_position(before, name@, j as int);
            }
            let ghost pair = (name@, value@);
            rec.set(j, (name, value));
            assert(record_view(*rec) =~= before.update(j as int, pair));
            return;
        }
        j = j + 1;
    }
    proof {
        lemma_position(before, name@, j as int);
    }
    let ghost pair = (name@, value@);
    rec.push((name, value));
    assert(record_view(*rec) =~= before.push(pair));
}

/// The record of one data row under `headers`.
pub fn record_from_row(headers: &Vec<String>, row: &Vec<String>) -> (r: Vec<(String, String)>)
    ensures
        record_view(r) == record_of(row_view(*headers), row_view(*row)),
{
    let n = if headers.len() <= row.len() {
        headers.len()
    } else {
        row.len()
    };
    let mut rec: Vec<(String, String)> = Vec::new();
    let mut i: usize = 0;
    assert(record_view(rec) =~= Seq::<(Seq<char>, Seq<char>)>::empty());
    while i < n
        invariant
            n <= headers@.len(),
            n <= row@.len(),
            n == headers@.len() || n == row@.len(),
            i <= n,
            record_view(rec) == record_prefix(row_view(*headers), row_view(*row), i as nat),
        decreases n - i,
    {
        set_field(&mut rec, headers[i].clone(), row[i].clone());
        i = i + 1;
    }
    rec
}

/// Pairs each data row of `table` (after row 0, the headers) with the headers.
pub fn records_from_table(table: &Vec<Vec<String>>) -> (r: Vec<Vec<(String, String)>>)
    ensures
        records_view(r@) == records_of(table_view(table@)),
{
    let mut recs: Vec<Vec<(String, String)>> = Vec::new();
    if table.len() == 0 {
        assert(records_view(recs@) =~= records_of(table_view(table@)));
        return recs;
    }
    let headers = &table[0];
    let mut i: usize = 1;
    while i < table.len()
        invariant
            1 <= i <= table@.len(),
            *headers == table@[0],
            records_view(recs@) =~= records_of(table_view(table@)).take(i - 1),
        decreases table@.len() - i,
    {
        let rec = record_from_row(headers, &table[i]);
        let ghost prev = records_view(recs@);
        let ghost full = records_of(table_view(table@));
        assert(table_view(table@)[i as int] == row_view(table@[i as int]));
        assert(table_view(table@)[0] == row_view(table@[0]));
        assert(full[i - 1] == record_of(row_view(table@[0]), row_view(table@[i as int])));
        recs.push(rec);
        assert(records_view(recs@) =~= prev.push(record_view(rec)));
        assert(full.take(i as int) =~= full.take(i - 1).push(full[i - 1]));
        i = i + 1;
    }
    assert(records_of(table_view(table@)).take(table@.len() - 1) =~= records_of(
        table_view(table@),
    ));
    recs
}

/// Converts delimited text whose first record holds the headers into records.
pub fn to_records(text: &str) -> (r: Result<Vec<Vec<(String, String)>>, CodecError>)
    ensures
        match r {
            Ok(recs) => csv_records_of(text@) is Some && records_view(recs@) == records_of(
                csv_records_of(text@)->0,
            ),
            Err(e) => csv_records_of(text@) is None && e is MalformedInput,
        },
{
    match read_records(text) {
        Ok(table) => Ok(records_from_table(&table)),
        Err(e) => Err(CodecError::MalformedInput(e)),
    }
}

} // verus!
