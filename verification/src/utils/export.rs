//! CSV export of container records.

use crate::containers::container_info::ContainerInfo;
use crate::utils::format::{format_bytes, format_bytes_text, one_decimal, push_one_decimal};
use crate::text::push_char;
use vstd::prelude::*;
use crate::utils::csv_text::{csv_text_record, lemma_encode_concat, lemma_record_encode};
use vstd::utf8::{decode_utf8, encode_utf8, encode_utf8_decode_utf8, encode_utf8_valid_utf8, valid_utf8};

verus! {

/// Exports container records.
pub struct Exporter;

/// Why an export failed.
#[derive(Clone, Copy, Debug, PartialEq, Eq, Structural)]
pub enum ExportError {
    /// The CSV writer refused a record.
    Csv,
}

/// A `csv::Writer` of the default configuration that writes into a byte
/// vector, held whole: the writer's type is bound by `std::io::Write` and
/// is kept opaque here. What it holds is named by `csv_output` and
/// `csv_field_count`. A writer that refused a record is not kept (see
/// `csv_write_record`), so every `CsvBuffer` stands between records.
#[verifier::external_body]
pub struct CsvBuffer {
    writer: csv::Writer<Vec<u8>>,
}

/// The bytes that a CSV writer over a byte vector has taken so far, buffered
/// or not.
pub uninterp spec fn csv_output(w: CsvBuffer) -> Seq<u8>;

/// The number of fields of the first record that a CSV writer has written,
/// which every later record must match.
pub uninterp spec fn csv_field_count(w: CsvBuffer) -> Option<nat>;

/// What `String::from_utf8_lossy` makes of the given bytes.
pub uninterp spec fn utf8_lossy(bytes: Seq<u8>) -> Seq<char>;

/// The bytes that force a field into quotes: comma, double quote, carriage
/// return and line feed.
pub open spec fn csv_special_byte(b: u8) -> bool {
    b == 44u8 || b == 34u8 || b == 13u8 || b == 10u8
}

/// Whether a field has to be quoted.
pub open spec fn csv_needs_quotes(f: Seq<u8>) -> bool {
    exists|i: int| 0 <= i < f.len() && csv_special_byte(#[trigger] f[i])
}

/// A field with every double quote doubled.
pub open spec fn csv_double_quotes(f: Seq<u8>) -> Seq<u8>
    decreases f.len(),
{
    if f.len() == 0 {
        Seq::empty()
    } else {
        csv_double_quotes(f.drop_last()) + if f.last() == 34u8 {
            seq![34u8, 34u8]
        } else {
            seq![f.last()]
        }
    }
}

/// A field as written: as it is, or in double quotes with its quotes
/// doubled when it holds a special byte.
pub open spec fn csv_field(f: Seq<u8>) -> Seq<u8> {
    if csv_needs_quotes(f) {
        seq![34u8] + csv_double_quotes(f) + seq![34u8]
    } else {
        f
    }
}

/// The fields as written, separated by commas.
pub open spec fn csv_fields(fs: Seq<Seq<u8>>) -> Seq<u8>
    decreases fs.len(),
{
    if fs.len() == 0 {
        Seq::empty()
    } else if fs.len() == 1 {
        csv_field(fs[0])
    } else {
        csv_fields(fs.drop_last()) + seq![44u8] + csv_field(fs.last())
    }
}

/// A record as a CSV writer of the default configuration writes it: its
/// fields separated by commas, `""` when that gives nothing, then a line
/// feed.
pub open spec fn csv_record(fs: Seq<Seq<u8>>) -> Seq<u8> {
    (if csv_fields(fs).len() == 0 {
        seq![34u8, 34u8]
    } else {
        csv_fields(fs)
    }) + seq![10u8]
}

/// The UTF-8 bytes of each of a record's fields.
pub open spec fn field_bytes(fields: Seq<String>) -> Seq<Seq<u8>> {
    fields.map_values(|f: String| encode_utf8(f@))
}

/// The UTF-8 bytes of each of a record's fields.
pub open spec fn utf8_fields(fields: Seq<Seq<char>>) -> Seq<Seq<u8>> {
    fields.map_values(|f: Seq<char>| encode_utf8(f))
}

/// `csv::Writer::from_writer(Vec::new())`: a writer with the default
/// configuration (comma, double quotes doubled, quoting where needed, line
/// feed ending, equal field counts) over an empty byte vector; it holds no
/// bytes and has written no record.
#[verifier::external_body]
fn csv_writer_new() -> (w: CsvBuffer)
    ensures
        csv_output(w) == Seq::<u8>::empty(),
        csv_field_count(w) is None,
{
    CsvBuffer { writer: csv::Writer::from_writer(Vec::new()) }
}

/// `csv::Writer::write_record` with the given strings as fields, on a
/// writer between records. The writer comes back when the call returned
/// `Ok`; after an `Err` it is dropped, since the fields it wrote stay in
/// it. By the writer's source the call fails exactly when the number of
/// fields differs from that of the first record (writes into a byte vector
/// do not fail); on success it has added the record's bytes and keeps the
/// first record's field count.
#[verifier::external_body]
fn csv_write_record(w: CsvBuffer, record: &Vec<String>) -> (r: Option<CsvBuffer>)
    ensures
        (match csv_field_count(w) {
            None => true,
            Some(n) => n == record@.len(),
        }) <==> r is Some,
        r matches Some(w2) ==> csv_output(w2) == csv_output(w) + csv_record(field_bytes(record@)),
        r matches Some(w2) ==> csv_field_count(w2) == Some(
            match csv_field_count(w) {
                None => record@.len(),
                Some(n) => n,
            },
        ),
{
    let mut w = w;
    match w.writer.write_record(record) {
        Ok(()) => Some(w),
        Err(_) => None,
    }
}

/// `csv::Writer::into_inner`: flushes the writer and hands back its byte
/// vector. By the writer's source it fails only when flushing the inner
/// writer fails, which a byte vector never does.
#[verifier::external_body]
fn csv_into_bytes(w: CsvBuffer) -> (r: Option<Vec<u8>>)
    ensures
        r is Some,
        r matches Some(v) ==> v@ == csv_output(w),
{
    w.writer.into_inner().ok()
}

/// `String::from_utf8_lossy` turned into a `String`: the bytes decoded, with
/// invalid sequences replaced. Valid UTF-8 is decoded as it is.
#[verifier::external_body]
fn string_from_utf8_lossy(bytes: &Vec<u8>) -> (s: String)
    ensures
        s@ == utf8_lossy(bytes@),
        valid_utf8(bytes@) ==> s@ == decode_utf8(bytes@),
{
    String::from_utf8_lossy(bytes).to_string()
}

/// The header record of the CSV export.
pub open spec fn csv_header() -> Seq<Seq<char>> {
    seq!["ID"@, "Name"@, "Image"@, "Status"@, "CPU %"@, "Memory"@]
}

/// The CSV record of one container: short id, name, image, status, CPU
/// percentage with one decimal, and memory use.
pub open spec fn csv_row(c: ContainerInfo) -> Seq<Seq<char>> {
    seq![
        c.short_id@,
        c.name@,
        c.image@,
        c.status.name(),
        one_decimal(c.cpu_percent_tenths as nat) + "%"@,
        format_bytes_text(c.memory_usage),
    ]
}

/// The bytes of the CSV export of `cs`: the header, then one record per
/// container in order.
pub open spec fn csv_bytes(cs: Seq<ContainerInfo>) -> Seq<u8>
    decreases cs.len(),
{
    if cs.len() == 0 {
        csv_record(utf8_fields(csv_header()))
    } else {
        csv_bytes(cs.drop_last()) + csv_record(utf8_fields(csv_row(cs.last())))
    }
}

/// The text of the CSV export of `cs`: the header record, then one record
/// per container in order.
pub open spec fn csv_text(cs: Seq<ContainerInfo>) -> Seq<char>
    decreases cs.len(),
{
    if cs.len() == 0 {
        csv_text_record(csv_header())
    } else {
        csv_text(cs.drop_last()) + csv_text_record(csv_row(cs.last()))
    }
}

/// The CSV export of no containers is the header record alone, and adding a
/// container to the list appends its record: its short id, name, image,
/// status, CPU percentage with one decimal and a `%`, and memory use.
pub proof fn lemma_csv_text_records(cs: Seq<ContainerInfo>, c: ContainerInfo)
    ensures
        csv_text(Seq::empty()) == csv_text_record(
            seq!["ID"@, "Name"@, "Image"@, "Status"@, "CPU %"@, "Memory"@],
        ),
        csv_text(cs.push(c)) == csv_text(cs) + csv_text_record(
            seq![
                c.short_id@,
                c.name@,
                c.image@,
                c.status.name(),
                one_decimal(c.cpu_percent_tenths as nat) + "%"@,
                format_bytes_text(c.memory_usage),
            ],
        ),
{
    assert(cs.push(c).drop_last() =~= cs);
}

/// The bytes of the export are the UTF-8 encoding of its text.
pub proof fn lemma_csv_bytes_encode(cs: Seq<ContainerInfo>)
    ensures
        csv_bytes(cs) == encode_utf8(csv_text(cs)),
    decreases cs.len(),
{
    if cs.len() == 0 {
        lemma_record_encode(csv_header());
    } else {
        lemma_csv_bytes_encode(cs.drop_last());
        lemma_record_encode(csv_row(cs.last()));
        lemma_encode_concat(csv_text(cs.drop_last()), csv_text_record(csv_row(cs.last())));
    }
}

impl Exporter {
    fn header_record() -> (r: Vec<String>)
        ensures
            field_bytes(r@) == utf8_fields(csv_header()),
            r@.len() == 6,
    {
        let mut r: Vec<String> = Vec::new();
        r.push(String::from_str("ID"));
        r.push(String::from_str("Name"));
        r.push(String::from_str("Image"));
        r.push(String::from_str("Status"));
        r.push(String::from_str("CPU %"));
        r.push(String::from_str("Memory"));
        assert(field_bytes(r@) =~= utf8_fields(csv_header()));
        r
    }

    fn row_record(c: &ContainerInfo) -> (r: Vec<String>)
        ensures
            field_bytes(r@) == utf8_fields(csv_row(*c)),
            r@.len() == 6,
    {
        let mut cpu = String::new();
        push_one_decimal(&mut cpu, c.cpu_percent_tenths);
        push_char(&mut cpu, '%');
        let mut r: Vec<String> = Vec::new();
        r.push(c.short_id.clone());
        r.push(c.name.clone());
        r.push(c.image.clone());
        r.push(String::from_str(c.status.as_str()));
        r.push(cpu);
        r.push(format_bytes(c.memory_usage));
        assert(r@[4]@ =~= one_decimal(c.cpu_percent_tenths as nat) + "%"@) by {
            reveal_strlit("%");
        }
        assert(field_bytes(r@) =~= utf8_fields(csv_row(*c)));
        r
    }

    /// The containers as CSV: a header record, then one record per container
    /// with its short id, name, image, status, CPU percentage and memory use;
    /// fields holding a comma, a double quote or a line break are quoted,
    /// with their double quotes doubled.
    pub fn to_csv(containers: &[ContainerInfo]) -> (r: Result<String, ExportError>)
        ensures
            r matches Ok(s) && s@ == csv_text(containers@),
    {
        let header = Exporter::header_record();
        let mut w = match csv_write_record(csv_writer_new(), &header) {
            Some(w) => w,
            None => {
                return Err(ExportError::Csv);
            },
        };
        let n = containers.len();
        let mut i: usize = 0;
        while i < n
            invariant
                n == containers@.len(),
                i <= n,
                csv_field_count(w) == Some(6nat),
                csv_output(w) == csv_bytes(containers@.take(i as int)),
            decreases n - i,
        {
            let row = Exporter::row_record(&containers[i]);
            w = match csv_write_record(w, &row) {
                Some(w2) => w2,
                None => {
                    return Err(ExportError::Csv);
                },
            };
            assert(containers@.take(i + 1).drop_last() =~= containers@.take(i as int));
            i = i + 1;
        }
        assert(containers@.take(n as int) =~= containers@);
        proof {
            lemma_csv_bytes_encode(containers@);
            encode_utf8_valid_utf8(csv_text(containers@));
            encode_utf8_decode_utf8(csv_text(containers@));
        }
        match csv_into_bytes(w) {
            Some(bytes) => Ok(string_from_utf8_lossy(&bytes)),
            None => Err(ExportError::Csv),
        }
    }
}

} // verus!
