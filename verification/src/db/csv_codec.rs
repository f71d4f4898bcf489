//! How single CSV fields are written and read back: optional texts as JSON
//! scalars, UUIDs, integers; plus the CSV and SHA-256 codecs themselves.
use vstd::prelude::*;

use crate::error::{Result, WorldflowError};
use crate::ids::{hex_digit, opt_uuid_text, parse_uuid_text, uuid_parse_result, uuid_text, Id, TextResult};
use crate::text::{
    chars_eq_str, chars_of, int_failure_text, int_text, int_text_value, is_i64_text, is_ws, parse_i64_result, parse_i64_str,
    push_char, push_str, trim, trim_chars, IntParseFailure,
};

verus! {

broadcast use vstd::string::group_string_axioms;

// ─────────────────────────────── JSON scalars ───────────────────────────────

/// How `serde_json` writes one character inside a JSON string: `"` and `\`
/// and the control characters are escaped, everything else is written as is.
pub open spec fn json_escape(c: char) -> Seq<char> {
    if c == '"' {
        seq!['\\', '"']
    } else if c == '\\' {
        seq!['\\', '\\']
    } else if c == '\u{8}' {
        seq!['\\', 'b']
    } else if c == '\t' {
        seq!['\\', 't']
    } else if c == '\n' {
        seq!['\\', 'n']
    } else if c == '\u{c}' {
        seq!['\\', 'f']
    } else if c == '\r' {
        seq!['\\', 'r']
    } else if (c as u32) < 0x20 {
        seq!['\\', 'u', '0', '0', hex_digit((c as u32 / 16) as nat), hex_digit((c as u32 % 16) as nat)]
    } else {
        seq![c]
    }
}

/// The escaped characters of a text, in order.
pub open spec fn json_escape_all(s: Seq<char>) -> Seq<char>
    decreases s.len(),
{
    if s.len() == 0 {
        Seq::empty()
    } else {
        json_escape_all(s.drop_last()) + json_escape(s.last())
    }
}

/// The JSON text of an optional string: `null`, or the string in quotes.
pub open spec fn json_opt_text(v: Option<Seq<char>>) -> Seq<char> {
    match v {
        None => "null"@,
        Some(s) => seq!['"'] + json_escape_all(s) + seq!['"'],
    }
}

/// The text of an optional `String`.
pub open spec fn opt_view(v: Option<String>) -> Option<Seq<char>> {
    match v {
        Some(s) => Some(s@),
        None => None,
    }
}

/// `serde_json::to_string` of an `Option<String>`. Writing into memory
/// cannot fail for this type, and the text is `null` or the string quoted
/// with the escapes of `serde_json`'s `ESCAPE` table.
#[verifier::external_body]
fn json_encode_opt_string(v: &Option<String>) -> (r: TextResult<String>)
    ensures
        r is Ok,
        r matches Ok(t) ==> t@ == json_opt_text(opt_view(*v)),
{
    match serde_json::to_string(v) {
        Ok(t) => Ok(t),
        Err(e) => Err(e.to_string()),
    }
}

/// What `serde_json::from_str::<Option<String>>` gives for a text: the value,
/// or `None` when the text is not valid JSON for it.
pub uninterp spec fn json_opt_parse(s: Seq<char>) -> Option<Option<Seq<char>>>;

/// `serde_json::from_str::<Option<String>>`. The result is a function of the
/// text; what `serde_json::to_string` writes for an `Option<String>` reads
/// back as the same value (the parser decodes every escape the writer emits).
/// On failure the error's message is returned.
#[verifier::external_body]
fn json_decode_opt_string(s: &[char]) -> (r: TextResult<Option<String>>)
    ensures
        r is Ok <==> json_opt_parse(s@) is Some,
        r matches Ok(v) ==> json_opt_parse(s@) == Some(opt_view(v)),
        forall|x: Option<Seq<char>>| s@ == json_opt_text(x) ==> (r is Ok && opt_view(r->Ok_0) == x),
{
    let text: String = s.iter().collect();
    match serde_json::from_str::<Option<String>>(&text) {
        Ok(v) => Ok(v),
        Err(e) => Err(e.to_string()),
    }
}

/// The CSV cell of an optional text: its JSON text (`null` for `None`).
pub fn encode_opt_str(v: Option<String>) -> (r: Result<String>)
    ensures
        r matches Ok(t) && t@ == json_opt_text(opt_view(v)),
{
    match json_encode_opt_string(&v) {
        Ok(t) => Ok(t),
        Err(m) => Err(WorldflowError::Serialization(m)),
    }
}

/// What reading an optional-text cell gives: a cell that, trimmed, is
/// `null` or starts with `"` is JSON; otherwise an empty cell is `None`
/// (cells written before the JSON encoding) and any other text is itself.
pub open spec fn opt_str_spec(s: Seq<char>) -> Option<Option<Seq<char>>> {
    let t = trim(s);
    if t == "null"@ || (t.len() > 0 && t[0] == '"') {
        json_opt_parse(t)
    } else if s.len() == 0 {
        Some(None)
    } else {
        Some(Some(s))
    }
}

/// Reads an optional-text cell; JSON that does not decode is refused with
/// the decoder's message.
pub fn opt_str(s: &str) -> (r: Result<Option<String>>)
    ensures
        r is Ok <==> opt_str_spec(s@) is Some,
        r matches Ok(v) ==> opt_str_spec(s@) == Some(opt_view(v)),
        r matches Err(e) ==> e is Serialization,
        forall|x: Option<Seq<char>>| s@ == json_opt_text(x) ==> (r is Ok && opt_view(r->Ok_0) == x),
{
    let cs = chars_of(s);
    let trimmed = trim_chars(cs.as_slice());
    proof {
        reveal_strlit("null");
        assert forall|x: Option<Seq<char>>| s@ == json_opt_text(x) implies trimmed@ == s@ && (
        trimmed@ == "null"@ || (trimmed@.len() > 0 && trimmed@[0] == '"')) by {
            lemma_json_text_ends(x);
            crate::text::lemma_trim_bounds(s@, 0, s@.len() as int);
            assert(s@.subrange(0, s@.len() as int) =~= s@);
        }
    }
    if chars_eq_str(trimmed.as_slice(), "null") || (trimmed.len() > 0 && trimmed[0] == '"') {
        return match json_decode_opt_string(trimmed.as_slice()) {
            Ok(v) => Ok(v),
            Err(m) => Err(WorldflowError::Serialization(m)),
        };
    }
    if cs.len() == 0 {
        Ok(None)
    } else {
        Ok(Some(String::from_str(s)))
    }
}

proof fn lemma_json_text_ends(v: Option<Seq<char>>)
    ensures
        json_opt_text(v).len() > 0,
        !is_ws(json_opt_text(v)[0]),
        !is_ws(json_opt_text(v)[json_opt_text(v).len() - 1]),
        v is None ==> json_opt_text(v) == "null"@,
        v is Some ==> json_opt_text(v)[0] == '"',
{
    reveal_strlit("null");
}

/// A cell written by `encode_opt_str` reads back as the same optional text.
pub proof fn lemma_opt_str_roundtrip(v: Option<Seq<char>>)
    ensures
        opt_str_spec(json_opt_text(v)) == Some(v) <== json_opt_parse(json_opt_text(v)) == Some(v),
        opt_str_spec(json_opt_text(v)) == json_opt_parse(json_opt_text(v)),
{
    let t = json_opt_text(v);
    lemma_json_text_ends(v);
    crate::text::lemma_trim_bounds(t, 0, t.len() as int);
    assert(t.subrange(0, t.len() as int) =~= t);
}

// ─────────────────────────────── ids and numbers ───────────────────────────────

/// What reading a UUID cell gives.
pub open spec fn uuid_cell(s: Seq<char>) -> Option<Id> {
    uuid_parse_result(s)
}

/// Reads a UUID cell; a text that is not a UUID is refused.
pub fn parse_uuid(s: &str) -> (r: Result<Id>)
    ensures
        r is Ok <==> uuid_cell(s@) is Some,
        r matches Ok(v) ==> uuid_cell(s@) == Some(v),
        r matches Err(e) ==> e matches WorldflowError::InvalidInput(m) && exists|detail: Seq<char>|
            m@ == "invalid UUID '"@ + s@ + "': "@ + detail,
        forall|x: Id| s@ == uuid_text(x) ==> r == Ok::<Id, WorldflowError>(x),
{
    match parse_uuid_text(s) {
        Ok(v) => Ok(v),
        Err(detail) => {
            let mut m = String::from_str("invalid UUID '");
            push_str(&mut m, s);
            push_str(&mut m, "': ");
            push_str(&mut m, detail.as_str());
            Err(WorldflowError::InvalidInput(m))
        },
    }
}

/// What reading an optional UUID cell gives: empty is `None`.
pub open spec fn opt_uuid_cell(s: Seq<char>) -> Option<Option<Id>> {
    if s.len() == 0 {
        Some(None)
    } else {
        match uuid_cell(s) {
            Some(v) => Some(Some(v)),
            None => None,
        }
    }
}

/// Reads an optional UUID cell: empty is `None`, anything else must be a UUID.
pub fn parse_opt_uuid(s: &str) -> (r: Result<Option<Id>>)
    ensures
        r is Ok <==> opt_uuid_cell(s@) is Some,
        r matches Ok(v) ==> opt_uuid_cell(s@) == Some(v),
        r matches Err(e) ==> e is InvalidInput,
        forall|x: Option<Id>| s@ == opt_uuid_text(x) ==> (r is Ok && r->Ok_0 == x),
{
    proof {
        assert forall|x: Option<Id>| s@ == opt_uuid_text(x) && x is Some implies s@.len() > 0 by {
            crate::ids::lemma_uuid_text_len(x->0);
        }
    }
    if s.is_empty() {
        return Ok(None);
    }
    let v = parse_uuid(s)?;
    Ok(Some(v))
}

/// Reads an integer cell as `str::parse::<i64>` does; a failure names the
/// text and the reason.
pub fn parse_i64(s: &str) -> (r: Result<i64>)
    ensures
        r matches Ok(v) ==> parse_i64_result(s@) == Ok::<i64, IntParseFailure>(v),
        r matches Err(e) ==> exists|k: IntParseFailure|
            parse_i64_result(s@) == Err::<i64, IntParseFailure>(k) && e == WorldflowError::InvalidInput(
                e->InvalidInput_0,
            ) && e->InvalidInput_0@ == "invalid number '"@ + s@ + "': "@ + int_failure_text(k),
        r is Ok <==> parse_i64_result(s@) is Ok,
        r is Ok <==> is_i64_text(s@),
        r matches Ok(v) ==> v == int_text_value(s@),
        forall|n: i64| s@ == int_text(n as int) ==> (r is Ok && r->Ok_0 == n),
{
    proof {
        crate::text::lemma_parse_i64_exact(s@);
        assert forall|n: i64| s@ == int_text(n as int) implies parse_i64_result(s@) == Ok::<
            i64,
            IntParseFailure,
        >(n) by {
            crate::text::lemma_parse_int_text(n);
        }
    }
    match parse_i64_str(s) {
        Ok(v) => Ok(v),
        Err(k) => {
            let mut m = String::from_str("invalid number '");
            push_str(&mut m, s);
            push_str(&mut m, "': ");
            push_str(&mut m, k.message());
            assert(m@ =~= "invalid number '"@ + s@ + "': "@ + int_failure_text(k));
            Err(WorldflowError::InvalidInput(m))
        },
    }
}

// ─────────────────────────────── digests ───────────────────────────────

/// What SHA-256 gives for a byte string.
pub uninterp spec fn sha256_of(bytes: Seq<u8>) -> Seq<u8>;

/// SHA-256 digest of `bytes` (`sha2::Sha256::digest`), 32 bytes long.
#[verifier::external_body]
fn sha256(bytes: &[u8]) -> (r: Vec<u8>)
    ensures
        r@ == sha256_of(bytes@),
        r@.len() == 32,
{
    <sha2::Sha256 as sha2::Digest>::digest(bytes).to_vec()
}

/// Lowercase hexadecimal text of a byte string, two digits per byte.
pub open spec fn hex_text(bytes: Seq<u8>) -> Seq<char>
    decreases bytes.len(),
{
    if bytes.len() == 0 {
        Seq::empty()
    } else {
        hex_text(bytes.drop_last()) + seq![
            hex_digit((bytes.last() / 16) as nat),
            hex_digit((bytes.last() % 16) as nat),
        ]
    }
}

fn hex_char(d: u8) -> (c: char)
    requires
        d < 16,
    ensures
        c == hex_digit(d as nat),
{
    if d < 10 {
        (d + 48) as char
    } else {
        (d + 87) as char
    }
}

/// Lowercase hexadecimal text of a byte string.
pub fn hex_string(bytes: &[u8]) -> (r: String)
    ensures
        r@ == hex_text(bytes@),
{
    let mut out = String::new();
    let mut i: usize = 0;
    while i < bytes.len()
        invariant
            0 <= i <= bytes@.len(),
            out@ == hex_text(bytes@.subrange(0, i as int)),
        decreases bytes@.len() - i,
    {
        let b = bytes[i];
        push_char(&mut out, hex_char(b / 16));
        push_char(&mut out, hex_char(b % 16));
        let ghost p = bytes@.subrange(0, i + 1);
        assert(p.drop_last() =~= bytes@.subrange(0, i as int));
        assert(out@ =~= hex_text(p));
        i = i + 1;
    }
    assert(bytes@.subrange(0, bytes@.len() as int) =~= bytes@);
    out
}

/// Lowercase hexadecimal SHA-256 of the UTF-8 bytes of a text.
pub fn sha256_hex(content: &String) -> (r: String)
    ensures
        r@ == hex_text(sha256_of(vstd::utf8::encode_utf8(content@))),
{
    let digest = sha256(content.as_str().as_bytes());
    hex_string(digest.as_slice())
}

// ─────────────────────────────── CSV codec ───────────────────────────────

/// The texts of a list of records.
pub open spec fn records_view(records: Seq<Vec<String>>) -> Seq<Seq<Seq<char>>> {
    records.map_values(|r: Vec<String>| r@.map_values(|f: String| f@))
}

/// Whether `csv::Writer` (default settings) quotes a field: it holds a
/// comma, a double quote, a carriage return or a line feed.
pub open spec fn csv_needs_quotes(f: Seq<char>) -> bool {
    exists|i: int| 0 <= i < f.len() && (f[i] == ',' || f[i] == '"' || f[i] == '\r' || f[i] == '\n')
}

/// The field with every double quote doubled.
pub open spec fn csv_double_quotes(f: Seq<char>) -> Seq<char>
    decreases f.len(),
{
    if f.len() == 0 {
        Seq::empty()
    } else {
        csv_double_quotes(f.drop_last()) + (if f.last() == '"' {
            seq!['"', '"']
        } else {
            seq![f.last()]
        })
    }
}

/// A field as written: in quotes, inner quotes doubled, when it needs
/// quoting; as it is otherwise.
pub open spec fn csv_field_text(f: Seq<char>) -> Seq<char> {
    if csv_needs_quotes(f) {
        seq!['"'] + csv_double_quotes(f) + seq!['"']
    } else {
        f
    }
}

/// The fields of a record as written, separated by commas.
pub open spec fn csv_joined_fields(r: Seq<Seq<char>>) -> Seq<char>
    decreases r.len(),
{
    if r.len() == 0 {
        Seq::empty()
    } else if r.len() == 1 {
        csv_field_text(r[0])
    } else {
        csv_joined_fields(r.drop_last()) + seq![','] + csv_field_text(r.last())
    }
}

/// A record as written, ended by a line feed; a record that would be
/// written as nothing (no fields, or one empty field) is written as `""`.
pub open spec fn csv_record_text(r: Seq<Seq<char>>) -> Seq<char> {
    (if csv_joined_fields(r).len() == 0 {
        seq!['"', '"']
    } else {
        csv_joined_fields(r)
    }) + seq!['\n']
}

/// What `csv::Writer` with default settings writes for a list of records:
/// each record as written, one after the other.
pub open spec fn csv_text(records: Seq<Seq<Seq<char>>>) -> Seq<char>
    decreases records.len(),
{
    if records.len() == 0 {
        Seq::empty()
    } else {
        csv_text(records.drop_last()) + csv_record_text(records.last())
    }
}

/// Writes records with `csv::Writer::write_record` into memory. The writer
/// is not flexible: it fails only on a record whose length differs from the
/// first one (writing into a `Vec` and reading it back as UTF-8 cannot fail,
/// since the fields are UTF-8 and the writer adds only ASCII). The text is
/// `csv_text` of the records: quoting only where needed, `\n` after each
/// record.
#[verifier::external_body]
fn csv_write_records(records: &Vec<Vec<String>>) -> (r: TextResult<String>)
    ensures
        (forall|i: int| 0 <= i < records@.len() ==> (#[trigger] records@[i])@.len() == records@[0]@.len())
            ==> r is Ok,
        r matches Ok(t) ==> t@ == csv_text(records_view(records@)),
{
    let mut wtr = csv::Writer::from_writer(Vec::<u8>::new());
    for rec in records {
        if let Err(e) = wtr.write_record(rec) {
            return Err(e.to_string());
        }
    }
    match wtr.into_inner() {
        Ok(bytes) => String::from_utf8(bytes).map_err(|e| e.to_string()),
        Err(e) => Err(e.to_string()),
    }
}

/// What `csv::Reader` (default settings: a header row, equal record
/// lengths, UTF-8) reads from bytes: the header and the records, or `None`
/// when the bytes are not such CSV.
pub uninterp spec fn csv_parse(bytes: Seq<u8>) -> Option<(Seq<Seq<char>>, Seq<Seq<Seq<char>>>)>;

/// Whether `csv::Writer` writes `records` so that `csv::Reader` reads them
/// back as they are: at least one record, all of one length of two fields or
/// more (so no record is written as an empty line), and no byte order mark
/// opening the first field (the reader drops one there).
pub open spec fn csv_round_trips(records: Seq<Seq<Seq<char>>>) -> bool {
    &&& records.len() > 0
    &&& records[0].len() >= 2
    &&& forall|i: int| 0 <= i < records.len() ==> (#[trigger] records[i]).len() == records[0].len()
    &&& !(records[0][0].len() > 0 && records[0][0][0] == '\u{feff}')
}

/// Reads the header and the records of CSV bytes with `csv::Reader`. The
/// reader is not flexible, so every record has as many fields as the header;
/// it reads nothing from what the writer wrote for no records, and reads back
/// what the writer wrote for records that round-trip (fields holding commas,
/// quotes or line breaks are quoted by the writer and unquoted here).
#[verifier::external_body]
fn csv_read_records(bytes: &[u8]) -> (r: TextResult<(Vec<String>, Vec<Vec<String>>)>)
    ensures
        r is Ok <==> csv_parse(bytes@) is Some,
        r matches Ok(v) ==> csv_parse(bytes@) == Some(
            (v.0@.map_values(|f: String| f@), records_view(v.1@)),
        ),
        r matches Ok(v) ==> forall|i: int|
            0 <= i < v.1@.len() ==> (#[trigger] v.1@[i])@.len() == v.0@.len(),
        bytes@ == vstd::utf8::encode_utf8(csv_text(Seq::empty())) ==> (r is Ok
            && r->Ok_0.1@.len() == 0),
        forall|recs: Seq<Seq<Seq<char>>>|
            csv_round_trips(recs) ==> (bytes@ == vstd::utf8::encode_utf8(#[trigger] csv_text(recs))
                ==> (r is Ok && r->Ok_0.0@.map_values(|f: String| f@) == recs[0]
                && records_view(r->Ok_0.1@) == recs.drop_first())),
{
    let mut rdr = csv::Reader::from_reader(bytes);
    let header: Vec<String> = match rdr.headers() {
        Ok(h) => h.iter().map(|f| f.to_string()).collect(),
        Err(e) => return Err(e.to_string()),
    };
    let mut out: Vec<Vec<String>> = Vec::new();
    for rec in rdr.records() {
        match rec {
            Ok(r) => out.push(r.iter().map(|f| f.to_string()).collect()),
            Err(e) => return Err(e.to_string()),
        }
    }
    Ok((header, out))
}

/// A copy of a list of texts.
pub fn clone_strings(v: &Vec<String>) -> (r: Vec<String>)
    ensures
        r@ == v@,
{
    let mut out: Vec<String> = Vec::new();
    let mut i: usize = 0;
    while i < v.len()
        invariant
            0 <= i <= v@.len(),
            out@ == v@.subrange(0, i as int),
        decreases v@.len() - i,
    {
        out.push(v[i].clone());
        assert(v@.subrange(0, i + 1) =~= v@.subrange(0, i as int).push(v@[i as int]));
        i = i + 1;
    }
    assert(v@.subrange(0, v@.len() as int) =~= v@);
    out
}

/// CSV text of a table: nothing for no rows; otherwise the header row, then
/// the rows.
pub open spec fn table_csv_text(header: Seq<Seq<char>>, rows: Seq<Seq<Seq<char>>>) -> Seq<char> {
    if rows.len() == 0 {
        csv_text(Seq::empty())
    } else {
        csv_text(seq![header] + rows)
    }
}

/// Writes a table as CSV: a header row naming the fields, then one record
/// per row; a table without rows is written as no records at all (what
/// serializing rows with `csv::Writer` does, since the header comes from
/// the first row). It succeeds whenever every row has the header's length.
pub fn write_csv_string(header: &Vec<String>, rows: Vec<Vec<String>>) -> (r: Result<String>)
    ensures
        (forall|i: int| 0 <= i < rows@.len() ==> (#[trigger] rows@[i])@.len() == header@.len()) ==> r is Ok,
        r matches Ok(t) ==> t@ == table_csv_text(header@.map_values(|f: String| f@), records_view(rows@)),
        r matches Err(e) ==> e is Csv,
{
    let ghost rows_v = rows@;
    let mut records: Vec<Vec<String>> = Vec::new();
    if rows.len() > 0 {
        records.push(clone_strings(header));
        let mut rows = rows;
        records.append(&mut rows);
        assert(records@.len() == rows_v.len() + 1);
        assert(records@[0]@ == header@);
        assert(forall|i: int| 0 <= i < rows_v.len() ==> records@[i + 1] == rows_v[i]);
        proof {
            if forall|j: int| 0 <= j < rows_v.len() ==> (#[trigger] rows_v[j])@.len() == header@.len() {
                assert forall|i: int| 0 <= i < records@.len() implies (#[trigger] records@[i])@.len()
                    == records@[0]@.len() by {
                    if i > 0 {
                        assert(records@[i] == rows_v[i - 1]);
                    }
                }
            }
        }
        assert(records_view(records@) =~= seq![header@.map_values(|f: String| f@)] + records_view(
            rows_v,
        ));
    } else {
        assert(records_view(records@) =~= Seq::<Seq<Seq<char>>>::empty());
    }
    match csv_write_records(&records) {
        Ok(t) => Ok(t),
        Err(m) => Err(WorldflowError::Csv(m)),
    }
}

/// Reads CSV bytes into a header and records.
pub fn parse_csv_bytes(bytes: &[u8]) -> (r: Result<(Vec<String>, Vec<Vec<String>>)>)
    ensures
        r is Ok <==> csv_parse(bytes@) is Some,
        r matches Ok(v) ==> csv_parse(bytes@) == Some(
            (v.0@.map_values(|f: String| f@), records_view(v.1@)),
        ),
        r matches Ok(v) ==> forall|i: int|
            0 <= i < v.1@.len() ==> (#[trigger] v.1@[i])@.len() == v.0@.len(),
        r matches Err(e) ==> e is Csv,
        bytes@ == vstd::utf8::encode_utf8(csv_text(Seq::empty())) ==> (r matches Ok(v)
            && v.1@.len() == 0),
        forall|recs: Seq<Seq<Seq<char>>>|
            csv_round_trips(recs) && bytes@ == vstd::utf8::encode_utf8(#[trigger] csv_text(recs))
                ==> (r matches Ok(v) && v.0@.map_values(|f: String| f@) == recs[0]
                && records_view(v.1@) == recs.drop_first()),
{
    match csv_read_records(bytes) {
        Ok(v) => Ok(v),
        Err(m) => Err(WorldflowError::Csv(m)),
    }
}

} // verus!
