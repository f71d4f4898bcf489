//! The computing side of the database layer: bounds, tuning choices and the
//! repair of migration checksums that differ only in line endings.
use vstd::prelude::*;

use crate::error::{not_found, Result, WorldflowError};
use crate::ids::{uuid_text, uuid_to_string, Id};

pub mod category;
pub mod csv_bundle;
pub mod csv_codec;
pub mod csv_export;
pub mod csv_import;
pub mod csv_tables;
pub mod entry;
pub mod entry_link;
pub mod entry_type;
pub mod entry_relation;
pub mod idea_note;
pub mod pg;
pub mod project;
pub mod snapshot;
pub mod tag_schema;
pub mod update;

verus! {

/// The verdict on a write that must touch a row: none touched means the
/// resource is missing, reported as `label` followed by the id (for example
/// `"entry "` and the entry's UUID).
pub fn require_affected(rows_affected: u64, label: &str, id: Id) -> (r: Result<()>)
    ensures
        r is Ok <==> rows_affected > 0,
        r matches Err(e) ==> e matches WorldflowError::NotFound(m) && m@ == label@ + uuid_text(id),
{
    if rows_affected == 0 {
        Err(not_found(label, &uuid_to_string(id)))
    } else {
        Ok(())
    }
}

/// The limit as SQLite binds it; a limit that does not fit in `i64` is refused.
pub fn checked_limit(limit: usize) -> (r: Result<i64>)
    ensures
        r is Ok <==> limit <= i64::MAX,
        r matches Ok(v) ==> v == limit,
        r matches Err(e) ==> e matches WorldflowError::InvalidInput(m) && m@ == "limit 过大"@,
{
    if (limit as u64) <= (i64::MAX as u64) {
        Ok(limit as i64)
    } else {
        Err(WorldflowError::InvalidInput(String::from_str("limit 过大")))
    }
}

/// Limit and offset as SQLite binds them; the limit is checked first.
pub fn checked_pagination(limit: usize, offset: usize) -> (r: Result<(i64, i64)>)
    ensures
        r is Ok <==> limit <= i64::MAX && offset <= i64::MAX,
        r matches Ok(p) ==> p.0 == limit && p.1 == offset,
        r matches Err(e) ==> e matches WorldflowError::InvalidInput(m) && m@ == (if limit
            > i64::MAX {
            "limit 过大"@
        } else {
            "offset 过大"@
        }),
{
    let l = checked_limit(limit)?;
    if (offset as u64) <= (i64::MAX as u64) {
        Ok((l, offset as i64))
    } else {
        Err(WorldflowError::InvalidInput(String::from_str("offset 过大")))
    }
}

/// `limit * multiplier`, as an `i64`, raised to `min` and then lowered to
/// `max`; refused when the product overflows `usize` or does not fit `i64`.
pub fn checked_scaled_limit(limit: usize, multiplier: usize, min: i64, max: i64) -> (r: Result<
    i64,
>)
    ensures
        r is Ok <==> limit * multiplier <= usize::MAX && limit * multiplier <= i64::MAX,
        r matches Ok(v) ==> v == (if (if limit * multiplier >= min {
            limit * multiplier
        } else {
            min as int
        }) <= max {
            (if limit * multiplier >= min {
                limit * multiplier
            } else {
                min as int
            })
        } else {
            max as int
        }),
        r matches Err(e) ==> e matches WorldflowError::InvalidInput(m) && m@ == "limit 过大"@,
{
    let scaled = match limit.checked_mul(multiplier) {
        Some(v) => v,
        None => {
            return Err(WorldflowError::InvalidInput(String::from_str("limit 过大")));
        },
    };
    let v = checked_limit(scaled)?;
    let raised = if v >= min {
        v
    } else {
        min
    };
    Ok(
        if raised <= max {
            raised
        } else {
            max
        },
    )
}

/// SQLite cache settings chosen from the available memory (in MiB):
/// cache size (negative: KiB), mmap size (bytes) and temp store.
pub open spec fn memory_tier(available_mb: u64) -> (int, int, Seq<char>) {
    if available_mb > 16_000 {
        (-131072, 1073741824, "MEMORY"@)
    } else if available_mb > 8_000 {
        (-65536, 536870912, "MEMORY"@)
    } else if available_mb > 4_000 {
        (-32768, 268435456, "MEMORY"@)
    } else {
        (-16384, 134217728, "DEFAULT"@)
    }
}

/// The cache size, mmap size and temp store for the available memory.
pub fn memory_pragmas(available_mb: u64) -> (r: (i64, i64, &'static str))
    ensures
        r.0 == memory_tier(available_mb).0,
        r.1 == memory_tier(available_mb).1,
        r.2@ == memory_tier(available_mb).2,
{
    if available_mb > 16_000 {
        (-131072i64, 1073741824i64, "MEMORY")
    } else if available_mb > 8_000 {
        (-65536, 536870912, "MEMORY")
    } else if available_mb > 4_000 {
        (-32768, 268435456, "MEMORY")
    } else {
        (-16384, 134217728, "DEFAULT")
    }
}

/// Whole MiB in a number of bytes.
pub fn memory_mb_from_bytes(bytes: u64) -> (r: u64)
    ensures
        r == bytes / 1024 / 1024,
{
    bytes / 1024 / 1024
}

/// `\r\n` pairs turned into `\n`, scanning from the left.
pub open spec fn crlf_to_lf(s: Seq<u8>) -> Seq<u8>
    decreases s.len(),
{
    if s.len() == 0 {
        Seq::empty()
    } else if s.len() >= 2 && s[0] == 13u8 && s[1] == 10u8 {
        seq![10u8] + crlf_to_lf(s.subrange(2, s.len() as int))
    } else {
        seq![s[0]] + crlf_to_lf(s.subrange(1, s.len() as int))
    }
}

/// Every `\n` turned into `\r\n`.
pub open spec fn lf_to_crlf(s: Seq<u8>) -> Seq<u8>
    decreases s.len(),
{
    if s.len() == 0 {
        Seq::empty()
    } else if s[0] == 10u8 {
        seq![13u8, 10u8] + lf_to_crlf(s.subrange(1, s.len() as int))
    } else {
        seq![s[0]] + lf_to_crlf(s.subrange(1, s.len() as int))
    }
}

/// Replaces each `\r\n` pair with `\n`.
pub fn normalize_crlf_to_lf(bytes: &[u8]) -> (r: Vec<u8>)
    ensures
        r@ == crlf_to_lf(bytes@),
{
    let n = bytes.len();
    let mut out: Vec<u8> = Vec::new();
    let mut index: usize = 0;
    assert(bytes@.subrange(0, n as int) =~= bytes@);
    while index < n
        invariant
            0 <= index <= n == bytes@.len(),
            crlf_to_lf(bytes@) == out@ + crlf_to_lf(bytes@.subrange(index as int, n as int)),
        decreases n - index,
    {
        let ghost rest = bytes@.subrange(index as int, n as int);
        if bytes[index] == 13u8 && index + 1 < n && bytes[index + 1] == 10u8 {
            out.push(10u8);
            assert(rest.subrange(2, rest.len() as int) =~= bytes@.subrange(index + 2, n as int));
            assert(crlf_to_lf(rest) == seq![10u8] + crlf_to_lf(rest.subrange(2, rest.len() as int)));
            index = index + 2;
        } else {
            out.push(bytes[index]);
            assert(rest.subrange(1, rest.len() as int) =~= bytes@.subrange(index + 1, n as int));
            assert(crlf_to_lf(rest) == seq![rest[0]] + crlf_to_lf(rest.subrange(1, rest.len() as int)));
            index = index + 1;
        }
        assert(crlf_to_lf(bytes@) =~= out@ + crlf_to_lf(bytes@.subrange(index as int, n as int)));
    }
    assert(bytes@.subrange(n as int, n as int) =~= Seq::<u8>::empty());
    assert(out@ =~= crlf_to_lf(bytes@));
    out
}

/// Replaces each `\n` with `\r\n`.
pub fn normalize_lf_to_crlf(bytes: &[u8]) -> (r: Vec<u8>)
    ensures
        r@ == lf_to_crlf(bytes@),
{
    let n = bytes.len();
    let mut out: Vec<u8> = Vec::new();
    let mut index: usize = 0;
    assert(bytes@.subrange(0, n as int) =~= bytes@);
    while index < n
        invariant
            0 <= index <= n == bytes@.len(),
            lf_to_crlf(bytes@) == out@ + lf_to_crlf(bytes@.subrange(index as int, n as int)),
        decreases n - index,
    {
        let ghost rest = bytes@.subrange(index as int, n as int);
        assert(rest.subrange(1, rest.len() as int) =~= bytes@.subrange(index + 1, n as int));
        if bytes[index] == 10u8 {
            out.push(13u8);
            out.push(10u8);
        } else {
            out.push(bytes[index]);
        }
        index = index + 1;
        assert(lf_to_crlf(bytes@) =~= out@ + lf_to_crlf(bytes@.subrange(index as int, n as int)));
    }
    assert(bytes@.subrange(n as int, n as int) =~= Seq::<u8>::empty());
    assert(out@ =~= lf_to_crlf(bytes@));
    out
}

proof fn lemma_lf_to_crlf_head(s: Seq<u8>)
    ensures
        lf_to_crlf(s).len() > 0 ==> lf_to_crlf(s)[0] != 10u8,
        lf_to_crlf(s).len() == 0 <==> s.len() == 0,
{
}

/// Turning line feeds into CR LF pairs and back gives the original bytes.
pub proof fn lemma_crlf_roundtrip(s: Seq<u8>)
    ensures
        crlf_to_lf(lf_to_crlf(s)) == s,
    decreases s.len(),
{
    if s.len() > 0 {
        let rest = s.subrange(1, s.len() as int);
        lemma_crlf_roundtrip(rest);
        lemma_lf_to_crlf_head(rest);
        let t = lf_to_crlf(rest);
        if s[0] == 10u8 {
            let u = seq![13u8, 10u8] + t;
            assert(lf_to_crlf(s) == u);
            assert(u.subrange(2, u.len() as int) =~= t);
            assert(crlf_to_lf(u) == seq![10u8] + crlf_to_lf(t));
        } else {
            let u = seq![s[0]] + t;
            assert(lf_to_crlf(s) == u);
            assert(u.subrange(1, u.len() as int) =~= t);
            if u.len() >= 2 {
                assert(u[1] == t[0]);
            }
            assert(crlf_to_lf(u) == seq![s[0]] + crlf_to_lf(t));
        }
        assert(crlf_to_lf(lf_to_crlf(s)) =~= s);
    }
}

/// What SHA-384 gives for a byte string (`sha2::Sha384::digest`).
pub uninterp spec fn sha384_of(bytes: Seq<u8>) -> Seq<u8>;

/// SHA-384 digest of `bytes` (`sha2::Sha384::digest`), 48 bytes long.
#[verifier::external_body]
pub(crate) fn sha384(bytes: &[u8]) -> (r: Vec<u8>)
    ensures
        r@ == sha384_of(bytes@),
        r@.len() == 48,
{
    <sha2::Sha384 as sha2::Digest>::digest(bytes).to_vec()
}

/// Whether two byte strings are equal.
pub fn bytes_eq(a: &[u8], b: &[u8]) -> (r: bool)
    ensures
        r == (a@ == b@),
{
    if a.len() != b.len() {
        return false;
    }
    let mut i: usize = 0;
    while i < a.len()
        invariant
            0 <= i <= a@.len() == b@.len(),
            forall|k: int| 0 <= k < i ==> a@[k] == b@[k],
        decreases a@.len() - i,
    {
        if a[i] != b[i] {
            return false;
        }
        i = i + 1;
    }
    assert(a@ =~= b@);
    true
}

/// Whether `applied` is the checksum of `sql` written with other line endings:
/// of `sql` with LF line endings, or with CR LF line endings.
pub open spec fn is_line_ending_variant(applied: Seq<u8>, sql: Seq<u8>) -> bool {
    let lf = crlf_to_lf(sql);
    let crlf = lf_to_crlf(lf);
    sha384_of(lf) == applied || sha384_of(crlf) == applied
}

proof fn lemma_crlf_to_lf_no_cr(s: Seq<u8>)
    requires
        forall|i: int| 0 <= i < s.len() ==> s[i] != 13u8,
    ensures
        crlf_to_lf(s) == s,
    decreases s.len(),
{
    if s.len() > 0 {
        let rest = s.subrange(1, s.len() as int);
        lemma_crlf_to_lf_no_cr(rest);
        assert(seq![s[0]] + rest =~= s);
    }
}

/// A checksum taken over the migration text with either line ending is
/// accepted: for any text, the checksums of its LF form and of its CRLF
/// form match it; in particular, for a text with LF line endings (no CR),
/// the checksum of that text and the checksum of its CRLF form each match
/// both the text and its CRLF form.
pub proof fn lemma_line_ending_variants_accepted(sql: Seq<u8>, lf_text: Seq<u8>)
    requires
        forall|i: int| 0 <= i < lf_text.len() ==> lf_text[i] != 13u8,
    ensures
        is_line_ending_variant(sha384_of(crlf_to_lf(sql)), sql),
        is_line_ending_variant(sha384_of(lf_to_crlf(crlf_to_lf(sql))), sql),
        is_line_ending_variant(sha384_of(lf_text), lf_text),
        is_line_ending_variant(sha384_of(lf_to_crlf(lf_text)), lf_text),
        is_line_ending_variant(sha384_of(lf_text), lf_to_crlf(lf_text)),
        is_line_ending_variant(sha384_of(lf_to_crlf(lf_text)), lf_to_crlf(lf_text)),
{
    lemma_crlf_to_lf_no_cr(lf_text);
    lemma_crlf_roundtrip(lf_text);
}

/// Whether an applied checksum matches the migration text up to line endings.
pub fn matches_line_ending_variant(applied_checksum: &[u8], sql: &[u8]) -> (r: bool)
    ensures
        r == is_line_ending_variant(applied_checksum@, sql@),
{
    let lf = normalize_crlf_to_lf(sql);
    let crlf = normalize_lf_to_crlf(lf.as_slice());
    let a = sha384(lf.as_slice());
    if bytes_eq(a.as_slice(), applied_checksum) {
        return true;
    }
    let b = sha384(crlf.as_slice());
    bytes_eq(b.as_slice(), applied_checksum)
}

/// A migration the library knows: its version, checksum and SQL text.
#[derive(Debug, Clone)]
pub struct KnownMigration {
    pub version: i64,
    pub checksum: Vec<u8>,
    pub sql: Vec<u8>,
}

/// A migration recorded as applied: its version and the checksum stored then.
#[derive(Debug, Clone)]
pub struct AppliedMigration {
    pub version: i64,
    pub checksum: Vec<u8>,
}

/// Index of the first known migration with the given version.
pub open spec fn find_migration(known: Seq<KnownMigration>, version: i64) -> Option<int> {
    if exists|i: int| 0 <= i < known.len() && known[i].version == version {
        Some(
            choose|i: int|
                0 <= i < known.len() && known[i].version == version && forall|j: int|
                    0 <= j < i ==> known[j].version != version,
        )
    } else {
        None
    }
}

/// Whether an applied migration gets its checksum rewritten: a known
/// migration of that version exists, its checksum differs from the stored
/// one, and the stored one is that of the same SQL with other line endings.
pub open spec fn needs_checksum_repair(known: Seq<KnownMigration>, row: AppliedMigration) -> bool {
    match find_migration(known, row.version) {
        Some(i) => row.checksum@ != known[i].checksum@ && is_line_ending_variant(
            row.checksum@,
            known[i].sql@,
        ),
        None => false,
    }
}

/// The checksum rewrites, in the order of the applied rows: each row that
/// needs a repair gets the known migration's checksum.
pub open spec fn checksum_repairs(known: Seq<KnownMigration>, rows: Seq<AppliedMigration>) -> Seq<
    (i64, Seq<u8>),
>
    decreases rows.len(),
{
    if rows.len() == 0 {
        Seq::empty()
    } else {
        let prev = checksum_repairs(known, rows.drop_last());
        let row = rows.last();
        if needs_checksum_repair(known, row) {
            prev.push((row.version, known[find_migration(known, row.version)->0].checksum@))
        } else {
            prev
        }
    }
}

fn find_known_migration(known: &Vec<KnownMigration>, version: i64) -> (r: Option<usize>)
    ensures
        r matches Some(i) ==> find_migration(known@, version) == Some(i as int) && i < known@.len(),
        r is None ==> find_migration(known@, version) is None,
{
    let mut i: usize = 0;
    while i < known.len()
        invariant
            0 <= i <= known@.len(),
            forall|j: int| 0 <= j < i ==> known@[j].version != version,
        decreases known@.len() - i,
    {
        if known[i].version == version {
            let ghost w = choose|k: int|
                0 <= k < known@.len() && known@[k].version == version && forall|j: int|
                    0 <= j < k ==> known@[j].version != version;
            assert(0 <= i < known@.len() && known@[i as int].version == version && forall|j: int|
                0 <= j < i ==> known@[j].version != version);
            proof {
                if w < i {
                    assert(known@[w].version != version);
                }
                if w > i {
                    assert(known@[i as int].version != version);
                }
            }
            return Some(i);
        }
        i = i + 1;
    }
    None
}

/// The checksums to rewrite after an upgrade: for each applied migration
/// whose stored checksum differs from the known one only because the SQL
/// was hashed with other line endings, its version and the known checksum.
pub fn plan_checksum_repairs(known: &Vec<KnownMigration>, rows: &Vec<AppliedMigration>) -> (r: Vec<
    (i64, Vec<u8>),
>)
    ensures
        r@.len() == checksum_repairs(known@, rows@).len(),
        forall|k: int|
            0 <= k < r@.len() ==> (#[trigger] r@[k]).0 == checksum_repairs(known@, rows@)[k].0
                && r@[k].1@ == checksum_repairs(known@, rows@)[k].1,
{
    let mut out: Vec<(i64, Vec<u8>)> = Vec::new();
    let mut i: usize = 0;
    while i < rows.len()
        invariant
            0 <= i <= rows@.len(),
            out@.len() == checksum_repairs(known@, rows@.subrange(0, i as int)).len(),
            forall|k: int|
                0 <= k < out@.len() ==> (#[trigger] out@[k]).0 == checksum_repairs(
                    known@,
                    rows@.subrange(0, i as int),
                )[k].0 && out@[k].1@ == checksum_repairs(known@, rows@.subrange(0, i as int))[k].1,
        decreases rows@.len() - i,
    {
        let row = &rows[i];
        let ghost pre = rows@.subrange(0, i as int);
        let ghost cur = rows@.subrange(0, i + 1);
        assert(cur.drop_last() =~= pre);
        assert(cur.last() == rows@[i as int]);
        match find_known_migration(known, row.version) {
            Some(m) => {
                let current = &known[m];
                if !bytes_eq(row.checksum.as_slice(), current.checksum.as_slice())
                    && matches_line_ending_variant(row.checksum.as_slice(), current.sql.as_slice()) {
                    out.push((row.version, current.checksum.clone()));
                }
            },
            None => {},
        }
        i = i + 1;
    }
    assert(rows@.subrange(0, rows@.len() as int) =~= rows@);
    out
}

} // verus!
