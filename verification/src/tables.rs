//! Tables: their names and locations, the requests on them, and the answers.

use vstd::prelude::*;

use crate::error;
use crate::error::{ApiError, ErrorKind, StoreError, StoreKind};
use crate::federation;
use crate::federation::secret_key;
use crate::grants;
use crate::grants::{require, Access, Found};
use crate::namespaces;
use crate::namespaces::{decode_namespace_param, found_namespace, split_prefix};
use crate::text;
use crate::text::{
    before_last, blank, cat2, cat3, cat4, cat5, decimal_i64, drop_leading, drop_leading_copies, drop_trailing,
    has_char, holds, join, lowered_ascii, parse_unsigned, quote, same, split, starts, trim,
};
use crate::textmap;
use crate::textmap::TextMap;

verus! {

/// Upper bound on an accepted idempotency key, in characters.
pub const MAX_IDEMPOTENCY_KEY_LEN: usize = 255;

/// Format version that a table created through the commit route starts from,
/// so that the update list's own upgrade decides.
pub const CREATE_COMMIT_BASE_FORMAT_VERSION: u8 = 1;

// ---------------------------------------------------------------------------
// Rows
// ---------------------------------------------------------------------------

/// A warehouse, as the routes read it.
#[derive(Debug)]
pub struct WarehouseRecord {
    /// ULID of the warehouse.
    pub id: String,
    /// Its name.
    pub name: String,
    /// Where its tables are.
    pub storage_root: String,
    /// Its storage options.
    pub storage_config: TextMap<String>,
    /// Whether it holds only assets mirrored from an external catalog.
    pub foreign: bool,
}

/// A table, as the routes read it.
#[derive(Debug)]
pub struct TableRecord {
    /// ULID of the table.
    pub id: String,
    /// Its name.
    pub name: String,
    /// Its UUID.
    pub table_uuid: String,
    /// The mirror it comes from, where it is a foreign table.
    pub mirror_id: Option<String>,
    /// Where its current metadata is.
    pub metadata_location: Option<String>,
    /// The version of its pointer.
    pub pointer_version: i64,
}

/// A request header.
#[derive(Debug)]
pub enum Header {
    /// The request has no such header.
    Absent,
    /// Its value is not visible ASCII.
    Opaque,
    /// Its value.
    Text(String),
}

// ---------------------------------------------------------------------------
// Names and locations
// ---------------------------------------------------------------------------

/// Whether a table name is refused, and how.
pub open spec fn table_name_error(name: Seq<char>) -> Option<error::ErrorView> {
    if name.len() == 0 {
        Some(error::bad_request("table name must not be empty"@))
    } else if name.contains('\u{1f}') {
        Some(error::bad_request("table name must not contain the 0x1F unit separator"@))
    } else {
        None
    }
}

/// Validates a table name for use as a URL path segment.
pub fn validate_table_name(name: &str) -> (r: Result<(), ApiError>)
    ensures
        r is Ok == (table_name_error(name@) is None),
        r matches Err(e) ==> table_name_error(name@) == Some(e@),
{
    if name.is_empty() {
        return Err(ApiError::bad_request("table name must not be empty"));
    }
    if has_char(name, '\u{1f}') {
        return Err(ApiError::bad_request("table name must not contain the 0x1F unit separator"));
    }
    Ok(())
}

/// The readable identifier of a table: its levels and its name, with dots.
pub open spec fn ident_text(levels: Seq<Seq<char>>, name: Seq<char>) -> Seq<char> {
    if levels.len() == 0 {
        name
    } else {
        text::join_with(levels, "."@) + "."@ + name
    }
}

/// The readable identifier of a table.
pub fn display_ident(levels: &Vec<String>, name: &str) -> (r: String)
    ensures
        r@ == ident_text(text::texts(levels@), name@),
{
    if levels.len() == 0 {
        name.to_owned()
    } else {
        cat3(join(levels, ".").as_str(), ".", name)
    }
}

/// The 404 of a table that does not exist.
pub open spec fn missing_table(levels: Seq<Seq<char>>, name: Seq<char>) -> error::ErrorView {
    error::error_of(
        ErrorKind::NoSuchTable,
        "table "@ + text::quoted(ident_text(levels, name)) + " does not exist"@,
    )
}

/// The 404 of a table that does not exist.
pub fn no_such_table(levels: &Vec<String>, name: &str) -> (r: ApiError)
    ensures
        r@ == missing_table(text::texts(levels@), name@),
{
    let ident = display_ident(levels, name);
    ApiError::new(
        ErrorKind::NoSuchTable,
        cat3("table ", quote(ident.as_str()).as_str(), " does not exist").as_str(),
    )
}

/// The default location of a new table: under the warehouse root, one
/// directory per level, and the name with the table's UUID behind it.
pub open spec fn default_location(
    root: Seq<char>,
    levels: Seq<Seq<char>>,
    name: Seq<char>,
    uuid: Seq<char>,
) -> Seq<char> {
    let base = text::without_trailing(root, '/');
    let path = text::join_with(levels, "/"@);
    if path.len() == 0 {
        base + "/"@ + name + "-"@ + uuid
    } else {
        base + "/"@ + path + "/"@ + name + "-"@ + uuid
    }
}

/// The default location of a new table.
pub fn default_table_location(
    storage_root: &str,
    levels: &Vec<String>,
    name: &str,
    table_uuid: &str,
) -> (r: String)
    ensures
        r@ == default_location(storage_root@, text::texts(levels@), name@, table_uuid@),
{
    let root = drop_trailing(storage_root, '/');
    let path = join(levels, "/");
    if path.as_str().is_empty() {
        cat5(root, "/", name, "-", table_uuid)
    } else {
        cat4(root, "/", path.as_str(), "/").concat(name).concat("-").concat(table_uuid)
    }
}

/// Two tables never share a default location: the location ends in the table's
/// UUID, so a table that is dropped and created again gets another path.
pub proof fn locations_are_told_apart_by_uuid(
    root: Seq<char>,
    levels: Seq<Seq<char>>,
    name: Seq<char>,
    a: Seq<char>,
    b: Seq<char>,
)
    requires
        default_location(root, levels, name, a) == default_location(root, levels, name, b),
    ensures
        a == b,
{
    let base = text::without_trailing(root, '/');
    let path = text::join_with(levels, "/"@);
    let front = if path.len() == 0 {
        base + "/"@ + name + "-"@
    } else {
        base + "/"@ + path + "/"@ + name + "-"@
    };
    assert(default_location(root, levels, name, a) =~= front + a);
    assert(default_location(root, levels, name, b) =~= front + b);
    assert((front + a).skip(front.len() as int) =~= a);
    assert((front + b).skip(front.len() as int) =~= b);
}

/// Whether `base` is the table location that a metadata location lies under:
/// what stands before the last `/metadata/`, else before the last `/`, else
/// all of it.
pub open spec fn is_metadata_root(location: Seq<char>, base: Seq<char>) -> bool {
    if exists|i: int| #[trigger] text::stands_in(location, "/metadata/"@, i) {
        exists|i: int| #[trigger] text::stands_last(location, "/metadata/"@, i) && base == location.take(i)
    } else if exists|i: int| #[trigger] text::stands_in(location, "/"@, i) {
        exists|i: int| #[trigger] text::stands_last(location, "/"@, i) && base == location.take(i)
    } else {
        base == location
    }
}

/// The root to read a foreign table's metadata file under.
pub fn foreign_root<'a>(metadata_location: &'a str) -> (r: &'a str)
    ensures
        is_metadata_root(metadata_location@, r@),
{
    match before_last(metadata_location, "/metadata/") {
        Some(base) => base,
        None => match before_last(metadata_location, "/") {
            Some(base) => base,
            None => metadata_location,
        },
    }
}

/// Whether a foreign table's metadata is read with an option of that name of
/// its warehouse: with all but the secrets and the catalog's own marks, which
/// are no storage options.
pub open spec fn is_foreign_option(key: Seq<char>) -> bool {
    !federation::is_secret_key(key) && !"meridian:"@.is_prefix_of(key)
}

/// The options that a foreign table's metadata is read with.
pub open spec fn foreign_part(config: Map<Seq<char>, Seq<char>>) -> Map<Seq<char>, Seq<char>> {
    Map::new(|key: Seq<char>| config.dom().contains(key) && is_foreign_option(key), |key: Seq<char>| config[key])
}

/// The options that a foreign table's metadata is read with, such as the
/// endpoint of its store. The secrets of the warehouse are not among them.
pub fn foreign_options(config: &TextMap<String>) -> (r: TextMap<String>)
    ensures
        textmap::text_values(r@) == foreign_part(textmap::text_values(config@)),
{
    let mut out: TextMap<String> = TextMap::new();
    let n: usize = config.len();
    let mut i: usize = 0;
    proof {
        assert forall|k: Seq<char>| !textmap::map_of(config.pairs().take(0)).dom().contains(k) by {
            if textmap::map_of(config.pairs().take(0)).dom().contains(k) {
                let a = choose|a: int| textmap::stands_at(config.pairs().take(0), k, a);
            }
        }
        assert(textmap::text_values(out@) =~= foreign_part(
            textmap::text_values(textmap::map_of(config.pairs().take(0))),
        ));
    }
    while i < n
        invariant
            i <= n,
            n == config.pairs().len(),
            textmap::in_key_order(config.pairs()),
            textmap::text_values(out@) == foreign_part(
                textmap::text_values(textmap::map_of(config.pairs().take(i as int))),
            ),
        decreases n - i,
    {
        let ghost pair = config.pairs()[i as int];
        let ghost before = out@;
        let ghost taken = textmap::text_values(textmap::map_of(config.pairs().take(i as int)));
        proof {
            textmap::taken_one_more(config.pairs(), i as int);
            assert(textmap::text_values(textmap::map_of(config.pairs().take(i + 1))) =~= taken.insert(
                pair.0,
                pair.1@,
            ));
        }
        let key = config.key_at(i).as_str();
        if !secret_key(key) && !starts(key, "meridian:") {
            out = out.with(key, config.value_at(i).clone());
            assert(textmap::text_values(out@) =~= textmap::text_values(before).insert(pair.0, pair.1@));
            assert(foreign_part(taken.insert(pair.0, pair.1@)) =~= foreign_part(taken).insert(pair.0, pair.1@));
        } else {
            assert(foreign_part(taken.insert(pair.0, pair.1@)) =~= foreign_part(taken));
        }
        i = i + 1;
    }
    assert(config.pairs().take(n as int) == config.pairs());
    out
}

/// No secret of a warehouse goes with the read of a foreign table's metadata,
/// and every other storage option does, as it is.
pub proof fn foreign_reads_hold_no_secret(config: Map<Seq<char>, Seq<char>>, key: Seq<char>)
    ensures
        federation::is_secret_key(key) ==> !foreign_part(config).dom().contains(key),
        is_foreign_option(key) && config.dom().contains(key) ==> foreign_part(config).dom().contains(key)
            && foreign_part(config)[key] == config[key],
{
}

/// The prefix to delete when a dropped table is purged: the metadata directory
/// of its location, where the location follows the convention.
pub fn purge_prefix(metadata_location: &str) -> (r: Option<String>)
    ensures
        match r {
            Some(p) => exists|i: int| #[trigger] text::stands_last(metadata_location@, "/metadata/"@, i) && p@
                == metadata_location@.take(i) + "/metadata"@,
            None => forall|i: int| !#[trigger] text::stands_in(metadata_location@, "/metadata/"@, i),
        },
{
    match before_last(metadata_location, "/metadata/") {
        Some(base) => Some(cat2(base, "/metadata")),
        None => None,
    }
}

/// The answer where a warehouse's storage options cannot be used.
pub fn storage_config_error(warehouse: &str, detail: &str) -> (r: ApiError)
    ensures
        r@ == error::error_of(
            ErrorKind::InternalServer,
            "warehouse "@ + text::quoted(warehouse@) + " storage configuration is unusable: "@ + detail@,
        ),
{
    ApiError::new(
        ErrorKind::InternalServer,
        cat4("warehouse ", quote(warehouse).as_str(), " storage configuration is unusable: ", detail).as_str(),
    )
}

/// The answer where the pointer names a file that cannot be read back.
pub open spec fn unreadable_metadata(location: Seq<char>, detail: Seq<char>) -> error::ErrorView {
    error::error_of(
        ErrorKind::InternalServer,
        "current metadata at "@ + text::quoted(location) + " is unreadable: "@ + detail,
    )
}

/// The answer where the pointer names a file that cannot be read back.
pub fn current_metadata_unreadable(location: &str, detail: &str) -> (r: ApiError)
    ensures
        r@ == unreadable_metadata(location@, detail@),
{
    ApiError::new(
        ErrorKind::InternalServer,
        cat4("current metadata at ", quote(location).as_str(), " is unreadable: ", detail).as_str(),
    )
}

// ---------------------------------------------------------------------------
// Foreign tables
// ---------------------------------------------------------------------------

/// The refusal of a write to a foreign table.
pub open spec fn foreign_table_error(record: TableRecord, ident: Seq<char>) -> Option<error::ErrorView> {
    match record.mirror_id {
        Some(mirror) => Some(
            error::error_of(
                ErrorKind::ForeignReadOnly,
                "table "@ + text::quoted(ident) + " is a foreign asset mirrored from an external catalog (mirror "@
                    + mirror@ + ") and is read-only in Meridian; commit to the source catalog instead"@,
            ),
        ),
        None => None,
    }
}

/// Refuses a write to a foreign table; a native table passes.
pub fn reject_if_foreign(record: &TableRecord, levels: &Vec<String>, name: &str) -> (r: Result<(), ApiError>)
    ensures
        r is Ok == (record.mirror_id is None),
        r matches Err(e) ==> foreign_table_error(*record, ident_text(text::texts(levels@), name@)) == Some(e@),
{
    match &record.mirror_id {
        None => Ok(()),
        Some(mirror) => {
            let ident = display_ident(levels, name);
            Err(ApiError::new(
                ErrorKind::ForeignReadOnly,
                cat5(
                    "table ",
                    quote(ident.as_str()).as_str(),
                    " is a foreign asset mirrored from an external catalog (mirror ",
                    mirror.as_str(),
                    ") and is read-only in Meridian; commit to the source catalog instead",
                ).as_str(),
            ))
        },
    }
}

/// The refusal of a new table in a foreign warehouse.
pub open spec fn foreign_warehouse_error(warehouse: WarehouseRecord) -> Option<error::ErrorView> {
    if warehouse.foreign {
        Some(
            error::error_of(
                ErrorKind::ForeignReadOnly,
                "warehouse "@ + text::quoted(warehouse.name@)
                    + " holds foreign (read-only) assets mirrored from an external catalog; tables cannot be created or registered here"@,
            ),
        )
    } else {
        None
    }
}

/// Refuses a new table in a foreign warehouse; a native warehouse passes.
pub fn reject_if_foreign_warehouse(warehouse: &WarehouseRecord) -> (r: Result<(), ApiError>)
    ensures
        r is Ok == !warehouse.foreign,
        r matches Err(e) ==> foreign_warehouse_error(*warehouse) == Some(e@),
{
    if warehouse.foreign {
        Err(ApiError::new(
            ErrorKind::ForeignReadOnly,
            cat3(
                "warehouse ",
                quote(warehouse.name.as_str()).as_str(),
                " holds foreign (read-only) assets mirrored from an external catalog; tables cannot be created or registered here",
            ).as_str(),
        ))
    } else {
        Ok(())
    }
}

// ---------------------------------------------------------------------------
// Entity tags
// ---------------------------------------------------------------------------

/// The entity tag of a table representation: the table, the version of its
/// pointer, and whether only the referenced snapshots are in it.
pub open spec fn etag_text(uuid: Seq<char>, version: int, refs_only: bool) -> Seq<char> {
    if refs_only {
        "\""@ + uuid + "-g"@ + text::decimal(version) + "-refs\""@
    } else {
        "\""@ + uuid + "-g"@ + text::decimal(version) + "\""@
    }
}

/// The strong entity tag of a table representation.
pub fn table_etag(table_uuid: &str, pointer_version: i64, refs_only: bool) -> (r: String)
    ensures
        r@ == etag_text(table_uuid@, pointer_version as int, refs_only),
{
    let version = decimal_i64(pointer_version);
    if refs_only {
        cat5("\"", table_uuid, "-g", version.as_str(), "-refs\"")
    } else {
        cat5("\"", table_uuid, "-g", version.as_str(), "\"")
    }
}

/// A tag without its weakness marker and its quotes.
pub open spec fn bare_tag(tag: Seq<char>) -> Seq<char> {
    let strong = text::without_leading_copies(text::trimmed(tag), "W/"@);
    text::without_trailing(text::without_leading(strong, '"'), '"')
}

fn strip_tag(tag: &str) -> (r: String)
    ensures
        r@ == bare_tag(tag@),
{
    let strong = drop_leading_copies(trim(tag), "W/");
    drop_trailing(drop_leading(strong, '"'), '"').to_owned()
}

/// Whether a candidate of an `If-None-Match` list matches: it is a star, or it
/// is the tag under weak comparison.
pub open spec fn candidate_matches(candidate: Seq<char>, etag: Seq<char>) -> bool {
    text::trimmed(candidate) == "*"@ || bare_tag(candidate) == bare_tag(etag)
}

/// Whether an `If-None-Match` header matches a tag: one of its candidates
/// does.
pub open spec fn header_matches(raw: Seq<char>, etag: Seq<char>) -> bool {
    exists|i: int|
        0 <= i < text::split_on(raw, ',').len() && candidate_matches(#[trigger] text::split_on(raw, ',')[i], etag)
}

/// Whether an `If-None-Match` header matches `etag`, under weak comparison;
/// `*` matches anything.
pub fn if_none_match_matches(header: &Header, etag: &str) -> (r: bool)
    ensures
        r == (match *header {
            Header::Text(raw) => header_matches(raw@, etag@),
            _ => false,
        }),
{
    let raw = match header {
        Header::Text(raw) => raw,
        _ => { return false; },
    };
    let target = strip_tag(etag);
    let candidates = split(raw.as_str(), ',');
    let ghost all = text::split_on(raw@, ',');
    let mut i: usize = 0;
    while i < candidates.len()
        invariant
            i <= candidates@.len(),
            *header == Header::Text(*raw),
            all == text::split_on(raw@, ','),
            all == text::texts(candidates@),
            target@ == bare_tag(etag@),
            forall|j: int| 0 <= j < i ==> !candidate_matches(#[trigger] all[j], etag@),
        decreases candidates@.len() - i,
    {
        let candidate = candidates[i].as_str();
        assert(all[i as int] == candidate@);
        if same(trim(candidate), "*") || strip_tag(candidate) == target {
            assert(candidate_matches(all[i as int], etag@));
            return true;
        }
        i = i + 1;
    }
    false
}

/// A client that sends back the tag it was given, alone or in a list, is told
/// that nothing changed.
pub proof fn etag_revalidates(candidates: Seq<Seq<char>>, etag: Seq<char>, i: int)
    requires
        0 <= i < candidates.len(),
        candidates[i] == etag,
        forall|j: int| 0 <= j < candidates.len() ==> !(#[trigger] candidates[j]).contains(','),
    ensures
        header_matches(text::join_with(candidates, seq![',']), etag),
{
    text::join_then_split(candidates, ',');
    let raw = text::join_with(candidates, seq![',']);
    assert(candidate_matches(text::split_on(raw, ',')[i], etag));
}

proof fn digits_are_not_letters(n: nat)
    ensures
        text::decimal_nat(n).len() > 0,
        forall|i: int| 0 <= i < text::decimal_nat(n).len() ==> 0x30 <= (#[trigger] text::decimal_nat(n)[i]) as u32 <= 0x39,
    decreases n,
{
    if n >= 10 {
        digits_are_not_letters(n / 10);
    }
}

proof fn decimal_nat_tells_apart(a: nat, b: nat)
    requires
        text::decimal_nat(a) == text::decimal_nat(b),
    ensures
        a == b,
    decreases a,
{
    digits_are_not_letters(a / 10);
    digits_are_not_letters(b / 10);
    assert(text::decimal_nat(a).last() == text::digit_char((a % 10) as int));
    assert(text::decimal_nat(b).last() == text::digit_char((b % 10) as int));
    assert(text::digit_char((a % 10) as int) as int == 0x30 + a % 10);
    assert(text::digit_char((b % 10) as int) as int == 0x30 + b % 10);
    if a >= 10 && b >= 10 {
        assert(text::decimal_nat(a).drop_last() =~= text::decimal_nat(a / 10));
        assert(text::decimal_nat(b).drop_last() =~= text::decimal_nat(b / 10));
        decimal_nat_tells_apart(a / 10, b / 10);
    } else if a >= 10 {
        assert(text::decimal_nat(b).len() == 1);
        assert(text::decimal_nat(a).len() == text::decimal_nat(a / 10).len() + 1);
    } else if b >= 10 {
        assert(text::decimal_nat(a).len() == 1);
        assert(text::decimal_nat(b).len() == text::decimal_nat(b / 10).len() + 1);
    }
}

proof fn decimal_tells_apart(a: int, b: int)
    requires
        text::decimal(a) == text::decimal(b),
    ensures
        a == b,
{
    let x = if a < 0 { (-a) as nat } else { a as nat };
    let y = if b < 0 { (-b) as nat } else { b as nat };
    digits_are_not_letters(x);
    digits_are_not_letters(y);
    if a < 0 {
        assert(text::decimal(a)[0] == '-');
        assert(text::decimal(a).skip(1) =~= text::decimal_nat(x));
    } else {
        assert(text::decimal(a)[0] as u32 >= 0x30);
    }
    if b < 0 {
        assert(text::decimal(b)[0] == '-');
        assert(text::decimal(b).skip(1) =~= text::decimal_nat(y));
    } else {
        assert(text::decimal(b)[0] as u32 >= 0x30);
    }
    decimal_nat_tells_apart(x, y);
}

proof fn decimal_holds_no_g(n: int)
    ensures
        !text::decimal(n).contains('g'),
        text::decimal(n).len() > 0,
        0x30 <= text::decimal(n).last() as u32 <= 0x39,
{
    let x = if n < 0 { (-n) as nat } else { n as nat };
    digits_are_not_letters(x);
    let d = text::decimal(n);
    assert(d.last() == text::decimal_nat(x).last());
    if d.contains('g') {
        let k = choose|k: int| 0 <= k < d.len() && d[k] == 'g';
        if n < 0 {
            assert(k > 0 ==> d[k] == text::decimal_nat(x)[k - 1]);
        } else {
            assert(d[k] == text::decimal_nat(x)[k]);
        }
    }
}

/// A text ahead of the last `-g`, and what follows it, are read off the whole.
proof fn last_g_splits(a: Seq<char>, x: Seq<char>, b: Seq<char>, y: Seq<char>)
    requires
        !x.contains('g'),
        !y.contains('g'),
        a + "-g"@ + x == b + "-g"@ + y,
    ensures
        a == b,
        x == y,
{
    reveal_strlit("-g");
    let s = a + "-g"@ + x;
    let t = b + "-g"@ + y;
    let i = a.len() as int + 1;
    let j = b.len() as int + 1;
    assert(s[i] == 'g' && t[j] == 'g');
    assert((a + "-g"@).len() == i + 1 && (b + "-g"@).len() == j + 1);
    assert(s.len() == a.len() + 2 + x.len());
    assert(t.len() == b.len() + 2 + y.len());
    assert(s == t);
    if i < j {
        let k = j - i - 1;
        assert(0 <= k < x.len());
        assert(s[i + 1 + k] == x[k]);
        assert(x[k] == 'g');
    } else if j < i {
        let k = i - j - 1;
        assert(0 <= k < y.len());
        assert(t[j + 1 + k] == y[k]);
        assert(y[k] == 'g');
    }
    assert(a =~= s.take(a.len() as int));
    assert(b =~= t.take(b.len() as int));
    assert(x =~= s.skip(i + 1));
    assert(y =~= t.skip(j + 1));
}

/// Two representations share a tag only where they are the same: of the same
/// table, at the same version, with the same snapshots.
pub proof fn etag_tells_apart(
    uuid_a: Seq<char>,
    version_a: int,
    refs_a: bool,
    uuid_b: Seq<char>,
    version_b: int,
    refs_b: bool,
)
    requires
        etag_text(uuid_a, version_a, refs_a) == etag_text(uuid_b, version_b, refs_b),
    ensures
        uuid_a == uuid_b,
        version_a == version_b,
        refs_a == refs_b,
{
    reveal_strlit("\"");
    reveal_strlit("-g");
    reveal_strlit("-refs\"");
    decimal_holds_no_g(version_a);
    decimal_holds_no_g(version_b);
    let da = text::decimal(version_a);
    let db = text::decimal(version_b);
    let ta = etag_text(uuid_a, version_a, refs_a);
    let tb = etag_text(uuid_b, version_b, refs_b);
    let n = ta.len() as int;
    assert(ta[n - 2] == (if refs_a { 's' } else { da.last() }));
    assert(tb[n - 2] == (if refs_b { 's' } else { db.last() }));
    assert(refs_a == refs_b);
    let end: int = if refs_a { 6 } else { 1 };
    let q = "\""@;
    assert(ta.take(n - end) =~= (q + uuid_a) + "-g"@ + da);
    assert(tb.take(n - end) =~= (q + uuid_b) + "-g"@ + db);
    last_g_splits(q + uuid_a, da, q + uuid_b, db);
    assert((q + uuid_a).skip(1) =~= uuid_a);
    assert((q + uuid_b).skip(1) =~= uuid_b);
    decimal_tells_apart(version_a, version_b);
}

// ---------------------------------------------------------------------------
// Idempotency keys and query booleans
// ---------------------------------------------------------------------------

/// What an `Idempotency-Key` header says.
pub open spec fn key_of(header: Header) -> Result<Option<Seq<char>>, error::ErrorView> {
    match header {
        Header::Absent => Ok(None),
        Header::Opaque => Err(error::bad_request("Idempotency-Key must be visible ASCII"@)),
        Header::Text(raw) => {
            let key = text::trimmed(raw@);
            if key.len() == 0 || key.len() > MAX_IDEMPOTENCY_KEY_LEN {
                Err(error::bad_request("Idempotency-Key must be 1–255 characters"@))
            } else {
                Ok(Some(key))
            }
        },
    }
}

/// Reads the optional `Idempotency-Key` header.
pub fn idempotency_key(header: &Header) -> (r: Result<Option<String>, ApiError>)
    ensures
        match key_of(*header) {
            Ok(key) => r matches Ok(got) && text::opt_text(got) == key,
            Err(e) => error::fails_with(r, e),
        },
{
    match header {
        Header::Absent => Ok(None),
        Header::Opaque => Err(ApiError::bad_request("Idempotency-Key must be visible ASCII")),
        Header::Text(raw) => {
            let key = trim(raw.as_str());
            let count = text::char_count(key);
            if count == 0 || count > MAX_IDEMPOTENCY_KEY_LEN {
                Err(ApiError::bad_request("Idempotency-Key must be 1–255 characters"))
            } else {
                Ok(Some(key.to_owned()))
            }
        },
    }
}

/// What tells a request from any other: what its fingerprint is taken over.
#[derive(Debug)]
pub struct RequestIdentity {
    /// Which operation it is.
    pub endpoint: String,
    /// The prefix of its path.
    pub prefix: String,
    /// Its body, rendered, with what else of its path identifies it.
    pub body: String,
}

/// A request's identity, as texts.
pub struct IdentityView {
    /// Which operation it is.
    pub endpoint: Seq<char>,
    /// The prefix of its path.
    pub prefix: Seq<char>,
    /// Its body.
    pub body: Seq<char>,
}

impl View for RequestIdentity {
    type V = IdentityView;

    open spec fn view(&self) -> IdentityView {
        IdentityView { endpoint: self.endpoint@, prefix: self.prefix@, body: self.body@ }
    }
}

/// The identity of a request.
pub fn request_identity(endpoint: &str, prefix: &str, body: &str) -> (r: RequestIdentity)
    ensures
        r@ == (IdentityView { endpoint: endpoint@, prefix: prefix@, body: body@ }),
{
    RequestIdentity { endpoint: endpoint.to_owned(), prefix: prefix.to_owned(), body: body.to_owned() }
}

/// What identifies the commit of one table, below its prefix: the table, and
/// the body as it came.
#[derive(Debug)]
pub struct TableCommitBody {
    /// The levels of the namespace.
    pub namespace: Vec<String>,
    /// The table's name.
    pub name: String,
    /// The body, rendered.
    pub request: String,
}

/// What identifies the commit of one table, below its prefix.
pub fn table_commit_body(levels: &Vec<String>, name: &str, request: &str) -> (r: TableCommitBody)
    ensures
        text::texts(r.namespace@) == text::texts(levels@),
        r.name@ == name@,
        r.request@ == request@,
{
    TableCommitBody { namespace: text::copy_texts(levels), name: name.to_owned(), request: request.to_owned() }
}

/// The identity of the commit of one table; `body` is its rendered
/// `TableCommitBody`.
pub fn commit_table_identity(prefix: &str, body: &str) -> (r: RequestIdentity)
    ensures
        r@ == (IdentityView { endpoint: "commit-table"@, prefix: prefix@, body: body@ }),
{
    request_identity("commit-table", prefix, body)
}

/// The identity of a commit of several tables; `body` is its rendered body.
pub fn commit_transaction_identity(prefix: &str, body: &str) -> (r: RequestIdentity)
    ensures
        r@ == (IdentityView { endpoint: "commit-transaction"@, prefix: prefix@, body: body@ }),
{
    request_identity("commit-transaction", prefix, body)
}

/// A commit of one table and a commit of several never have one identity,
/// whatever their bodies hold.
pub proof fn identities_tell_the_operation(a: RequestIdentity, b: RequestIdentity)
    requires
        a@.endpoint == "commit-table"@,
        b@.endpoint == "commit-transaction"@,
    ensures
        a@ != b@,
{
    reveal_strlit("commit-table");
    reveal_strlit("commit-transaction");
    assert("commit-table"@.len() != "commit-transaction"@.len());
}

/// The refusal of a key that was used for another request.
pub open spec fn key_reuse(key: Seq<char>) -> error::ErrorView {
    error::error_of(
        ErrorKind::Unprocessable,
        "Idempotency-Key "@ + text::quoted(key) + " was already used for a different request"@,
    )
}

/// The refusal of a key that was used for another request.
pub fn key_reuse_error(key: &str) -> (r: ApiError)
    ensures
        r@ == key_reuse(key@),
{
    ApiError::new(
        ErrorKind::Unprocessable,
        cat3("Idempotency-Key ", quote(key).as_str(), " was already used for a different request").as_str(),
    )
}

/// A query-string boolean: one of two words, in any case of its letters.
pub open spec fn query_bool(raw: Seq<char>) -> Option<bool> {
    let word = text::ascii_lowered(raw);
    if word == "true"@ {
        Some(true)
    } else if word == "false"@ {
        Some(false)
    } else {
        None
    }
}

/// Reads a query-string boolean as clients write it.
pub fn lenient_query_bool(raw: &str) -> (r: Result<bool, String>)
    ensures
        match query_bool(raw@) {
            Some(b) => r == Ok::<bool, String>(b),
            None => r matches Err(message) && message@ == "invalid boolean "@ + text::quoted(
                text::ascii_lowered(raw@),
            ) + ": expected true or false"@,
        },
{
    let word = lowered_ascii(raw);
    let w = word.as_str();
    if same(w, "true") {
        Ok(true)
    } else if same(w, "false") {
        Ok(false)
    } else {
        Err(cat3("invalid boolean ", quote(w).as_str(), ": expected true or false"))
    }
}

// ---------------------------------------------------------------------------
// Requests
// ---------------------------------------------------------------------------

/// A table, named by its levels and its name.
#[derive(Debug)]
pub struct TableIdentifier {
    /// Namespace levels.
    pub namespace: Vec<String>,
    /// Table name.
    pub name: String,
}

/// The levels and the name that an identifier holds.
pub open spec fn identifier_text(id: TableIdentifier) -> (Seq<Seq<char>>, Seq<char>) {
    (text::texts(id.namespace@), id.name@)
}

/// The levels and the name of an optional identifier.
pub open spec fn opt_identifier(id: Option<TableIdentifier>) -> Option<(Seq<Seq<char>>, Seq<char>)> {
    match id {
        Some(id) => Some(identifier_text(id)),
        None => None,
    }
}

impl TableIdentifier {
    /// A copy of the identifier.
    pub fn copy(&self) -> (r: TableIdentifier)
        ensures
            identifier_text(r) == identifier_text(*self),
    {
        TableIdentifier { namespace: text::copy_texts(&self.namespace), name: self.name.clone() }
    }
}

/// Query parameters of the table listing.
#[derive(Debug)]
pub struct ListTablesQuery {
    /// Opaque continuation token from a previous response.
    pub page_token: Option<String>,
    /// Upper bound on the number of results.
    pub page_size: Option<i64>,
}

/// Request body to adopt an existing metadata file.
#[derive(Debug)]
pub struct RegisterTableRequest {
    /// Table name.
    pub name: String,
    /// Existing metadata file to adopt.
    pub metadata_location: String,
    /// Overwrite an existing table of the same name (not supported).
    pub overwrite: bool,
}

/// Request body to rename a table.
#[derive(Debug)]
pub struct RenameTableRequest {
    /// The existing table.
    pub source: TableIdentifier,
    /// The identifier to rename it to.
    pub destination: TableIdentifier,
}

/// Query parameters of a table drop.
#[derive(Debug)]
pub struct DropTableQuery {
    /// Whether to purge the table's data and metadata.
    pub purge_requested: bool,
}

/// Query parameters of a table load.
#[derive(Debug)]
pub struct LoadTableQuery {
    /// `all` (default) or `refs`: which snapshots are in the body.
    pub snapshots: Option<String>,
}

/// An element of a list of a commit request, which the table format's own
/// parser has read.
#[derive(Debug)]
pub struct TaggedValue {
    /// Its `type` or its `action`.
    pub tag: String,
    /// Its `uuid`, where it is an update that carries one.
    pub uuid: Option<String>,
}

/// A list of a commit request, as the request body has it.
#[derive(Debug)]
pub enum ListField {
    /// The body has no such field.
    Missing,
    /// The field is not an array.
    NotArray,
    /// Its elements, each as the table format's parser has read it, or what that
    /// parser finds wrong with it.
    Items(Vec<Result<TaggedValue, String>>),
}

/// The identifier of a commit request, as the request body has it.
#[derive(Debug)]
pub enum IdentifierField {
    /// The body has none, or a null.
    Absent,
    /// It is no identifier; the text says why.
    Invalid(String),
    /// The identifier.
    Is(TableIdentifier),
}

/// The body of a commit request.
#[derive(Debug)]
pub enum CommitBody {
    /// It is no JSON object.
    NotObject,
    /// Its three fields.
    Object {
        /// The table, where the body names it.
        identifier: IdentifierField,
        /// What must hold of the table.
        requirements: ListField,
        /// What to change.
        updates: ListField,
    },
}

/// What must hold of a table before a commit.
#[derive(Debug)]
pub enum TableRequirement {
    /// The table must not exist.
    AssertCreate,
    /// Another requirement, by its type.
    Other(String),
}

/// One change of a table.
#[derive(Debug)]
pub enum TableUpdate {
    /// Gives the table a UUID.
    AssignUuid(String),
    /// Another change, by its action.
    Other(String),
}

/// A commit request for one table.
#[derive(Debug)]
pub struct ParsedCommit {
    /// The table, where the body names it.
    pub identifier: Option<TableIdentifier>,
    /// What must hold of the table.
    pub requirements: Vec<TableRequirement>,
    /// What to change.
    pub updates: Vec<TableUpdate>,
}

/// What is wrong with an element of a list: what the parser says.
pub open spec fn element_fault(value: Result<TaggedValue, String>) -> Option<Seq<char>> {
    match value {
        Ok(_) => None,
        Err(fault) => Some(fault@),
    }
}

/// Whether `r` is the requirement that a sound element states.
pub open spec fn states_requirement(value: Result<TaggedValue, String>, r: TableRequirement) -> bool {
    value matches Ok(v) && (match r {
        TableRequirement::AssertCreate => v.tag@ == "assert-create"@,
        TableRequirement::Other(tag) => tag@ == v.tag@ && tag@ != "assert-create"@,
    })
}

/// Whether `u` is the change that a sound element states.
pub open spec fn states_update(value: Result<TaggedValue, String>, u: TableUpdate) -> bool {
    value matches Ok(v) && (match u {
        TableUpdate::AssignUuid(uuid) => v.tag@ == "assign-uuid"@ && (v.uuid matches Some(got) && uuid@ == got@),
        TableUpdate::Other(tag) => tag@ == v.tag@ && !(tag@ == "assign-uuid"@ && v.uuid is Some),
    })
}

/// The first fault of a list's elements, from place `from` on.
pub open spec fn first_fault(items: Seq<Result<TaggedValue, String>>, from: int) -> Option<Seq<char>>
    decreases items.len() - from,
{
    if from < 0 || from >= items.len() {
        None
    } else {
        match element_fault(items[from]) {
            Some(f) => Some(f),
            None => first_fault(items, from + 1),
        }
    }
}

/// The error of a list of a commit request.
pub open spec fn list_error(field: ListField, name: Seq<char>, what: Seq<char>) -> Option<error::ErrorView> {
    match field {
        ListField::Missing => Some(error::bad_request("commit request is missing '"@ + name + "'"@)),
        ListField::NotArray => Some(error::bad_request("'"@ + name + "' must be an array"@)),
        ListField::Items(items) => match first_fault(items@, 0) {
            Some(f) => Some(error::bad_request("unknown or invalid "@ + what + ": "@ + f)),
            None => None,
        },
    }
}

/// The error of a commit request: its shape, its identifier, its
/// requirements, then its updates.
pub open spec fn commit_body_error(body: CommitBody) -> Option<error::ErrorView> {
    match body {
        CommitBody::NotObject => Some(error::bad_request("commit request must be a JSON object"@)),
        CommitBody::Object { identifier, requirements, updates } => match identifier {
            IdentifierField::Invalid(why) => Some(error::bad_request("invalid table identifier: "@ + why@)),
            _ => match list_error(requirements, "requirements"@, "requirement"@) {
                Some(e) => Some(e),
                None => list_error(updates, "updates"@, "update"@),
            },
        },
    }
}

/// Whether `parsed` holds what a sound body states, element by element.
pub open spec fn states_commit(body: CommitBody, parsed: ParsedCommit) -> bool {
    match body {
        CommitBody::Object { identifier, requirements, updates } => {
            &&& opt_identifier(parsed.identifier) == (match identifier {
                IdentifierField::Is(id) => Some(identifier_text(id)),
                _ => None,
            })
            &&& requirements matches ListField::Items(items) && {
                &&& parsed.requirements@.len() == items@.len()
                &&& forall|i: int|
                    0 <= i < items@.len() ==> states_requirement(items@[i], #[trigger] parsed.requirements@[i])
            }
            &&& updates matches ListField::Items(items) && {
                &&& parsed.updates@.len() == items@.len()
                &&& forall|i: int| 0 <= i < items@.len() ==> states_update(items@[i], #[trigger] parsed.updates@[i])
            }
        },
        CommitBody::NotObject => false,
    }
}

fn requirement_of(value: &TaggedValue) -> (r: TableRequirement)
    ensures
        states_requirement(Ok(*value), r),
{
    if same(value.tag.as_str(), "assert-create") {
        TableRequirement::AssertCreate
    } else {
        TableRequirement::Other(value.tag.clone())
    }
}

fn update_of(value: &TaggedValue) -> (r: TableUpdate)
    ensures
        states_update(Ok(*value), r),
{
    match &value.uuid {
        Some(uuid) => if same(value.tag.as_str(), "assign-uuid") {
            TableUpdate::AssignUuid(uuid.clone())
        } else {
            TableUpdate::Other(value.tag.clone())
        },
        None => TableUpdate::Other(value.tag.clone()),
    }
}

fn requirements_of(field: &ListField) -> (r: Result<Vec<TableRequirement>, ApiError>)
    ensures
        match list_error(*field, "requirements"@, "requirement"@) {
            Some(e) => error::fails_with(r, e),
            None => {
                &&& r matches Ok(out)
                &&& field matches ListField::Items(items) && {
                    &&& out@.len() == items@.len()
                    &&& forall|i: int| 0 <= i < items@.len() ==> states_requirement(items@[i], #[trigger] out@[i])
                }
            },
        },
{
    match field {
        ListField::Missing => Err(
            ApiError::bad_request(cat3("commit request is missing '", "requirements", "'").as_str()),
        ),
        ListField::NotArray => Err(ApiError::bad_request(cat3("'", "requirements", "' must be an array").as_str())),
        ListField::Items(items) => {
            let mut out: Vec<TableRequirement> = Vec::new();
            let mut i: usize = 0;
            while i < items.len()
                invariant
                    i <= items@.len(),
                    *field == ListField::Items(*items),
                    out@.len() == i,
                    first_fault(items@, 0) == first_fault(items@, i as int),
                    forall|j: int| 0 <= j < i ==> states_requirement(items@[j], #[trigger] out@[j]),
                decreases items@.len() - i,
            {
                match &items[i] {
                    Ok(value) => out.push(requirement_of(value)),
                    Err(f) => {
                        return Err(ApiError::bad_request(
                            cat4("unknown or invalid ", "requirement", ": ", f.as_str()).as_str(),
                        ));
                    },
                }
                i = i + 1;
            }
            Ok(out)
        },
    }
}

fn updates_of(field: &ListField) -> (r: Result<Vec<TableUpdate>, ApiError>)
    ensures
        match list_error(*field, "updates"@, "update"@) {
            Some(e) => error::fails_with(r, e),
            None => {
                &&& r matches Ok(out)
                &&& field matches ListField::Items(items) && {
                    &&& out@.len() == items@.len()
                    &&& forall|i: int| 0 <= i < items@.len() ==> states_update(items@[i], #[trigger] out@[i])
                }
            },
        },
{
    match field {
        ListField::Missing => Err(ApiError::bad_request(cat3("commit request is missing '", "updates", "'").as_str())),
        ListField::NotArray => Err(ApiError::bad_request(cat3("'", "updates", "' must be an array").as_str())),
        ListField::Items(items) => {
            let mut out: Vec<TableUpdate> = Vec::new();
            let mut i: usize = 0;
            while i < items.len()
                invariant
                    i <= items@.len(),
                    *field == ListField::Items(*items),
                    out@.len() == i,
                    first_fault(items@, 0) == first_fault(items@, i as int),
                    forall|j: int| 0 <= j < i ==> states_update(items@[j], #[trigger] out@[j]),
                decreases items@.len() - i,
            {
                match &items[i] {
                    Ok(value) => out.push(update_of(value)),
                    Err(f) => {
                        return Err(ApiError::bad_request(
                            cat4("unknown or invalid ", "update", ": ", f.as_str()).as_str(),
                        ));
                    },
                }
                i = i + 1;
            }
            Ok(out)
        },
    }
}

/// Reads a commit request. A requirement or an update that the table format
/// does not know, or that is not well-formed, is a 400 with its parser's words.
pub fn parse_commit_request(body: &CommitBody) -> (r: Result<ParsedCommit, ApiError>)
    ensures
        match commit_body_error(*body) {
            Some(e) => error::fails_with(r, e),
            None => r matches Ok(parsed) && states_commit(*body, parsed),
        },
{
    match body {
        CommitBody::NotObject => Err(ApiError::bad_request("commit request must be a JSON object")),
        CommitBody::Object { identifier, requirements, updates } => {
            let id = match identifier {
                IdentifierField::Invalid(why) => {
                    return Err(ApiError::bad_request(cat2("invalid table identifier: ", why.as_str()).as_str()));
                },
                IdentifierField::Absent => None,
                IdentifierField::Is(id) => Some(id.copy()),
            };
            let wanted = match requirements_of(requirements) {
                Ok(out) => out,
                Err(e) => { return Err(e); },
            };
            let changes = match updates_of(updates) {
                Ok(out) => out,
                Err(e) => { return Err(e); },
            };
            Ok(ParsedCommit { identifier: id, requirements: wanted, updates: changes })
        },
    }
}

/// No commit goes through with a requirement that the parser refuses.
pub proof fn unknown_requirement_is_refused(
    identifier: IdentifierField,
    items: Vec<Result<TaggedValue, String>>,
    updates: ListField,
    i: int,
)
    requires
        0 <= i < items@.len(),
        items@[i] is Err,
    ensures
        commit_body_error(CommitBody::Object { identifier, requirements: ListField::Items(items), updates }) is Some,
{
    a_fault_is_found(items@, 0, i);
}

/// No commit goes through with an update that the parser refuses.
pub proof fn unknown_update_is_refused(
    identifier: IdentifierField,
    requirements: ListField,
    items: Vec<Result<TaggedValue, String>>,
    i: int,
)
    requires
        0 <= i < items@.len(),
        items@[i] is Err,
    ensures
        commit_body_error(CommitBody::Object { identifier, requirements, updates: ListField::Items(items) }) is Some,
{
    a_fault_is_found(items@, 0, i);
}

proof fn a_fault_is_found(items: Seq<Result<TaggedValue, String>>, from: int, i: int)
    requires
        0 <= from <= i < items.len(),
        items[i] is Err,
    ensures
        first_fault(items, from) is Some,
    decreases i - from,
{
    if from < i && items[from] is Ok {
        a_fault_is_found(items, from + 1, i);
    }
}

/// Whether the commit asserts that the table does not exist.
pub open spec fn asserts_create(parsed: ParsedCommit) -> bool {
    exists|i: int| 0 <= i < parsed.requirements@.len() && (#[trigger] parsed.requirements@[i]) is AssertCreate
}

/// Whether the commit asserts that the table does not exist.
pub fn has_assert_create(parsed: &ParsedCommit) -> (r: bool)
    ensures
        r == asserts_create(*parsed),
{
    let mut i: usize = 0;
    while i < parsed.requirements.len()
        invariant
            i <= parsed.requirements@.len(),
            forall|j: int| 0 <= j < i ==> !((#[trigger] parsed.requirements@[j]) is AssertCreate),
        decreases parsed.requirements@.len() - i,
    {
        match &parsed.requirements[i] {
            TableRequirement::AssertCreate => {
                assert(parsed.requirements@[i as int] is AssertCreate);
                return true;
            },
            TableRequirement::Other(_) => {},
        }
        i = i + 1;
    }
    false
}

/// The first UUID that the updates from place `from` on assign.
pub open spec fn first_assigned(updates: Seq<TableUpdate>, from: int) -> Option<Seq<char>>
    decreases updates.len() - from,
{
    if from < 0 || from >= updates.len() {
        None
    } else {
        match updates[from] {
            TableUpdate::AssignUuid(uuid) => Some(uuid@),
            TableUpdate::Other(_) => first_assigned(updates, from + 1),
        }
    }
}

/// The UUID of the table that a commit creates: the first that its updates
/// assign, else a fresh one.
pub fn created_uuid(parsed: &ParsedCommit, fresh: String) -> (r: String)
    ensures
        r@ == (match first_assigned(parsed.updates@, 0) {
            Some(uuid) => uuid,
            None => fresh@,
        }),
{
    let mut i: usize = 0;
    while i < parsed.updates.len()
        invariant
            i <= parsed.updates@.len(),
            first_assigned(parsed.updates@, 0) == first_assigned(parsed.updates@, i as int),
        decreases parsed.updates@.len() - i,
    {
        match &parsed.updates[i] {
            TableUpdate::AssignUuid(uuid) => { return uuid.clone(); },
            TableUpdate::Other(_) => {},
        }
        i = i + 1;
    }
    fresh
}

/// A request without the header has no idempotency key. One with it has what the
/// header holds, without the blanks around it, where that is one to 255
/// characters; anything else is a bad request.
pub proof fn keys_are_read(header: Header)
    ensures
        match key_of(header) {
            Ok(None) => header is Absent,
            Ok(Some(key)) => (header matches Header::Text(raw) && key == text::trimmed(raw@)) && 1 <= key.len() <= 255,
            Err(e) => e.kind == ErrorKind::BadRequest && !(header is Absent) && (header matches Header::Text(raw)
                ==> text::trimmed(raw@).len() == 0 || text::trimmed(raw@).len() > 255),
        },
{
}

/// A key that was used for another request cannot be processed.
pub proof fn reused_keys_are_unprocessable(key: Seq<char>)
    ensures
        key_reuse(key).kind == ErrorKind::Unprocessable,
{
}

/// A table name is accepted exactly where it holds something and no unit
/// separator; any other is a bad request.
pub proof fn table_names_are_judged(name: Seq<char>)
    ensures
        table_name_error(name) is None <==> name.len() > 0 && !name.contains('\u{1f}'),
        table_name_error(name) matches Some(e) ==> e.kind == ErrorKind::BadRequest,
{
}

/// A foreign table or warehouse is read-only, and a native one is not.
pub proof fn foreign_things_are_read_only(record: TableRecord, ident: Seq<char>, warehouse: WarehouseRecord)
    ensures
        foreign_table_error(record, ident) is None <==> record.mirror_id is None,
        foreign_table_error(record, ident) matches Some(e) ==> e.kind == ErrorKind::ForeignReadOnly,
        foreign_warehouse_error(warehouse) is None <==> !warehouse.foreign,
        foreign_warehouse_error(warehouse) matches Some(e) ==> e.kind == ErrorKind::ForeignReadOnly,
{
}

/// A query word is true or false, whatever the case of its letters, and nothing
/// else is either.
pub proof fn query_words_are_read(raw: Seq<char>)
    ensures
        query_bool(raw) == Some(true) <==> text::ascii_lowered(raw) == "true"@,
        query_bool(raw) == Some(false) <==> text::ascii_lowered(raw) == "false"@,
{
    reveal_strlit("true");
    reveal_strlit("false");
    assert("true"@.len() == 4 && "false"@.len() == 5);
}

/// Whether every element of the list could be read.
pub open spec fn all_sound(field: ListField) -> bool {
    field matches ListField::Items(items) && forall|i: int| 0 <= i < items@.len() ==> (#[trigger] items@[i]) is Ok
}

proof fn faults_are_found(items: Seq<Result<TaggedValue, String>>, from: int)
    requires
        0 <= from,
    ensures
        first_fault(items, from) is None <==> forall|i: int| from <= i < items.len() ==> (#[trigger] items[i]) is Ok,
    decreases items.len() - from,
{
    if from < items.len() && items[from] is Ok {
        faults_are_found(items, from + 1);
    }
}

/// A commit body is taken exactly where it is an object, its identifier, where
/// it has one, is sound, and it has requirements and updates that can all be
/// read; any other is a bad request.
pub proof fn commit_bodies_are_judged(body: CommitBody)
    ensures
        commit_body_error(body) is None <==> match body {
            CommitBody::NotObject => false,
            CommitBody::Object { identifier, requirements, updates } => !(identifier is Invalid) && all_sound(
                requirements,
            ) && all_sound(updates),
        },
        commit_body_error(body) matches Some(e) ==> e.kind == ErrorKind::BadRequest,
{
    if let CommitBody::Object { identifier, requirements, updates } = body {
        if let ListField::Items(items) = requirements {
            faults_are_found(items@, 0);
        }
        if let ListField::Items(items) = updates {
            faults_are_found(items@, 0);
        }
    }
}

/// A tag of the header matches whether it is marked weak or not, and whether it
/// is alone or one of several; a star matches everything.
pub proof fn any_candidate_matches(raw: Seq<char>, etag: Seq<char>, i: int)
    requires
        0 <= i < text::split_on(raw, ',').len(),
        text::trimmed(text::split_on(raw, ',')[i]) == "*"@ || bare_tag(text::split_on(raw, ',')[i]) == bare_tag(etag),
    ensures
        header_matches(raw, etag),
{
    assert(candidate_matches(text::split_on(raw, ',')[i], etag));
}

/// The UUID that updates assign is that of the first of them that assigns one;
/// where none does, none is assigned.
pub proof fn first_assignments_win(updates: Seq<TableUpdate>, i: int, uuid: String)
    ensures
        0 <= i < updates.len() && updates[i] == TableUpdate::AssignUuid(uuid) && (forall|j: int|
            0 <= j < i ==> !((#[trigger] updates[j]) is AssignUuid)) ==> first_assigned(updates, 0) == Some(uuid@),
        (forall|j: int| 0 <= j < updates.len() ==> !((#[trigger] updates[j]) is AssignUuid)) ==> first_assigned(
            updates,
            0,
        ) is None,
{
    assigned_from(updates, 0, i, uuid);
}

proof fn assigned_from(updates: Seq<TableUpdate>, from: int, i: int, uuid: String)
    requires
        0 <= from,
    ensures
        from <= i < updates.len() && updates[i] == TableUpdate::AssignUuid(uuid) && (forall|j: int|
            from <= j < i ==> !((#[trigger] updates[j]) is AssignUuid)) ==> first_assigned(updates, from) == Some(uuid@),
        (forall|j: int| from <= j < updates.len() ==> !((#[trigger] updates[j]) is AssignUuid)) ==> first_assigned(
            updates,
            from,
        ) is None,
    decreases updates.len() - from,
{
    if from < updates.len() {
        assigned_from(updates, from + 1, i, uuid);
    }
}

/// A table's default location lies under the warehouse's root, one directory for
/// each level, and ends in its name and its UUID.
pub proof fn locations_lie_under_the_root(root: Seq<char>, levels: Seq<Seq<char>>, name: Seq<char>, uuid: Seq<char>)
    requires
        root.len() > 0 && root.last() != '/',
        text::join_with(levels, "/"@).len() > 0,
    ensures
        default_location(root, levels, name, uuid) == root + "/"@ + text::join_with(levels, "/"@) + "/"@ + name + "-"@
            + uuid,
        default_location(root.push('/'), levels, name, uuid) == default_location(root, levels, name, uuid),
{
    assert(root.push('/').drop_last() =~= root);
}

} // verus!
