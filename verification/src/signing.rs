//! Remote signing: which requests to a table's storage are signed, what the
//! audit trail keeps of each decision, and how clients learn of the route.

use vstd::prelude::*;

use crate::assets::AccessMode;
use crate::error;
use crate::error::{ApiError, ErrorKind};
use crate::grants::Found;
use crate::namespaces;
use crate::namespaces::decode_namespace_param;
use crate::tables;
use crate::tables::{current_metadata_unreadable, no_such_table, TableRecord, WarehouseRecord};
use crate::text;
use crate::text::{
    before_suffix, blank, cat2, cat3, cat5, copy_texts, join, lowered_ascii, quote, same, same_ignoring_case, split_once,
    to_chars,
};
use crate::textmap;
use crate::textmap::TextMap;

verus! {

/// How many keys of a signed request the audit trail keeps.
pub const AUDITED_KEYS_MAX: usize = 25;

/// How many locations are kept before all are forgotten.
pub const LOCATION_CACHE_MAX: usize = 16384;

// ---------------------------------------------------------------------------
// Percent encoding
// ---------------------------------------------------------------------------

/// An upper-case hex digit.
pub open spec fn upper_hex(d: int) -> char {
    if d < 10 {
        (d + 0x30) as char
    } else {
        (d + 0x37) as char
    }
}

/// Whether a byte is an ASCII letter or digit.
pub open spec fn is_alnum_byte(b: u8) -> bool {
    0x30 <= b <= 0x39 || 0x41 <= b <= 0x5a || 0x61 <= b <= 0x7a
}

/// The bytes, each letter or digit as itself, any other as `%` and its two hex
/// digits.
pub open spec fn percent_text(bytes: Seq<u8>) -> Seq<char>
    decreases bytes.len(),
{
    if bytes.len() == 0 {
        seq![]
    } else {
        let b = bytes.last();
        percent_text(bytes.drop_last()) + (if is_alnum_byte(b) {
            seq![b as char]
        } else {
            seq!['%', upper_hex(b as int / 16), upper_hex(b as int % 16)]
        })
    }
}

/// `percent_encoding::utf8_percent_encode` with the set `NON_ALPHANUMERIC`,
/// rendered by its `Display`: every byte of the text that is not an ASCII
/// letter or digit becomes `%` and two upper-case hex digits.
#[verifier::external_body]
fn percent_encode(s: &str) -> (r: String)
    ensures
        r@ == percent_text(vstd::utf8::encode_utf8(s@)),
{
    percent_encoding::utf8_percent_encode(s, percent_encoding::NON_ALPHANUMERIC).to_string()
}

/// Whether a character stands for itself in a path segment beside letters and
/// digits.
pub open spec fn is_unreserved(c: char) -> bool {
    c == '-' || c == '_' || c == '.' || c == '~'
}

/// A text as one segment of a path: `-`, `_`, `.` and `~` as they are,
/// everything else percent-encoded.
pub open spec fn segment_text(s: Seq<char>) -> Seq<char>
    decreases s.len(),
{
    if s.len() == 0 {
        seq![]
    } else {
        let c = s.last();
        segment_text(s.drop_last()) + (if is_unreserved(c) {
            seq![c]
        } else {
            percent_text(vstd::utf8::encode_utf8(seq![c]))
        })
    }
}

/// A text as one segment of a path.
pub fn segment(s: &str) -> (r: String)
    ensures
        r@ == segment_text(s@),
{
    let chars = to_chars(s);
    let mut out = String::new();
    let mut i: usize = 0;
    assert(s@.take(0) =~= Seq::<char>::empty());
    assert(out@ =~= Seq::<char>::empty());
    while i < chars.len()
        invariant
            i <= chars@.len(),
            chars@ == s@,
            out@ == segment_text(s@.take(i as int)),
        decreases chars@.len() - i,
    {
        let c = chars[i];
        assert(s@.take(i + 1).drop_last() =~= s@.take(i as int));
        if c == '-' || c == '_' || c == '.' || c == '~' {
            let ghost before = out@;
            out.push(c);
            assert(out@ =~= before + seq![c]);
        } else {
            let mut one = String::new();
            one.push(c);
            assert(one@ =~= seq![c]);
            out = cat2(out.as_str(), percent_encode(one.as_str()).as_str());
        }
        i = i + 1;
    }
    assert(s@.take(s@.len() as int) =~= s@);
    out
}

proof fn percent_text_is_safe(bytes: Seq<u8>, i: int)
    requires
        0 <= i < percent_text(bytes).len(),
    ensures
        percent_text(bytes)[i] == '%' || text::is_alnum(percent_text(bytes)[i]),
    decreases bytes.len(),
{
    if bytes.len() > 0 {
        if i < percent_text(bytes.drop_last()).len() {
            percent_text_is_safe(bytes.drop_last(), i);
        }
    }
}

/// A segment holds no slash and no other character that would end it: only
/// letters, digits, `-`, `_`, `.`, `~` and `%`.
pub proof fn segments_stay_whole(s: Seq<char>, i: int)
    requires
        0 <= i < segment_text(s).len(),
    ensures
        ({
            let c = segment_text(s)[i];
            c == '%' || is_unreserved(c) || text::is_alnum(c)
        }),
    decreases s.len(),
{
    if s.len() > 0 {
        let front = segment_text(s.drop_last());
        if i < front.len() {
            segments_stay_whole(s.drop_last(), i);
        } else if !is_unreserved(s.last()) {
            percent_text_is_safe(vstd::utf8::encode_utf8(seq![s.last()]), i - front.len());
        }
    }
}

// ---------------------------------------------------------------------------
// Storage options
// ---------------------------------------------------------------------------

/// What the credential service says of a warehouse and a table, beside what
/// the routes read themselves.
#[derive(Debug)]
pub struct SigningMeans {
    /// Whether the warehouse's options opt into vending, or why they cannot be
    /// read.
    pub vending: Result<bool, String>,
    /// Whether a signer can be made of the warehouse's keys, or why not.
    pub signer: Result<(), String>,
    /// Whether the table's location is one that can be signed for, or why not.
    pub scope: Result<(), String>,
}

/// Whether a warehouse holds the keys that signing needs.
pub open spec fn holds_keys(options: Map<Seq<char>, String>) -> bool {
    options.dom().contains("access-key-id"@) && options.dom().contains("secret-access-key"@)
}

/// The refusal of a warehouse without keys.
pub open spec fn keys_missing(name: Seq<char>) -> error::ErrorView {
    error::bad_request(
        "remote signing requires warehouse "@ + text::quoted(name)
            + " to configure the access-key-id and secret-access-key storage options"@,
    )
}

fn require_keys(warehouse: &WarehouseRecord) -> (r: Result<(), ApiError>)
    ensures
        if holds_keys(warehouse.storage_config@) {
            r is Ok
        } else {
            error::fails_with(r, keys_missing(warehouse.name@))
        },
{
    if warehouse.storage_config.has("access-key-id") && warehouse.storage_config.has("secret-access-key") {
        return Ok(());
    }
    Err(ApiError::bad_request(
        cat3(
            "remote signing requires warehouse ",
            quote(warehouse.name.as_str()).as_str(),
            " to configure the access-key-id and secret-access-key storage options",
        ).as_str(),
    ))
}

/// The refusal of a warehouse whose keys make no signer.
pub open spec fn signer_error(warehouse: WarehouseRecord, signer: Result<(), String>) -> Option<error::ErrorView> {
    if !holds_keys(warehouse.storage_config@) {
        Some(keys_missing(warehouse.name@))
    } else {
        match signer {
            Ok(_) => None,
            Err(detail) => Some(error::bad_request(detail@)),
        }
    }
}

/// Refuses a warehouse without the keys that signing needs, and one whose keys
/// make no signer.
pub fn signer_from_warehouse(warehouse: &WarehouseRecord, signer: &Result<(), String>) -> (r: Result<(), ApiError>)
    ensures
        match signer_error(*warehouse, *signer) {
            Some(e) => error::fails_with(r, e),
            None => r is Ok,
        },
{
    match require_keys(warehouse) {
        Err(e) => { return Err(e); },
        Ok(()) => {},
    }
    match signer {
        Ok(_) => Ok(()),
        Err(detail) => Err(ApiError::bad_request(detail.as_str())),
    }
}

// ---------------------------------------------------------------------------
// The advertisement
// ---------------------------------------------------------------------------

/// The segments of levels.
pub open spec fn level_segments(levels: Seq<Seq<char>>) -> Seq<Seq<char>> {
    levels.map_values(|l: Seq<char>| segment_text(l))
}

/// The path of a table's sign route, relative to the catalog.
pub open spec fn sign_path(prefix: Seq<char>, levels: Seq<Seq<char>>, table: Seq<char>) -> Seq<char> {
    "v1/"@ + segment_text(prefix) + "/namespaces/"@ + text::join_with(level_segments(levels), "%1F"@) + "/tables/"@
        + segment_text(table) + "/sign"@
}

/// Whether signing is on for a table: its warehouse opts into vending and holds
/// keys that make a signer, and the table's location can be signed for.
pub open spec fn signs(warehouse: WarehouseRecord, means: SigningMeans) -> bool {
    means.vending == Ok::<bool, String>(true) && signer_error(warehouse, means.signer) is None && means.scope is Ok
}

/// The properties that turn a client to the sign route.
pub open spec fn signing_properties(path: Seq<char>) -> Map<Seq<char>, Seq<char>> {
    Map::empty().insert("s3.remote-signing-enabled"@, "true"@).insert("s3.signer.endpoint"@, path).insert(
        "s3.signer"@,
        "S3V4RestSigner"@,
    )
}

fn endpoint_of(prefix: &str, levels: &Vec<String>, table: &str) -> (r: String)
    ensures
        r@ == sign_path(prefix@, text::texts(levels@), table@),
{
    let mut segments: Vec<String> = Vec::new();
    let mut i: usize = 0;
    while i < levels.len()
        invariant
            i <= levels@.len(),
            text::texts(segments@) == level_segments(text::texts(levels@.take(i as int))),
        decreases levels@.len() - i,
    {
        let ghost before = segments@;
        segments.push(segment(levels[i].as_str()));
        assert(text::texts(segments@) =~= text::texts(before).push(segment_text(levels@[i as int]@)));
        assert(level_segments(text::texts(levels@.take(i + 1))) =~= level_segments(
            text::texts(levels@.take(i as int)),
        ).push(segment_text(levels@[i as int]@)));
        i = i + 1;
    }
    assert(levels@.take(levels@.len() as int) =~= levels@);
    let head = cat5(
        "v1/",
        segment(prefix).as_str(),
        "/namespaces/",
        join(&segments, "%1F").as_str(),
        "/tables/",
    );
    cat3(head.as_str(), segment(table).as_str(), "/sign")
}

/// The client properties that switch a table onto remote signing; none where
/// it cannot be signed for.
pub fn remote_signing_config(
    warehouse: &WarehouseRecord,
    prefix: &str,
    levels: &Vec<String>,
    table: &str,
    means: &SigningMeans,
) -> (r: Option<TextMap<String>>)
    ensures
        r is Some == signs(*warehouse, *means),
        r matches Some(map) ==> textmap::text_values(map@) == signing_properties(
            sign_path(prefix@, text::texts(levels@), table@),
        ),
{
    let on = match &means.vending {
        Ok(b) => *b,
        Err(_) => false,
    };
    if !on || signer_from_warehouse(warehouse, &means.signer).is_err() || means.scope.is_err() {
        return None;
    }
    let endpoint = endpoint_of(prefix, levels, table);
    let a: TextMap<String> = TextMap::new().with("s3.remote-signing-enabled", "true".to_owned());
    let ghost ma = a@;
    let b = a.with("s3.signer.endpoint", endpoint);
    let ghost mb = b@;
    let c = b.with("s3.signer", "S3V4RestSigner".to_owned());
    assert(textmap::text_values(ma) =~= Map::<Seq<char>, Seq<char>>::empty().insert(
        "s3.remote-signing-enabled"@,
        "true"@,
    ));
    assert(textmap::text_values(mb) =~= textmap::text_values(ma).insert("s3.signer.endpoint"@, endpoint@));
    assert(textmap::text_values(c@) =~= textmap::text_values(mb).insert("s3.signer"@, "S3V4RestSigner"@));
    Some(c)
}

// ---------------------------------------------------------------------------
// Endpoints
// ---------------------------------------------------------------------------

/// What stands before the first `/` or `?`.
pub open spec fn host_part(s: Seq<char>) -> Seq<char>
    decreases s.len(),
{
    if s.len() == 0 || s[0] == '/' || s[0] == '?' {
        seq![]
    } else {
        seq![s[0]] + host_part(s.drop_first())
    }
}

/// An authority without the port that its scheme has anyway.
pub open spec fn without_default_port(scheme: Seq<char>, authority: Seq<char>) -> Seq<char> {
    if scheme == "http"@ && text::ends_in(authority, ":80"@) {
        authority.take(authority.len() - ":80"@.len())
    } else if scheme == "https"@ && text::ends_in(authority, ":443"@) {
        authority.take(authority.len() - ":443"@.len())
    } else {
        authority
    }
}

/// The authority of a URL, in lower case.
pub open spec fn authority_text(url: Seq<char>) -> Option<Seq<char>> {
    match text::first_place(url, "://"@, 0) {
        None => None,
        Some(i) => Some(
            without_default_port(
                text::ascii_lowered(url.take(i)),
                text::ascii_lowered(host_part(url.skip(i + "://"@.len()))),
            ),
        ),
    }
}

fn host_of<'a>(s: &'a str) -> (r: &'a str)
    ensures
        r@ == host_part(s@),
{
    let chars = to_chars(s);
    let mut i: usize = 0;
    assert(s@.skip(0) =~= s@);
    assert(s@.take(0) + host_part(s@.skip(0)) =~= host_part(s@));
    while i < chars.len() && chars[i] != '/' && chars[i] != '?'
        invariant
            i <= chars@.len(),
            chars@ == s@,
            host_part(s@) == s@.take(i as int) + host_part(s@.skip(i as int)),
        decreases chars@.len() - i,
    {
        assert(s@.skip(i as int).drop_first() =~= s@.skip(i + 1));
        assert(s@.skip(i as int)[0] == s@[i as int]);
        assert(s@.take(i as int) + (seq![s@[i as int]] + host_part(s@.skip(i + 1))) =~= s@.take(i + 1) + host_part(
            s@.skip(i + 1),
        ));
        i = i + 1;
    }
    assert(host_part(s@.skip(i as int)) =~= Seq::<char>::empty());
    assert(host_part(s@) =~= s@.take(i as int));
    s.substring_char(0, i)
}

/// The authority of an endpoint URL, in lower case and without a default port.
pub fn authority_of(url: &str) -> (r: Option<String>)
    ensures
        text::opt_text(r) == authority_text(url@),
{
    let (scheme, rest) = match split_once(url, "://") {
        None => { return None; },
        Some(parts) => parts,
    };
    let authority = lowered_ascii(host_of(rest));
    let scheme = lowered_ascii(scheme);
    if same(scheme.as_str(), "http") {
        match before_suffix(authority.as_str(), ":80") {
            Some(bare) => { return Some(bare.to_owned()); },
            None => {},
        }
    } else if same(scheme.as_str(), "https") {
        match before_suffix(authority.as_str(), ":443") {
            Some(bare) => { return Some(bare.to_owned()); },
            None => {},
        }
    }
    proof {
        reveal_strlit("http");
        reveal_strlit("https");
        assert("http"@.len() != "https"@.len());
    }
    Some(authority)
}

/// The authority of an option, as a list.
pub open spec fn option_authority(options: Map<Seq<char>, String>, key: Seq<char>) -> Seq<Seq<char>> {
    if options.dom().contains(key) {
        match authority_text(options[key]@) {
            Some(a) => seq![a],
            None => seq![],
        }
    } else {
        seq![]
    }
}

/// The authorities of a warehouse's storage endpoints: the one it uses, then
/// the one that clients use.
pub fn endpoint_authorities(options: &TextMap<String>) -> (r: Vec<String>)
    ensures
        text::texts(r@) == option_authority(options@, "endpoint"@) + option_authority(options@, "endpoint.external"@),
{
    let mut out: Vec<String> = Vec::new();
    let ghost first = option_authority(options@, "endpoint"@);
    match options.get("endpoint") {
        None => {},
        Some(url) => match authority_of(url.as_str()) {
            None => {},
            Some(a) => out.push(a),
        },
    }
    assert(text::texts(out@) =~= first);
    let ghost before = out@;
    match options.get("endpoint.external") {
        None => {},
        Some(url) => match authority_of(url.as_str()) {
            None => {},
            Some(a) => out.push(a),
        },
    }
    assert(text::texts(out@) =~= first + option_authority(options@, "endpoint.external"@));
    out
}

// ---------------------------------------------------------------------------
// Locations
// ---------------------------------------------------------------------------

/// The table locations that were read lately, each with the pointer version it
/// was read at.
#[derive(Debug)]
pub struct LocationCache {
    entries: TextMap<(i64, String)>,
}

impl View for LocationCache {
    type V = Map<Seq<char>, (i64, String)>;

    closed spec fn view(&self) -> Map<Seq<char>, (i64, String)> {
        self.entries@
    }
}

/// The location that is kept for a table at a version.
pub open spec fn kept_location(cache: Map<Seq<char>, (i64, String)>, id: Seq<char>, version: i64) -> Option<String> {
    if cache.dom().contains(id) && cache[id].0 == version {
        Some(cache[id].1)
    } else {
        None
    }
}

impl LocationCache {
    /// How many locations are kept.
    pub closed spec fn kept(&self) -> nat {
        self.entries.pairs().len()
    }

    /// A cache without locations.
    pub fn new() -> (r: LocationCache)
        ensures
            r@ == Map::<Seq<char>, (i64, String)>::empty(),
            r.kept() == 0,
    {
        LocationCache { entries: TextMap::new() }
    }

    /// The location of a table, where it was kept for the version that the
    /// pointer has now.
    pub fn find(&self, id: &str, version: i64) -> (r: Option<String>)
        ensures
            r == kept_location(self@, id@, version),
    {
        match self.entries.get(id) {
            None => None,
            Some(entry) => if entry.0 == version { Some(entry.1.clone()) } else { None },
        }
    }

    /// The cache with one location more. A cache that is full forgets all
    /// others first.
    pub fn keep(self, id: &str, version: i64, location: String) -> (r: LocationCache)
        ensures
            r@ == (if self.kept() >= LOCATION_CACHE_MAX {
                Map::<Seq<char>, (i64, String)>::empty()
            } else {
                self@
            }).insert(id@, (version, location)),
            r.kept() <= LOCATION_CACHE_MAX,
    {
        let entries = if self.entries.len() >= LOCATION_CACHE_MAX { TextMap::new() } else { self.entries };
        LocationCache { entries: entries.with(id, (version, location)) }
    }
}

/// A location that was kept is found again, but never for another version of
/// the table's pointer.
pub proof fn kept_locations_are_never_stale(
    cache: Map<Seq<char>, (i64, String)>,
    id: Seq<char>,
    version: i64,
    location: String,
    other: i64,
)
    ensures
        kept_location(cache.insert(id, (version, location)), id, version) == Some(location),
        other != version ==> kept_location(cache.insert(id, (version, location)), id, other) is None,
{
}

/// The next step of finding a table's location.
#[derive(Debug)]
pub enum LocationStep {
    /// The location.
    Known(String),
    /// Read the metadata at this place; the location is in it.
    Read(String),
}

/// The step of finding a table's location.
pub open spec fn location_step(record: TableRecord, cache: Map<Seq<char>, (i64, String)>) -> Result<
    LocationStep,
    error::ErrorView,
> {
    match record.metadata_location {
        None => Err(
            error::error_of(
                ErrorKind::NoSuchTable,
                "table "@ + text::quoted(record.name@) + " has no committed metadata"@,
            ),
        ),
        Some(at) => match kept_location(cache, record.id@, record.pointer_version) {
            Some(location) => Ok(LocationStep::Known(location)),
            None => Ok(LocationStep::Read(at)),
        },
    }
}

/// Takes the first step of finding a table's location: the cache, where it
/// holds the location for the pointer's version, else the metadata.
pub fn table_location(record: &TableRecord, cache: &LocationCache) -> (r: Result<LocationStep, ApiError>)
    ensures
        error::outcome(r) == location_step(*record, cache@),
{
    let at = match &record.metadata_location {
        None => {
            return Err(ApiError::new(
                ErrorKind::NoSuchTable,
                cat3("table ", quote(record.name.as_str()).as_str(), " has no committed metadata").as_str(),
            ));
        },
        Some(at) => at,
    };
    match cache.find(record.id.as_str(), record.pointer_version) {
        Some(location) => Ok(LocationStep::Known(location)),
        None => Ok(LocationStep::Read(at.clone())),
    }
}

// ---------------------------------------------------------------------------
// The sign route
// ---------------------------------------------------------------------------

/// Request body of the sign route.
#[derive(Debug)]
pub struct RemoteSignRequestBody {
    /// The region of the signature.
    pub region: String,
    /// The URI that the client will send.
    pub uri: String,
    /// The method.
    pub method: String,
    /// The headers that the client will send.
    pub headers: TextMap<Vec<String>>,
    /// The body.
    pub body: Option<String>,
    /// The storage provider.
    pub provider: Option<String>,
}

/// What the signing policy says of a request.
#[derive(Debug)]
pub enum SignDecision {
    /// It is signed.
    Allow {
        /// What it does.
        action: String,
        /// The objects that it touches.
        keys: Vec<String>,
        /// Whether the client may use the signature again.
        cacheable: bool,
    },
    /// It is not.
    Deny {
        /// Why, in a word.
        reason: String,
        /// Why, in full.
        detail: String,
    },
}

/// What is known so far of a request to sign.
#[derive(Debug)]
pub struct SignFacts {
    /// The warehouse of the prefix.
    pub warehouse: Found<WarehouseRecord>,
    /// The table of the path.
    pub table: Found<TableRecord>,
    /// What the caller may do with the table, or the refusal.
    pub access: Option<Result<AccessMode, ApiError>>,
    /// Whether the warehouse's options opt into vending, or why they cannot be
    /// read.
    pub vending: Option<Result<bool, String>>,
    /// Whether a signer could be made of the keys, or why not.
    pub signer: Option<Result<(), String>>,
    /// The table's location, or the refusal.
    pub location: Option<Result<String, ApiError>>,
    /// Whether that location is one that can be signed for, or why not.
    pub scope: Option<Result<(), String>>,
    /// What the signing policy says.
    pub decision: Option<SignDecision>,
    /// Whether the request was signed, or why not.
    pub signed: Option<Result<(), String>>,
    /// Whether the decision was recorded.
    pub recorded: bool,
}

/// The next step of the sign route.
#[derive(Clone, Copy, Debug, PartialEq, Eq, Structural)]
pub enum SignStep {
    /// Look up the warehouse of the prefix.
    AskWarehouse,
    /// Look up the table.
    AskTable,
    /// Ask what the caller may do with the table.
    AskAccess,
    /// Read the vending options of the warehouse.
    AskVending,
    /// Make a signer of the warehouse's keys.
    MakeSigner,
    /// Find the table's location.
    AskLocation,
    /// Read the location as one that can be signed for.
    AskScope,
    /// Ask the signing policy.
    Authorize,
    /// Sign the request.
    Sign,
    /// Record the decision.
    Record,
    /// Answer with the headers that signing added.
    Respond {
        /// Whether the client may use the signature again.
        cacheable: bool,
    },
}

/// The provider of a request; S3 where none is named.
pub open spec fn provider_of(request: RemoteSignRequestBody) -> Seq<char> {
    match request.provider {
        Some(p) => p@,
        None => "s3"@,
    }
}

/// The refusal of a request before anything is asked about it.
pub open spec fn sign_request_error(request: RemoteSignRequestBody) -> Option<error::ErrorView> {
    if text::ascii_lowered(provider_of(request)) != text::ascii_lowered("s3"@) {
        Some(
            error::bad_request(
                "remote signing supports provider \"s3\" only, got "@ + text::quoted(provider_of(request)),
            ),
        )
    } else if text::is_blank(request.region@) {
        Some(error::bad_request("region must not be empty"@))
    } else {
        None
    }
}

/// The refusal of a warehouse that does not opt into vending.
pub open spec fn not_enabled(name: Seq<char>) -> error::ErrorView {
    error::bad_request(
        "remote signing is not enabled for warehouse "@ + text::quoted(name)
            + "; set storage option vending = \"sts\" or \"static\" to enable it"@,
    )
}

/// The step once the policy has decided: a refusal is recorded and then
/// answered; a request that is allowed is signed, recorded, and then answered.
pub open spec fn decided_step(decision: SignDecision, facts: SignFacts) -> Result<SignStep, error::ErrorView> {
    match decision {
        SignDecision::Deny { reason, detail } => if !facts.recorded {
            Ok(SignStep::Record)
        } else {
            Err(error::error_of(ErrorKind::Forbidden, "request will not be signed: "@ + detail@))
        },
        SignDecision::Allow { action, keys, cacheable } => match facts.signed {
            None => Ok(SignStep::Sign),
            Some(Err(detail)) => Err(error::error_of(ErrorKind::InternalServer, detail@)),
            Some(Ok(_)) => if !facts.recorded {
                Ok(SignStep::Record)
            } else {
                Ok(SignStep::Respond { cacheable })
            },
        },
    }
}

/// The step once the caller's access is known: the warehouse opts into vending
/// and holds keys, of which a signer is made; then the table's location.
pub open spec fn admitted_step(warehouse: WarehouseRecord, facts: SignFacts) -> Result<SignStep, error::ErrorView> {
    match facts.vending {
        None => Ok(SignStep::AskVending),
        Some(Err(detail)) => Err(error::bad_request(detail@)),
        Some(Ok(false)) => Err(not_enabled(warehouse.name@)),
        Some(Ok(true)) => if !holds_keys(warehouse.storage_config@) {
            Err(keys_missing(warehouse.name@))
        } else {
            match facts.signer {
                None => Ok(SignStep::MakeSigner),
                Some(Err(detail)) => Err(error::bad_request(detail@)),
                Some(Ok(_)) => located_step(facts),
            }
        },
    }
}

/// The step once a signer is made.
pub open spec fn located_step(facts: SignFacts) -> Result<SignStep, error::ErrorView> {
    match facts.location {
        None => Ok(SignStep::AskLocation),
        Some(Err(e)) => Err(e@),
        Some(Ok(_)) => match facts.scope {
            None => Ok(SignStep::AskScope),
            Some(Err(detail)) => Err(error::bad_request(detail@)),
            Some(Ok(_)) => match facts.decision {
                None => Ok(SignStep::Authorize),
                Some(decision) => decided_step(decision, facts),
            },
        },
    }
}

/// The step of the sign route.
pub open spec fn sign_step(
    prefix: Seq<char>,
    raw: Seq<char>,
    name: Seq<char>,
    request: RemoteSignRequestBody,
    facts: SignFacts,
) -> Result<SignStep, error::ErrorView> {
    match facts.warehouse {
        Found::Unasked => Ok(SignStep::AskWarehouse),
        Found::Missing => Err(error::error_of(ErrorKind::NoSuchWarehouse, prefix)),
        Found::Is(warehouse) => match namespaces::levels_error(namespaces::param_levels(raw)) {
            Some(e) => Err(e),
            None => match facts.table {
                Found::Unasked => Ok(SignStep::AskTable),
                Found::Missing => Err(tables::missing_table(namespaces::param_levels(raw), name)),
                Found::Is(_) => match sign_request_error(request) {
                    Some(e) => Err(e),
                    None => match facts.access {
                        None => Ok(SignStep::AskAccess),
                        Some(Err(e)) => Err(e@),
                        Some(Ok(_)) => admitted_step(warehouse, facts),
                    },
                },
            },
        },
    }
}

fn copy_error(e: &ApiError) -> (r: ApiError)
    ensures
        r@ == e@,
{
    ApiError::new(e.kind, e.message.as_str())
}

fn decided(decision: &SignDecision, facts: &SignFacts) -> (r: Result<SignStep, ApiError>)
    ensures
        error::outcome(r) == decided_step(*decision, *facts),
{
    match decision {
        SignDecision::Deny { reason, detail } => if !facts.recorded {
            Ok(SignStep::Record)
        } else {
            Err(ApiError::new(
                ErrorKind::Forbidden,
                cat2("request will not be signed: ", detail.as_str()).as_str(),
            ))
        },
        SignDecision::Allow { action, keys, cacheable } => match &facts.signed {
            None => Ok(SignStep::Sign),
            Some(Err(detail)) => Err(ApiError::new(ErrorKind::InternalServer, detail.as_str())),
            Some(Ok(_)) => if !facts.recorded {
                Ok(SignStep::Record)
            } else {
                Ok(SignStep::Respond { cacheable: *cacheable })
            },
        },
    }
}

fn admitted(warehouse: &WarehouseRecord, facts: &SignFacts) -> (r: Result<SignStep, ApiError>)
    ensures
        error::outcome(r) == admitted_step(*warehouse, *facts),
{
    match &facts.vending {
        None => { return Ok(SignStep::AskVending); },
        Some(Err(detail)) => { return Err(ApiError::bad_request(detail.as_str())); },
        Some(Ok(on)) => {
            if !*on {
                return Err(ApiError::bad_request(
                    cat3(
                        "remote signing is not enabled for warehouse ",
                        quote(warehouse.name.as_str()).as_str(),
                        "; set storage option vending = \"sts\" or \"static\" to enable it",
                    ).as_str(),
                ));
            }
        },
    }
    match require_keys(warehouse) {
        Err(e) => { return Err(e); },
        Ok(()) => {},
    }
    match &facts.signer {
        None => { return Ok(SignStep::MakeSigner); },
        Some(Err(detail)) => { return Err(ApiError::bad_request(detail.as_str())); },
        Some(Ok(_)) => {},
    }
    match &facts.location {
        None => { return Ok(SignStep::AskLocation); },
        Some(Err(e)) => { return Err(copy_error(e)); },
        Some(Ok(_)) => {},
    }
    match &facts.scope {
        None => { return Ok(SignStep::AskScope); },
        Some(Err(detail)) => { return Err(ApiError::bad_request(detail.as_str())); },
        Some(Ok(_)) => {},
    }
    match &facts.decision {
        None => Ok(SignStep::Authorize),
        Some(decision) => decided(decision, facts),
    }
}

fn check_request(request: &RemoteSignRequestBody) -> (r: Result<(), ApiError>)
    ensures
        match sign_request_error(*request) {
            Some(e) => error::fails_with(r, e),
            None => r is Ok,
        },
{
    let provider = match &request.provider {
        Some(p) => p.as_str(),
        None => "s3",
    };
    if !same_ignoring_case(provider, "s3") {
        return Err(ApiError::bad_request(
            cat2("remote signing supports provider \"s3\" only, got ", quote(provider).as_str()).as_str(),
        ));
    }
    if blank(request.region.as_str()) {
        return Err(ApiError::bad_request("region must not be empty"));
    }
    Ok(())
}

/// Takes the next step of the sign route.
pub fn sign_request(
    prefix: &str,
    raw_namespace: &str,
    name: &str,
    request: &RemoteSignRequestBody,
    facts: &SignFacts,
) -> (r: Result<SignStep, ApiError>)
    ensures
        error::outcome(r) == sign_step(prefix@, raw_namespace@, name@, *request, *facts),
{
    let warehouse = match &facts.warehouse {
        Found::Unasked => { return Ok(SignStep::AskWarehouse); },
        Found::Missing => { return Err(ApiError::new(ErrorKind::NoSuchWarehouse, prefix)); },
        Found::Is(warehouse) => warehouse,
    };
    let levels = match decode_namespace_param(raw_namespace) {
        Err(e) => { return Err(e); },
        Ok(levels) => levels,
    };
    match &facts.table {
        Found::Unasked => { return Ok(SignStep::AskTable); },
        Found::Missing => { return Err(no_such_table(&levels, name)); },
        Found::Is(_) => {},
    }
    match check_request(request) {
        Err(e) => { return Err(e); },
        Ok(()) => {},
    }
    match &facts.access {
        None => Ok(SignStep::AskAccess),
        Some(Err(e)) => Err(copy_error(e)),
        Some(Ok(_)) => admitted(warehouse, facts),
    }
}

/// No signature leaves before its decision was recorded, and none that the
/// policy does not allow.
pub proof fn signatures_are_recorded(
    prefix: Seq<char>,
    raw: Seq<char>,
    name: Seq<char>,
    request: RemoteSignRequestBody,
    facts: SignFacts,
)
    requires
        sign_step(prefix, raw, name, request, facts) matches Ok(step) && step is Respond,
    ensures
        facts.recorded,
        facts.decision matches Some(d) && d is Allow,
        facts.access matches Some(Ok(_)),
{
}

/// A refusal by the signing policy is answered only once it was recorded.
pub proof fn refusals_are_recorded(decision: SignDecision, facts: SignFacts)
    requires
        decision is Deny,
    ensures
        decided_step(decision, facts) is Err == facts.recorded,
        decided_step(decision, facts) matches Ok(step) ==> step == SignStep::Record,
{
}

/// A request is signed only for a caller who may read the table, in a
/// warehouse that opts into vending and whose keys make a signer, for a table
/// whose location can be signed for, and where the policy allows it.
pub proof fn signing_is_guarded(
    prefix: Seq<char>,
    raw: Seq<char>,
    name: Seq<char>,
    request: RemoteSignRequestBody,
    facts: SignFacts,
)
    requires
        sign_step(prefix, raw, name, request, facts) == Ok::<SignStep, error::ErrorView>(SignStep::Sign),
    ensures
        facts.access matches Some(Ok(_)),
        facts.location matches Some(Ok(_)),
        facts.warehouse matches Found::Is(warehouse) && (facts.vending matches Some(vending) && (facts.signer matches Some(
            signer,
        ) && (facts.scope matches Some(scope) && signs(warehouse, SigningMeans { vending, signer, scope })))),
        facts.decision matches Some(d) && d is Allow,
{
}

// ---------------------------------------------------------------------------
// The record and the answer
// ---------------------------------------------------------------------------

/// What the audit trail keeps of a decision.
#[derive(Debug)]
pub struct SignRecord {
    /// `allow` or `deny`.
    pub decision: String,
    /// The type of the event.
    pub event_type: String,
    /// What the request does, where it is allowed.
    pub action: Option<String>,
    /// The first of the objects that it touches.
    pub keys: Vec<String>,
    /// How many there are, where it is allowed.
    pub key_count: Option<usize>,
    /// Why it is refused, where it is.
    pub reason: Option<String>,
}

/// Whether the record is that of the decision.
pub open spec fn records(r: SignRecord, decision: SignDecision) -> bool {
    match decision {
        SignDecision::Allow { action, keys, cacheable } => {
            &&& r.decision@ == "allow"@
            &&& r.event_type@ == "credential.signed"@
            &&& r.action == Some(action)
            &&& text::texts(r.keys@) == text::texts(
                keys@.take(if keys@.len() <= AUDITED_KEYS_MAX { keys@.len() as int } else { AUDITED_KEYS_MAX as int }),
            )
            &&& r.key_count == Some(keys.len())
            &&& r.reason is None
        },
        SignDecision::Deny { reason, detail } => {
            &&& r.decision@ == "deny"@
            &&& r.event_type@ == "credential.sign-denied"@
            &&& r.action is None
            &&& r.keys@.len() == 0
            &&& r.key_count is None
            &&& r.reason == Some(reason)
        },
    }
}

/// What the audit trail keeps of a decision: of the objects it touches the
/// first 25, and how many there are.
pub fn record_sign_decision(decision: &SignDecision) -> (r: SignRecord)
    ensures
        records(r, *decision),
{
    match decision {
        SignDecision::Allow { action, keys, cacheable } => {
            let mut first = copy_texts(keys);
            let ghost before = first@;
            first.truncate(AUDITED_KEYS_MAX);
            assert(text::texts(first@) =~= text::texts(
                keys@.take(if keys@.len() <= AUDITED_KEYS_MAX { keys@.len() as int } else { AUDITED_KEYS_MAX as int }),
            )) by {
                assert forall|i: int| 0 <= i < first@.len() implies first@[i]@ == keys@[i]@ by {
                    assert(text::texts(before)[i] == text::texts(keys@)[i]);
                }
                assert(text::texts(before).len() == text::texts(keys@).len());
            }
            SignRecord {
                decision: "allow".to_owned(),
                event_type: "credential.signed".to_owned(),
                action: Some(action.clone()),
                keys: first,
                key_count: Some(keys.len()),
                reason: None,
            }
        },
        SignDecision::Deny { reason, detail } => SignRecord {
            decision: "deny".to_owned(),
            event_type: "credential.sign-denied".to_owned(),
            action: None,
            keys: Vec::new(),
            key_count: None,
            reason: Some(reason.clone()),
        },
    }
}

/// The values of a header, in order.
pub open spec fn values_of(headers: Seq<(String, String)>, name: Seq<char>) -> Seq<Seq<char>>
    decreases headers.len(),
{
    if headers.len() == 0 {
        seq![]
    } else {
        let earlier = values_of(headers.drop_last(), name);
        if headers.last().0@ == name {
            earlier.push(headers.last().1@)
        } else {
            earlier
        }
    }
}

/// Whether the map holds each header with all its values.
pub open spec fn groups(map: Map<Seq<char>, Vec<String>>, headers: Seq<(String, String)>) -> bool {
    forall|name: Seq<char>| #![trigger map.dom().contains(name)]
        map.dom().contains(name) == (values_of(headers, name).len() > 0) && (map.dom().contains(name)
            ==> text::texts(map[name]@) == values_of(headers, name))
}

/// The headers that signing added, each with all its values, in order.
pub fn signed_headers(headers: &Vec<(String, String)>) -> (r: TextMap<Vec<String>>)
    ensures
        groups(r@, headers@),
{
    let mut map: TextMap<Vec<String>> = TextMap::new();
    let mut i: usize = 0;
    assert(headers@.take(0) =~= Seq::<(String, String)>::empty());
    while i < headers.len()
        invariant
            i <= headers@.len(),
            groups(map@, headers@.take(i as int)),
        decreases headers@.len() - i,
    {
        let ghost so_far = headers@.take(i as int);
        let ghost next = headers@.take(i + 1);
        assert(next.drop_last() =~= so_far);
        let ghost name = headers@[i as int].0@;
        let ghost before = map@;
        assert(before.dom().contains(name) == (values_of(so_far, name).len() > 0));
        let mut values: Vec<String> = match map.get(headers[i].0.as_str()) {
            Some(v) => copy_texts(v),
            None => Vec::new(),
        };
        assert(text::texts(values@) =~= values_of(so_far, name));
        let ghost earlier = values@;
        values.push(headers[i].1.clone());
        assert(text::texts(values@) =~= text::texts(earlier).push(headers@[i as int].1@));
        map = map.with(headers[i].0.as_str(), values);
        assert forall|n: Seq<char>| #![trigger map@.dom().contains(n)]
            map@.dom().contains(n) == (values_of(next, n).len() > 0) && (map@.dom().contains(n) ==> text::texts(
                map@[n]@,
            ) == values_of(next, n)) by {
            if n != name {
                assert(before.dom().contains(n) == (values_of(so_far, n).len() > 0));
            }
        }
        i = i + 1;
    }
    assert(headers@.take(headers@.len() as int) =~= headers@);
    map
}

/// The `Cache-Control` of the answer.
pub fn cache_control(cacheable: bool) -> (r: &'static str)
    ensures
        r@ == (if cacheable { "private"@ } else { "no-cache"@ }),
{
    if cacheable {
        "private"
    } else {
        "no-cache"
    }
}

/// The readable identifier of a table.
pub fn ident(levels: &Vec<String>, name: &str) -> (r: String)
    ensures
        r@ == tables::ident_text(text::texts(levels@), name@),
{
    tables::display_ident(levels, name)
}

/// The answer where a table's metadata cannot be read for its location.
pub fn location_unreadable(at: &str, detail: &str) -> (r: ApiError)
    ensures
        r@ == tables::unreadable_metadata(at@, detail@),
{
    current_metadata_unreadable(at, detail)
}

/// Signing goes on as it should. The caller's access is asked only for a sound
/// request about a table that is there; the warehouse must vend, hold keys and
/// give a signer; then the location, the scope and the decision follow. What the
/// decision allows is signed and recorded before it is answered, and what it
/// denies is recorded and forbidden. The answer may be kept exactly where the
/// decision says so.
pub proof fn requests_are_signed_as_decided(
    prefix: Seq<char>,
    raw: Seq<char>,
    name: Seq<char>,
    request: RemoteSignRequestBody,
    facts: SignFacts,
)
    ensures
        ({
            let asked = facts.warehouse is Is && facts.table is Is && sign_request_error(request) is None
                && namespaces::good_levels(namespaces::param_levels(raw));
            let admitted = asked && (facts.access matches Some(Ok(_)));
            let vends = admitted && facts.vending == Some(Ok::<bool, String>(true)) && (facts.warehouse matches Found::Is(
                w,
            ) && w.storage_config@.dom().contains("access-key-id"@) && w.storage_config@.dom().contains(
                "secret-access-key"@,
            ));
            let scoped = vends && (facts.signer matches Some(Ok(_))) && (facts.location matches Some(Ok(_))) && (facts.scope
                matches Some(Ok(_)));
            match sign_step(prefix, raw, name, request, facts) {
                Ok(SignStep::AskWarehouse) => facts.warehouse is Unasked,
                Ok(SignStep::AskTable) => facts.warehouse is Is && facts.table is Unasked,
                Ok(SignStep::AskAccess) => asked && facts.access is None,
                Ok(SignStep::AskVending) => admitted && facts.vending is None,
                Ok(SignStep::MakeSigner) => vends && facts.signer is None,
                Ok(SignStep::AskLocation) => vends && (facts.signer matches Some(Ok(_))) && facts.location is None,
                Ok(SignStep::AskScope) => vends && (facts.location matches Some(Ok(_))) && facts.scope is None,
                Ok(SignStep::Authorize) => scoped && facts.decision is None,
                Ok(SignStep::Sign) => scoped && (facts.decision matches Some(d) && d is Allow) && facts.signed is None,
                Ok(SignStep::Record) => scoped && !facts.recorded && (facts.decision matches Some(d) && (d is Deny || (
                facts.signed matches Some(Ok(_))))),
                Ok(SignStep::Respond { cacheable }) => scoped && facts.recorded && (facts.signed matches Some(Ok(_))) && (
                facts.decision matches Some(SignDecision::Allow { action, keys, cacheable: may }) && cacheable == may),
                Err(e) => {
                    ||| facts.warehouse is Missing && e.kind == ErrorKind::NoSuchWarehouse
                    ||| !namespaces::good_levels(namespaces::param_levels(raw)) && e.kind == ErrorKind::BadRequest
                    ||| facts.table is Missing && e.kind == ErrorKind::NoSuchTable
                    ||| sign_request_error(request) == Some(e)
                    ||| facts.access matches Some(Err(cause)) && e == cause@
                    ||| admitted && facts.vending is Some && !vends && e.kind == ErrorKind::BadRequest
                    ||| vends && ((facts.signer matches Some(Err(_))) || (facts.scope matches Some(Err(_)))) && e.kind
                        == ErrorKind::BadRequest
                    ||| vends && (facts.location matches Some(Err(cause)) && e == cause@)
                    ||| scoped && facts.recorded && (facts.decision matches Some(d) && d is Deny) && e.kind
                        == ErrorKind::Forbidden
                    ||| scoped && (facts.decision matches Some(d) && d is Allow) && (facts.signed matches Some(Err(_)))
                        && e.kind == ErrorKind::InternalServer
                },
            }
        }),
{
    namespaces::bad_levels_are_refused(namespaces::param_levels(raw));
}

/// The location of a table is the kept one exactly where it was kept for the
/// version that the table's pointer has; otherwise the table's own metadata is
/// read.
pub proof fn locations_fit_the_version(record: TableRecord, cache: Map<Seq<char>, (i64, String)>)
    ensures
        match location_step(record, cache) {
            Ok(LocationStep::Known(location)) => cache.dom().contains(record.id@) && cache[record.id@] == (
                record.pointer_version,
                location,
            ),
            Ok(LocationStep::Read(at)) => record.metadata_location == Some(at) && (cache.dom().contains(record.id@)
                ==> cache[record.id@].0 != record.pointer_version),
            Err(e) => record.metadata_location is None && e.kind == ErrorKind::NoSuchTable,
        },
{
}

/// A path segment is written character by character: that of two texts together
/// is that of the one and of the other.
pub proof fn segments_join(a: Seq<char>, b: Seq<char>)
    ensures
        segment_text(a + b) == segment_text(a) + segment_text(b),
    decreases b.len(),
{
    if b.len() == 0 {
        assert(a + b =~= a);
        assert(segment_text(a) + segment_text(b) =~= segment_text(a));
    } else {
        segments_join(a, b.drop_last());
        assert((a + b).drop_last() =~= a + b.drop_last());
        assert((a + b).last() == b.last());
        let tail = if is_unreserved(b.last()) {
            seq![b.last()]
        } else {
            percent_text(vstd::utf8::encode_utf8(seq![b.last()]))
        };
        assert((segment_text(a) + segment_text(b.drop_last())) + tail =~= segment_text(a) + (segment_text(b.drop_last())
            + tail));
    }
}

/// A byte that is a letter or a digit stands for itself; any other is written
/// as a percent sign and its two hexadecimal digits.
pub proof fn bytes_are_escaped(b: u8)
    ensures
        ({
            let out = percent_text(seq![b]);
            if 0x30 <= b <= 0x39 || 0x41 <= b <= 0x5a || 0x61 <= b <= 0x7a {
                out == seq![b as char]
            } else {
                out.len() == 3 && out[0] == '%' && hex_value(out[1]) * 16 + hex_value(out[2]) == b
            }
        }),
{
    assert(seq![b].drop_last() =~= Seq::<u8>::empty());
    assert(seq![b].last() == b);
    assert(percent_text(Seq::<u8>::empty()) =~= seq![]);
    let tail = if is_alnum_byte(b) {
        seq![b as char]
    } else {
        seq!['%', upper_hex(b as int / 16), upper_hex(b as int % 16)]
    };
    assert(Seq::<char>::empty() + tail =~= tail);
    assert(0 <= b as int / 16 < 16 && 0 <= b as int % 16 < 16);
}

/// The value of an upper-case hexadecimal digit.
pub open spec fn hex_value(c: char) -> int {
    if '0' <= c <= '9' {
        c as int - '0' as int
    } else {
        c as int - 'A' as int + 10
    }
}

/// A header's values are kept in the order in which they came, under its name.
pub proof fn headers_are_grouped_in_order(headers: Seq<(String, String)>, more: (String, String), name: Seq<char>)
    ensures
        values_of(headers.push(more), name) == (if more.0@ == name {
            values_of(headers, name).push(more.1@)
        } else {
            values_of(headers, name)
        }),
{
    assert(headers.push(more).drop_last() =~= headers);
}

/// The default port of a scheme is left out of an authority, and no other is.
pub proof fn default_ports_are_left_out(host: Seq<char>)
    ensures
        without_default_port("http"@, host + ":80"@) == host,
        without_default_port("https"@, host + ":443"@) == host,
        !text::ends_in(host, ":80"@) ==> without_default_port("http"@, host) == host,
        !text::ends_in(host, ":443"@) ==> without_default_port("https"@, host) == host,
{
    reveal_strlit("http");
    reveal_strlit("https");
    assert("http"@.len() == 4 && "https"@.len() == 5);
    assert((host + ":80"@).take((host + ":80"@).len() - ":80"@.len()) =~= host);
    assert((host + ":443"@).take((host + ":443"@).len() - ":443"@.len()) =~= host);
    assert((host + ":80"@).skip(host.len() as int) =~= ":80"@);
    assert((host + ":443"@).skip(host.len() as int) =~= ":443"@);
    assert(text::ends_in(host + ":80"@, ":80"@));
    assert(text::ends_in(host + ":443"@, ":443"@));
}

/// The host of an address is what stands ahead of its path and its query.
pub proof fn hosts_stand_ahead_of_the_path(s: Seq<char>)
    ensures
        host_part(s).len() <= s.len(),
        host_part(s) == s.take(host_part(s).len() as int),
        forall|i: int| 0 <= i < host_part(s).len() ==> #[trigger] host_part(s)[i] != '/' && host_part(s)[i] != '?',
        host_part(s).len() < s.len() ==> s[host_part(s).len() as int] == '/' || s[host_part(s).len() as int] == '?',
    decreases s.len(),
{
    if s.len() == 0 || s[0] == '/' || s[0] == '?' {
        assert(s.take(0) =~= Seq::<char>::empty());
    } else {
        let rest = s.drop_first();
        hosts_stand_ahead_of_the_path(rest);
        let host = host_part(s);
        assert(host =~= s.take(host.len() as int)) by {
            assert(host_part(rest) == rest.take(host_part(rest).len() as int));
            assert forall|i: int| 0 <= i < host.len() implies host[i] == s[i] by {
                if i > 0 {
                    assert(host[i] == host_part(rest)[i - 1]);
                    assert(host_part(rest)[i - 1] == rest.take(host_part(rest).len() as int)[i - 1]);
                }
            }
        }
        assert forall|i: int| 0 <= i < host.len() implies #[trigger] host[i] != '/' && host[i] != '?' by {
            if i > 0 {
                assert(host[i] == host_part(rest)[i - 1]);
            }
        }
    }
}

} // verus!
