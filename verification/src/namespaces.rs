//! Namespaces: their addressing, their pages, and their properties.
//!
//! A `{prefix}` is a warehouse name, or a warehouse and a branch with `@`
//! between them. A `{namespace}` holds the levels of a namespace with the
//! `0x1F` unit separator between them.

use std::str::FromStr;

use vstd::prelude::*;

use crate::error;
use crate::error::{ApiError, ErrorKind, StoreError, StoreKind};
use crate::grants;
use crate::grants::{require, Access, Found};
use crate::text;
use crate::text::{cat3, has_char, holds, join, quote, same, split};
use crate::textmap::TextMap;

verus! {

/// The separator of namespace levels in URLs.
pub const UNIT_SEPARATOR: char = '\u{1f}';

/// Page size used when a client paginates without an explicit size.
pub const DEFAULT_PAGE_SIZE: i64 = 100;

/// Hard upper bound on a single page.
pub const MAX_PAGE_SIZE: i64 = 1000;

// ---------------------------------------------------------------------------
// Prefixes and levels
// ---------------------------------------------------------------------------

/// A prefix taken apart: the warehouse, and the branch where there is one.
pub open spec fn prefix_parts(prefix: Seq<char>, base: Seq<char>, branch: Option<Seq<char>>) -> bool {
    match branch {
        Some(b) => prefix == base + seq!['@'] + b && !b.contains('@'),
        None => prefix == base && !prefix.contains('@'),
    }
}

/// The branch that a prefix names, behind its last `@`.
pub open spec fn prefix_branch(prefix: Seq<char>) -> Option<Seq<char>> {
    let pieces = text::split_on(prefix, '@');
    if pieces.len() <= 1 {
        None
    } else {
        Some(pieces.last())
    }
}

/// The warehouse that a prefix names, ahead of its last `@`.
pub open spec fn prefix_base(prefix: Seq<char>) -> Seq<char> {
    let pieces = text::split_on(prefix, '@');
    if pieces.len() <= 1 {
        prefix
    } else {
        text::join_with(pieces.drop_last(), seq!['@'])
    }
}

/// Takes a prefix apart at its last `@`.
pub fn split_prefix(prefix: &str) -> (r: (String, Option<String>))
    ensures
        r.0@ == prefix_base(prefix@),
        text::opt_text(r.1) == prefix_branch(prefix@),
        prefix_parts(prefix@, r.0@, text::opt_text(r.1)),
{
    let pieces = split(prefix, '@');
    let n: usize = pieces.len();
    proof {
        text::split_pieces(prefix@, '@');
        text::split_then_join(prefix@, '@');
    }
    let ghost all = text::texts(pieces@);
    if n == 1 {
        assert(all[0] == pieces@[0]@);
        return (pieces[0].clone(), None);
    }
    let mut front: Vec<String> = Vec::new();
    let mut i: usize = 0;
    while i < n - 1
        invariant
            i <= n - 1,
            n == pieces@.len(),
            front@ == pieces@.take(i as int),
        decreases n - i,
    {
        front.push(pieces[i].clone());
        assert(pieces@.take(i as int).push(pieces@[i as int]) == pieces@.take(i + 1));
        i = i + 1;
    }
    let base = join(&front, "@");
    proof {
        reveal_strlit("@");
        assert("@"@ =~= seq!['@']);
        assert(text::texts(front@) =~= all.drop_last());
        assert(all.last() == pieces@[n - 1]@);
        assert(!all[n - 1].contains('@'));
    }
    (base, Some(pieces[n - 1].clone()))
}

/// A warehouse and a branch put together with `@` are taken apart again into
/// the same two, whatever the warehouse is called: a branch name holds no `@`.
pub proof fn prefix_round_trip(
    warehouse: Seq<char>,
    branch: Seq<char>,
    base: Seq<char>,
    found: Option<Seq<char>>,
)
    requires
        !branch.contains('@'),
        prefix_parts(warehouse + seq!['@'] + branch, base, found),
    ensures
        base == warehouse,
        found == Some(branch),
{
    let prefix = warehouse + seq!['@'] + branch;
    assert(prefix[warehouse.len() as int] == '@');
    match found {
        None => {
            assert(prefix.contains('@'));
        },
        Some(b) => {
            let other = base + seq!['@'] + b;
            assert(other == prefix);
            assert(other[base.len() as int] == '@');
            if base.len() < warehouse.len() {
                let k = warehouse.len() - base.len() - 1;
                assert(other[warehouse.len() as int] == b[k as int]);
                assert(b.contains('@'));
            } else if base.len() > warehouse.len() {
                let k = base.len() - warehouse.len() - 1;
                assert(prefix[base.len() as int] == branch[k as int]);
                assert(branch.contains('@'));
            }
            assert(base =~= prefix.take(base.len() as int));
            assert(warehouse =~= prefix.take(warehouse.len() as int));
            assert(b =~= prefix.skip(base.len() + 1int));
            assert(branch =~= prefix.skip(warehouse.len() + 1int));
        },
    }
}

/// A prefix with an `@` names the branch behind its last one, and the warehouse
/// ahead of it; a prefix without one names a warehouse and no branch.
pub proof fn prefixes_name_their_ref(warehouse: Seq<char>, branch: Seq<char>)
    ensures
        !branch.contains('@') ==> prefix_base(warehouse + seq!['@'] + branch) == warehouse && prefix_branch(
            warehouse + seq!['@'] + branch,
        ) == Some(branch),
        !warehouse.contains('@') ==> prefix_base(warehouse) == warehouse && prefix_branch(warehouse) is None,
{
    prefix_is_taken_apart(warehouse + seq!['@'] + branch);
    prefix_is_taken_apart(warehouse);
    if !branch.contains('@') {
        let prefix = warehouse + seq!['@'] + branch;
        prefix_round_trip(warehouse, branch, prefix_base(prefix), prefix_branch(prefix));
    }
    if let Some(b) = prefix_branch(warehouse) {
        let base = prefix_base(warehouse);
        assert((base + seq!['@'] + b)[base.len() as int] == '@');
        assert(warehouse.contains('@'));
    }
}

proof fn prefix_is_taken_apart(prefix: Seq<char>)
    ensures
        prefix_parts(prefix, prefix_base(prefix), prefix_branch(prefix)),
{
    let pieces = text::split_on(prefix, '@');
    text::split_pieces(prefix, '@');
    text::split_then_join(prefix, '@');
    if pieces.len() == 1 {
        assert(pieces.drop_last() =~= Seq::<Seq<char>>::empty());
        assert(!pieces[0].contains('@'));
    } else {
        assert(!pieces[pieces.len() - 1].contains('@'));
    }
}

/// The row of the warehouse that a prefix names, or the 404 that names the
/// prefix.
pub fn resolve_warehouse<T>(prefix: &str, found: Option<T>) -> (r: Result<T, ApiError>)
    ensures
        match found {
            Some(w) => r matches Ok(got) && got == w,
            None => error::fails_with(r, error::error_of(ErrorKind::NoSuchWarehouse, prefix@)),
        },
{
    match found {
        Some(w) => Ok(w),
        None => Err(ApiError::new(ErrorKind::NoSuchWarehouse, prefix)),
    }
}

/// Whether a level can be addressed: it is not empty and holds no separator.
pub open spec fn level_error(level: Seq<char>) -> Option<error::ErrorView> {
    if level.len() == 0 {
        Some(error::bad_request("namespace levels must be non-empty"@))
    } else if level.contains(UNIT_SEPARATOR) {
        Some(error::bad_request("namespace levels must not contain the 0x1F unit separator"@))
    } else {
        None
    }
}

/// Whether every level of a namespace can be addressed, and there is one.
pub open spec fn good_levels(levels: Seq<Seq<char>>) -> bool {
    levels.len() > 0 && forall|i: int| 0 <= i < levels.len() ==> level_error(#[trigger] levels[i]) is None
}

/// The error of the first level that cannot be addressed.
pub open spec fn first_level_error(levels: Seq<Seq<char>>) -> Option<error::ErrorView>
    decreases levels.len(),
{
    if levels.len() == 0 {
        None
    } else {
        match level_error(levels[0]) {
            Some(e) => Some(e),
            None => first_level_error(levels.drop_first()),
        }
    }
}

/// The error of levels: there is none, or the first bad one.
pub open spec fn levels_error(levels: Seq<Seq<char>>) -> Option<error::ErrorView> {
    if levels.len() == 0 {
        Some(error::bad_request("namespace must have at least one level"@))
    } else {
        first_level_error(levels)
    }
}

/// A namespace is accepted exactly where it has a level, and every level holds
/// something and no unit separator; any other is a bad request.
pub proof fn bad_levels_are_refused(levels: Seq<Seq<char>>)
    ensures
        levels_error(levels) is None <==> levels.len() > 0 && forall|i: int|
            0 <= i < levels.len() ==> (#[trigger] levels[i]).len() > 0 && !levels[i].contains('\u{1f}'),
        levels_error(levels) is None <==> good_levels(levels),
        levels_error(levels) matches Some(e) ==> e.kind == ErrorKind::BadRequest,
{
    no_error_where_all_are_good(levels);
    level_errors_are_bad_requests(levels);
    if levels_error(levels) is None {
        assert forall|i: int| 0 <= i < levels.len() implies (#[trigger] levels[i]).len() > 0 && !levels[i].contains(
            '\u{1f}',
        ) by {
            assert(level_error(levels[i]) is None);
        }
    }
}

proof fn level_errors_are_bad_requests(levels: Seq<Seq<char>>)
    ensures
        first_level_error(levels) matches Some(e) ==> e.kind == ErrorKind::BadRequest,
    decreases levels.len(),
{
    if levels.len() > 0 {
        level_errors_are_bad_requests(levels.drop_first());
    }
}

proof fn no_error_where_all_are_good(levels: Seq<Seq<char>>)
    ensures
        first_level_error(levels) is None <==> forall|i: int|
            0 <= i < levels.len() ==> level_error(#[trigger] levels[i]) is None,
    decreases levels.len(),
{
    if levels.len() > 0 {
        let rest = levels.drop_first();
        no_error_where_all_are_good(rest);
        if forall|i: int| 0 <= i < levels.len() ==> level_error(#[trigger] levels[i]) is None {
            assert forall|i: int| 0 <= i < rest.len() implies level_error(#[trigger] rest[i]) is None by {
                assert(rest[i] == levels[i + 1]);
            }
        }
        if first_level_error(levels) is None {
            assert forall|i: int| 0 <= i < levels.len() implies level_error(#[trigger] levels[i]) is None by {
                if i > 0 {
                    assert(rest[i - 1] == levels[i]);
                }
            }
        }
    }
}

/// Validates namespace levels: at least one, none empty, none with the
/// separator.
pub fn validate_levels(levels: &Vec<String>) -> (r: Result<(), ApiError>)
    ensures
        match levels_error(text::texts(levels@)) {
            None => r is Ok,
            Some(e) => error::fails_with(r, e),
        },
        r is Ok == good_levels(text::texts(levels@)),
{
    let ghost all = text::texts(levels@);
    proof {
        no_error_where_all_are_good(all);
    }
    if levels.len() == 0 {
        return Err(ApiError::bad_request("namespace must have at least one level"));
    }
    let mut i: usize = 0;
    assert(all.skip(0) == all);
    while i < levels.len()
        invariant
            i <= levels@.len(),
            0 < levels@.len(),
            all == text::texts(levels@),
            first_level_error(all) is None <==> good_levels(all),
            first_level_error(all) == first_level_error(all.skip(i as int)),
        decreases levels@.len() - i,
    {
        assert(all[i as int] == levels@[i as int]@);
        assert(all.skip(i as int)[0] == all[i as int]);
        assert(all.skip(i as int).drop_first() == all.skip(i + 1));
        if levels[i].as_str().is_empty() {
            return Err(ApiError::bad_request("namespace levels must be non-empty"));
        }
        if has_char(levels[i].as_str(), UNIT_SEPARATOR) {
            return Err(ApiError::bad_request("namespace levels must not contain the 0x1F unit separator"));
        }
        i = i + 1;
    }
    Ok(())
}

/// The levels that a `{namespace}` parameter holds.
pub open spec fn param_levels(raw: Seq<char>) -> Seq<Seq<char>> {
    text::split_on(raw, UNIT_SEPARATOR)
}

/// Decodes a `{namespace}` parameter into levels.
pub fn decode_namespace_param(raw: &str) -> (r: Result<Vec<String>, ApiError>)
    ensures
        match levels_error(param_levels(raw@)) {
            None => r matches Ok(levels) && text::texts(levels@) == param_levels(raw@),
            Some(e) => error::fails_with(r, e),
        },
        r is Ok == good_levels(param_levels(raw@)),
{
    let levels = split(raw, UNIT_SEPARATOR);
    match validate_levels(&levels) {
        Ok(()) => Ok(levels),
        Err(e) => Err(e),
    }
}

/// The levels of a namespace that is written with dots between them.
pub open spec fn dotted_levels(dotted: Seq<char>) -> Seq<Seq<char>> {
    text::split_on(dotted, '.')
}

/// Decodes a dotted namespace into levels.
pub fn decode_dotted_namespace(dotted: &str) -> (r: Result<Vec<String>, ApiError>)
    ensures
        match levels_error(dotted_levels(dotted@)) {
            None => r matches Ok(levels) && text::texts(levels@) == dotted_levels(dotted@),
            Some(e) => error::fails_with(r, e),
        },
        r is Ok == good_levels(dotted_levels(dotted@)),
{
    let levels = split(dotted, '.');
    match validate_levels(&levels) {
        Ok(()) => Ok(levels),
        Err(e) => Err(e),
    }
}

/// A namespace whose levels hold no dot can be addressed by its dotted form.
pub proof fn dotted_levels_round_trip(levels: Seq<Seq<char>>)
    requires
        good_levels(levels),
        forall|i: int| 0 <= i < levels.len() ==> !(#[trigger] levels[i]).contains('.'),
    ensures
        dotted_levels(text::join_with(levels, seq!['.'])) == levels,
        levels_error(dotted_levels(text::join_with(levels, seq!['.']))) is None,
{
    text::join_then_split(levels, '.');
    no_error_where_all_are_good(levels);
}

/// The `{namespace}` parameter of levels.
pub open spec fn encoded_levels(levels: Seq<Seq<char>>) -> Seq<char> {
    text::join_with(levels, seq![UNIT_SEPARATOR])
}

/// Every namespace that can be created can be addressed: the parameter of its
/// levels decodes to those levels.
pub proof fn levels_round_trip(levels: Seq<Seq<char>>)
    requires
        good_levels(levels),
    ensures
        param_levels(encoded_levels(levels)) == levels,
        levels_error(param_levels(encoded_levels(levels))) is None,
{
    assert forall|i: int| 0 <= i < levels.len() implies !(#[trigger] levels[i]).contains(UNIT_SEPARATOR) by {
        assert(level_error(levels[i]) is None);
    }
    text::join_then_split(levels, UNIT_SEPARATOR);
    no_error_where_all_are_good(levels);
}

/// The 404 of a namespace that does not exist.
pub open spec fn no_such_namespace(levels: Seq<Seq<char>>) -> error::ErrorView {
    error::error_of(
        ErrorKind::NoSuchNamespace,
        "namespace "@ + text::quoted(text::join_with(levels, "."@)) + " does not exist"@,
    )
}

/// The row of a namespace, or its 404.
pub fn found_namespace<T>(levels: &Vec<String>, found: Option<T>) -> (r: Result<T, ApiError>)
    ensures
        match found {
            Some(n) => r matches Ok(got) && got == n,
            None => error::fails_with(r, no_such_namespace(text::texts(levels@))),
        },
{
    match found {
        Some(n) => Ok(n),
        None => {
            let path = join(levels, ".");
            Err(ApiError::new(
                ErrorKind::NoSuchNamespace,
                cat3("namespace ", quote(path.as_str()).as_str(), " does not exist").as_str(),
            ))
        },
    }
}

// ---------------------------------------------------------------------------
// Page tokens
// ---------------------------------------------------------------------------

/// The lower-case hexadecimal digit of `d`.
pub open spec fn hex_digit(d: int) -> char {
    if d < 10 {
        (('0' as int) + d) as char
    } else {
        (('a' as int) + d - 10) as char
    }
}

/// The bytes in lower-case hexadecimal, two digits each.
pub open spec fn hex_text(bytes: Seq<u8>) -> Seq<char> {
    Seq::new(
        2 * bytes.len(),
        |i: int| hex_digit(if i % 2 == 0 { bytes[i / 2] as int / 16 } else { bytes[i / 2] as int % 16 }),
    )
}

/// What a hexadecimal digit of either case stands for.
pub open spec fn hex_value(b: u8) -> Option<int> {
    if 0x30 <= b <= 0x39 {
        Some(b - 0x30)
    } else if 0x61 <= b <= 0x66 {
        Some(b - 0x61 + 10)
    } else if 0x41 <= b <= 0x46 {
        Some(b - 0x41 + 10)
    } else {
        None
    }
}

/// Whether the bytes are hexadecimal digits, an even number of them.
pub open spec fn is_hex(bytes: Seq<u8>) -> bool {
    bytes.len() % 2 == 0 && forall|i: int| 0 <= i < bytes.len() ==> hex_value(#[trigger] bytes[i]) is Some
}

/// The bytes that hexadecimal digits stand for.
pub open spec fn unhex(bytes: Seq<u8>) -> Seq<u8> {
    Seq::new(
        bytes.len() / 2,
        |i: int| (16 * hex_value(bytes[2 * i])->0 + hex_value(bytes[2 * i + 1])->0) as u8,
    )
}

/// Whether a byte is a digit of Crockford's base 32, in either case.
pub open spec fn is_base32(b: u8) -> bool {
    ||| 0x30 <= b <= 0x39
    ||| (0x41 <= b <= 0x5a && b != 0x49 && b != 0x4c && b != 0x4f && b != 0x55)
    ||| (0x61 <= b <= 0x7a && b != 0x69 && b != 0x6c && b != 0x6f && b != 0x75)
}

/// Whether the text is a ULID: 26 digits of Crockford's base 32.
pub open spec fn is_ulid_text(id: Seq<char>) -> bool {
    let bytes = vstd::utf8::encode_utf8(id);
    bytes.len() == 26 && forall|i: int| 0 <= i < bytes.len() ==> is_base32(#[trigger] bytes[i])
}

/// `hex::encode`: two lower-case digits for each byte of the text.
#[verifier::external_body]
fn hex_encode(s: &str) -> (r: String)
    ensures
        r@ == hex_text(vstd::utf8::encode_utf8(s@)),
{
    hex::encode(s.as_bytes())
}

/// `hex::decode`: succeeds exactly on an even number of digits of either case,
/// and gives the bytes that they stand for.
#[verifier::external_body]
fn hex_decode(s: &str) -> (r: Option<Vec<u8>>)
    ensures
        r is Some == is_hex(vstd::utf8::encode_utf8(s@)),
        r matches Some(bytes) ==> bytes@ == unhex(vstd::utf8::encode_utf8(s@)),
{
    hex::decode(s).ok()
}

/// `std`'s `String::from_utf8`: succeeds exactly on valid UTF-8, and gives the
/// text that the bytes encode.
#[verifier::external_body]
fn utf8_text(bytes: Vec<u8>) -> (r: Option<String>)
    ensures
        r is Some == vstd::utf8::valid_utf8(bytes@),
        r matches Some(s) ==> s@ == vstd::utf8::decode_utf8(bytes@),
{
    String::from_utf8(bytes).ok()
}

/// `ulid::Ulid::from_str`: succeeds exactly on 26 digits of Crockford's base
/// 32, in either case.
#[verifier::external_body]
fn is_ulid(id: &str) -> (r: bool)
    ensures
        r == is_ulid_text(id@),
{
    ulid::Ulid::from_str(id).is_ok()
}

/// The page token that names a row.
pub open spec fn page_token(id: Seq<char>) -> Seq<char> {
    hex_text(vstd::utf8::encode_utf8(id))
}

/// The row that a page token names.
pub open spec fn page_token_id(token: Seq<char>) -> Option<Seq<char>> {
    let digits = vstd::utf8::encode_utf8(token);
    let bytes = unhex(digits);
    if is_hex(digits) && vstd::utf8::valid_utf8(bytes) && is_ulid_text(vstd::utf8::decode_utf8(bytes)) {
        Some(vstd::utf8::decode_utf8(bytes))
    } else {
        None
    }
}

/// The page token that names the last row of a page.
pub fn encode_page_token(last_id: &str) -> (r: String)
    ensures
        r@ == page_token(last_id@),
{
    hex_encode(last_id)
}

/// The row that a page token names.
pub fn decode_page_token(token: &str) -> (r: Result<String, ApiError>)
    ensures
        match page_token_id(token@) {
            Some(id) => r matches Ok(got) && got@ == id,
            None => error::fails_with(r, error::bad_request("invalid pageToken"@)),
        },
{
    let bytes = match hex_decode(token) {
        Some(bytes) => bytes,
        None => { return Err(ApiError::bad_request("invalid pageToken")); },
    };
    let id = match utf8_text(bytes) {
        Some(id) => id,
        None => { return Err(ApiError::bad_request("invalid pageToken")); },
    };
    if is_ulid(id.as_str()) {
        Ok(id)
    } else {
        Err(ApiError::bad_request("invalid pageToken"))
    }
}

proof fn hex_digits_are_read_back(d: int)
    requires
        0 <= d < 16,
    ensures
        (hex_digit(d) as u32) < 0x80,
        hex_value(hex_digit(d) as u8) == Some(d),
{
    assert(hex_digit(d) as u32 == if d < 10 { 0x30 + d } else { 0x61 + d - 10 });
}

/// A page token names the row it was made for: decoding gives back the id of
/// every row that has a ULID.
pub proof fn page_token_round_trip(id: Seq<char>)
    requires
        is_ulid_text(id),
    ensures
        page_token_id(page_token(id)) == Some(id),
{
    let bytes = vstd::utf8::encode_utf8(id);
    let token = hex_text(bytes);
    let digits = vstd::utf8::encode_utf8(token);
    assert forall|i: int| 0 <= i < token.len() implies (#[trigger] token[i] as u32) < 0x80 && hex_value(
        token[i] as u8,
    ) == Some(if i % 2 == 0 { bytes[i / 2] as int / 16 } else { bytes[i / 2] as int % 16 }) by {
        hex_digits_are_read_back(bytes[i / 2] as int / 16);
        hex_digits_are_read_back(bytes[i / 2] as int % 16);
    }
    assert(vstd::utf8::is_ascii_chars(token));
    vstd::utf8::is_ascii_chars_encode_utf8(token);
    assert(digits =~= Seq::new(token.len(), |i: int| token[i] as u8));
    assert(is_hex(digits)) by {
        assert forall|i: int| 0 <= i < digits.len() implies hex_value(#[trigger] digits[i]) is Some by {
            assert(digits[i] == token[i] as u8);
        }
    }
    assert(unhex(digits) =~= bytes) by {
        assert forall|i: int| 0 <= i < bytes.len() implies unhex(digits)[i] == #[trigger] bytes[i] by {
            assert(digits[2 * i] == token[2 * i] as u8);
            assert(digits[2 * i + 1] == token[2 * i + 1] as u8);
            assert(2 * i / 2 == i && (2 * i + 1) / 2 == i);
            assert((2 * i) % 2 == 0 && (2 * i + 1) % 2 == 1);
        }
    }
    vstd::utf8::encode_utf8_valid_utf8(id);
    vstd::utf8::encode_utf8_decode_utf8(id);
}

// ---------------------------------------------------------------------------
// Pages
// ---------------------------------------------------------------------------

/// What a list route fetches: all rows, or a page after a row.
#[derive(Debug)]
pub struct Pagination {
    /// Page bound (`None` disables pagination).
    pub limit: Option<i64>,
    /// The id of the last row of the previous page.
    pub after_id: Option<String>,
}

/// The smaller of two numbers.
pub open spec fn smaller(a: i64, b: i64) -> i64 {
    if a < b { a } else { b }
}

/// The page size that a request asks for.
pub open spec fn size_asked(page_size: Option<i64>) -> i64 {
    match page_size {
        Some(n) => n,
        None => DEFAULT_PAGE_SIZE,
    }
}

/// The page that a request asks for: its bound, and the row before it. An
/// empty token is as good as none.
pub open spec fn page_asked(page_token: Option<Seq<char>>, page_size: Option<i64>) -> Result<
    (Option<i64>, Option<Seq<char>>),
    error::ErrorView,
> {
    if page_token is None && page_size is None {
        Ok((None, None))
    } else if size_asked(page_size) < 1 {
        Err(error::bad_request("pageSize must be at least 1"@))
    } else {
        let limit = Some(smaller(size_asked(page_size), MAX_PAGE_SIZE));
        match page_token {
            Some(token) if token.len() > 0 => match page_token_id(token) {
                Some(id) => Ok((limit, Some(id))),
                None => Err(error::bad_request("invalid pageToken"@)),
            },
            _ => Ok((limit, None)),
        }
    }
}

/// The page that a request asks for. Pagination starts where the client sends
/// a token, even an empty one, or a size.
pub fn resolve_pagination(page_token: Option<&str>, page_size: Option<i64>) -> (r: Result<Pagination, ApiError>)
    ensures
        match page_asked(text::opt_str(page_token), page_size) {
            Err(e) => error::fails_with(r, e),
            Ok((limit, after)) => r matches Ok(p) && p.limit == limit && text::opt_text(p.after_id) == after,
        },
        r matches Ok(p) ==> (p.limit matches Some(n) ==> 1 <= n <= MAX_PAGE_SIZE),
{
    if page_token.is_none() && page_size.is_none() {
        return Ok(Pagination { limit: None, after_id: None });
    }
    let size: i64 = match page_size {
        Some(n) => n,
        None => DEFAULT_PAGE_SIZE,
    };
    if size < 1 {
        return Err(ApiError::bad_request("pageSize must be at least 1"));
    }
    let after_id = match page_token {
        Some(token) => if token.is_empty() {
            None
        } else {
            match decode_page_token(token) {
                Ok(id) => Some(id),
                Err(e) => { return Err(e); },
            }
        },
        None => None,
    };
    let limit: i64 = if size < MAX_PAGE_SIZE { size } else { MAX_PAGE_SIZE };
    Ok(Pagination { limit: Some(limit), after_id })
}

/// How many rows a list route fetches: one more than the page, to learn
/// whether another page follows.
pub fn fetch_limit(pagination: &Pagination) -> (r: Option<i64>)
    requires
        pagination.limit matches Some(n) ==> n < i64::MAX,
    ensures
        r == (match pagination.limit {
            Some(n) => Some((n + 1) as i64),
            None => None,
        }),
{
    match pagination.limit {
        Some(n) => Some(n + 1),
        None => None,
    }
}

/// A row of a page, with the id that a token names it by.
#[derive(Debug)]
pub struct PageRow<T> {
    /// ULID of the row.
    pub id: String,
    /// The row.
    pub row: T,
}

/// Cuts an over-fetched page to its size, and gives the token of the next page
/// where there is one.
pub fn next_page_token<T>(rows: &mut Vec<PageRow<T>>, limit: Option<i64>) -> (r: Option<String>)
    ensures
        match limit {
            Some(n) if 0 <= n < old(rows)@.len() => {
                &&& final(rows)@ == old(rows)@.take(n as int)
                &&& text::opt_text(r) == (if n > 0 {
                    Some(page_token(old(rows)@[n - 1].id@))
                } else {
                    None
                })
            },
            _ => final(rows)@ == old(rows)@ && r is None,
        },
{
    let size: u64 = match limit {
        Some(n) => {
            if n < 0 {
                return None;
            }
            n as u64
        },
        None => { return None; },
    };
    if (rows.len() as u64) > size {
        let n: usize = size as usize;
        rows.truncate(n);
        if n > 0 {
            Some(encode_page_token(rows[n - 1].id.as_str()))
        } else {
            None
        }
    } else {
        None
    }
}

/// A token is handed out exactly when rows were left out of the page, and it
/// names the last row that was kept: no row is skipped and none comes twice.
pub proof fn pages_meet<T>(rows: Seq<PageRow<T>>, n: int)
    requires
        1 <= n < rows.len(),
        is_ulid_text(rows[n - 1].id@),
    ensures
        page_token_id(page_token(rows[n - 1].id@)) == Some(rows[n - 1].id@),
        rows.take(n) + rows.skip(n) == rows,
{
    page_token_round_trip(rows[n - 1].id@);
    assert(rows.take(n) + rows.skip(n) =~= rows);
}

// ---------------------------------------------------------------------------
// Routes
// ---------------------------------------------------------------------------

/// Query parameters of the namespace listing.
#[derive(Debug)]
pub struct ListNamespacesQuery {
    /// Optional parent namespace to list underneath.
    pub parent: Option<String>,
    /// Opaque continuation token from a previous response.
    pub page_token: Option<String>,
    /// Upper bound on the number of results.
    pub page_size: Option<i64>,
}

/// Response of the namespace listing.
#[derive(Debug)]
pub struct ListNamespacesResponse {
    /// Namespaces at the requested level.
    pub namespaces: Vec<Vec<String>>,
    /// Continuation token; absent at the end of the listing.
    pub next_page_token: Option<String>,
}

/// Request body to create a namespace.
#[derive(Debug)]
pub struct CreateNamespaceRequest {
    /// Namespace levels, outermost first.
    pub namespace: Vec<String>,
    /// Initial string properties.
    pub properties: TextMap<String>,
}

/// A namespace as the routes render it.
#[derive(Debug)]
pub struct NamespaceResponse {
    /// Namespace levels, outermost first.
    pub namespace: Vec<String>,
    /// Stored string properties.
    pub properties: TextMap<String>,
}

/// Request body to change a namespace's properties.
#[derive(Debug)]
pub struct UpdateNamespacePropertiesRequest {
    /// Property keys to remove.
    pub removals: Vec<String>,
    /// Property keys to set.
    pub updates: TextMap<String>,
}

/// Response of a change of a namespace's properties.
#[derive(Debug)]
pub struct UpdateNamespacePropertiesResponse {
    /// Keys added or updated.
    pub updated: Vec<String>,
    /// Keys removed.
    pub removed: Vec<String>,
    /// Keys requested for removal that were not present.
    pub missing: Vec<String>,
}

/// The next step of a namespace listing.
#[derive(Debug)]
pub enum ListStep {
    /// Ask whether the caller may list the warehouse's namespaces.
    AskList,
    /// Look up the parent namespace of these levels.
    AskParent(Vec<String>),
    /// Fetch this page of the namespaces under these levels.
    Fetch(Vec<String>, Pagination),
    /// Answer with the error.
    Refuse(ApiError),
}

/// The levels of the parent that a listing names; an empty parent is none.
pub open spec fn parent_given(query: ListNamespacesQuery) -> Option<Seq<Seq<char>>> {
    match query.parent {
        Some(p) => if p@.len() > 0 { Some(param_levels(p@)) } else { None },
        None => None,
    }
}

/// The error of a parent that does not exist.
pub open spec fn no_such_parent(levels: Seq<Seq<char>>) -> error::ErrorView {
    error::error_of(
        ErrorKind::NoSuchNamespace,
        "parent namespace "@ + text::quoted(text::join_with(levels, "."@)) + " does not exist"@,
    )
}

/// Whether the step fetches the page that the query asks for, or refuses it.
pub open spec fn asks_for_page(query: ListNamespacesQuery, parent: Seq<Seq<char>>, step: ListStep) -> bool {
    match page_asked(text::opt_text(query.page_token), query.page_size) {
        Err(e) => step matches ListStep::Refuse(got) && got@ == e,
        Ok((limit, after)) => {
            &&& step matches ListStep::Fetch(levels, p)
            &&& text::texts(levels@) == parent
            &&& p.limit == limit
            &&& text::opt_text(p.after_id) == after
        },
    }
}

/// Takes the next step of a namespace listing: access, then the parent, then
/// the page.
pub fn list_namespaces(access: &Option<Access>, query: &ListNamespacesQuery, parent_row: &Found<()>) -> (r: ListStep)
    ensures
        match *access {
            None => r is AskList,
            Some(access) => match grants::access_error(access) {
                Some(e) => r matches ListStep::Refuse(got) && got@ == e,
                None => match parent_given(*query) {
                    None => asks_for_page(*query, Seq::empty(), r),
                    Some(levels) => match levels_error(levels) {
                        Some(e) => r matches ListStep::Refuse(got) && got@ == e,
                        None => match *parent_row {
                            Found::Unasked => r matches ListStep::AskParent(got) && text::texts(got@) == levels,
                            Found::Missing => r matches ListStep::Refuse(got) && got@ == no_such_parent(levels),
                            Found::Is(_) => asks_for_page(*query, levels, r),
                        },
                    },
                },
            },
        },
{
    match access {
        None => { return ListStep::AskList; },
        Some(access) => match require(access) {
            Err(e) => { return ListStep::Refuse(e); },
            Ok(()) => {},
        },
    }
    let none: Vec<String> = Vec::new();
    assert(text::texts(none@) =~= Seq::<Seq<char>>::empty());
    let parent = match &query.parent {
        Some(raw) => if raw.as_str().is_empty() {
            none
        } else {
            let levels = match decode_namespace_param(raw.as_str()) {
                Ok(levels) => levels,
                Err(e) => { return ListStep::Refuse(e); },
            };
            match parent_row {
                Found::Unasked => { return ListStep::AskParent(levels); },
                Found::Missing => {
                    let path = join(&levels, ".");
                    return ListStep::Refuse(ApiError::new(
                        ErrorKind::NoSuchNamespace,
                        cat3("parent namespace ", quote(path.as_str()).as_str(), " does not exist").as_str(),
                    ));
                },
                Found::Is(_) => {},
            }
            levels
        },
        None => none,
    };
    let token = match &query.page_token {
        Some(t) => Some(t.as_str()),
        None => None,
    };
    match resolve_pagination(token, query.page_size) {
        Ok(p) => ListStep::Fetch(parent, p),
        Err(e) => ListStep::Refuse(e),
    }
}

/// The next step of creating a namespace.
#[derive(Clone, Copy, Debug, PartialEq, Eq, Structural)]
pub enum CreateNamespaceStep {
    /// Ask whether the caller may create namespaces in the warehouse.
    AskCreate,
    /// Create it.
    Create,
}

/// Takes the next step of creating a namespace: access, then its levels.
pub fn create_namespace(access: &Option<Access>, request: &CreateNamespaceRequest) -> (r: Result<
    CreateNamespaceStep,
    ApiError,
>)
    ensures
        match *access {
            None => r == Ok::<CreateNamespaceStep, ApiError>(CreateNamespaceStep::AskCreate),
            Some(access) => match grants::access_error(access) {
                Some(e) => error::fails_with(r, e),
                None => match levels_error(text::texts(request.namespace@)) {
                    Some(e) => error::fails_with(r, e),
                    None => r == Ok::<CreateNamespaceStep, ApiError>(CreateNamespaceStep::Create),
                },
            },
        },
        r matches Ok(step) ==> (step is Create <==> *access is Some),
        r matches Ok(step) ==> (step is Create ==> *access == Some(Access::Granted) && request.namespace@.len() > 0
            && forall|i: int| 0 <= i < request.namespace@.len() ==> (#[trigger] request.namespace@[i])@.len() > 0),
{
    proof {
        bad_levels_are_refused(text::texts(request.namespace@));
        assert forall|i: int| 0 <= i < request.namespace@.len() implies text::texts(request.namespace@)[i]
            == #[trigger] request.namespace@[i]@ by {
        }
    }
    match access {
        None => { return Ok(CreateNamespaceStep::AskCreate); },
        Some(access) => match require(access) {
            Err(e) => { return Err(e); },
            Ok(()) => {},
        },
    }
    match validate_levels(&request.namespace) {
        Err(e) => Err(e),
        Ok(()) => Ok(CreateNamespaceStep::Create),
    }
}

/// The next step of a route on one namespace.
#[derive(Debug)]
pub enum NamespaceStep {
    /// Ask whether the caller may list the warehouse's namespaces.
    AskList,
    /// Look up the namespace of these levels.
    AskNamespace(Vec<String>),
    /// Ask whether the caller may manage the namespace of these levels.
    AskManage(Vec<String>),
    /// Go on with the namespace of these levels.
    Open(Vec<String>),
}

/// Takes the next step of loading a namespace, or of asking whether it exists:
/// access, then the namespace.
pub fn load_namespace(access: &Option<Access>, raw_namespace: &str, namespace: &Found<()>) -> (r: Result<
    NamespaceStep,
    ApiError,
>)
    ensures
        match *access {
            None => r matches Ok(step) && step is AskList,
            Some(access) => match grants::access_error(access) {
                Some(e) => error::fails_with(r, e),
                None => match levels_error(param_levels(raw_namespace@)) {
                    Some(e) => error::fails_with(r, e),
                    None => match *namespace {
                        Found::Unasked => r matches Ok(NamespaceStep::AskNamespace(levels)) && text::texts(levels@)
                            == param_levels(raw_namespace@),
                        Found::Missing => error::fails_with(r, no_such_namespace(param_levels(raw_namespace@))),
                        Found::Is(_) => r matches Ok(NamespaceStep::Open(levels)) && text::texts(levels@)
                            == param_levels(raw_namespace@),
                    },
                },
            },
        },
        r matches Ok(step) ==> (step is Open ==> *access == Some(Access::Granted) && *namespace is Is),
        r matches Ok(NamespaceStep::Open(levels)) ==> encoded_levels(text::texts(levels@)) == raw_namespace@,
{
    proof {
        text::split_then_join(raw_namespace@, UNIT_SEPARATOR);
    }
    match access {
        None => { return Ok(NamespaceStep::AskList); },
        Some(access) => match require(access) {
            Err(e) => { return Err(e); },
            Ok(()) => {},
        },
    }
    let levels = match decode_namespace_param(raw_namespace) {
        Ok(levels) => levels,
        Err(e) => { return Err(e); },
    };
    match namespace {
        Found::Unasked => Ok(NamespaceStep::AskNamespace(levels)),
        Found::Missing => match found_namespace::<()>(&levels, None) {
            Err(e) => Err(e),
            Ok(()) => Ok(NamespaceStep::Open(levels)),
        },
        Found::Is(_) => Ok(NamespaceStep::Open(levels)),
    }
}

/// Takes the next step of dropping a namespace: its levels, then access along
/// its chain. Whether it exists and is empty, the store finds out as it drops
/// it.
pub fn drop_namespace(raw_namespace: &str, access: &Option<Access>) -> (r: Result<NamespaceStep, ApiError>)
    ensures
        match levels_error(param_levels(raw_namespace@)) {
            Some(e) => error::fails_with(r, e),
            None => match *access {
                None => r matches Ok(NamespaceStep::AskManage(levels)) && text::texts(levels@) == param_levels(
                    raw_namespace@,
                ),
                Some(access) => match grants::access_error(access) {
                    Some(e) => error::fails_with(r, e),
                    None => r matches Ok(NamespaceStep::Open(levels)) && text::texts(levels@) == param_levels(
                        raw_namespace@,
                    ),
                },
            },
        },
        r matches Ok(step) ==> (step is Open ==> *access == Some(Access::Granted)),
        r matches Ok(NamespaceStep::Open(levels)) ==> encoded_levels(text::texts(levels@)) == raw_namespace@,
{
    proof {
        text::split_then_join(raw_namespace@, UNIT_SEPARATOR);
    }
    let levels = match decode_namespace_param(raw_namespace) {
        Ok(levels) => levels,
        Err(e) => { return Err(e); },
    };
    match access {
        None => Ok(NamespaceStep::AskManage(levels)),
        Some(access) => match require(access) {
            Err(e) => Err(e),
            Ok(()) => Ok(NamespaceStep::Open(levels)),
        },
    }
}

/// A store failure of a namespace route: `conflict` says what a collision is.
pub open spec fn namespace_failure(error: StoreError, conflict: Option<ErrorKind>) -> error::ErrorView {
    match error.kind {
        StoreKind::NotFound => error::error_of(ErrorKind::NoSuchNamespace, error.message@),
        StoreKind::Conflict => match conflict {
            Some(kind) => error::error_of(kind, error.message@),
            None => error::store_failure(error),
        },
        _ => error::store_failure(error),
    }
}

fn map_namespace_error(error: &StoreError, conflict: Option<ErrorKind>) -> (r: ApiError)
    ensures
        r@ == namespace_failure(*error, conflict),
{
    match error.kind {
        StoreKind::NotFound => ApiError::new(ErrorKind::NoSuchNamespace, error.message.as_str()),
        StoreKind::Conflict => match conflict {
            Some(kind) => ApiError::new(kind, error.message.as_str()),
            None => ApiError::from_store(error),
        },
        _ => ApiError::from_store(error),
    }
}

/// The answer to a creation that the store refused.
pub fn create_namespace_error(error: &StoreError) -> (r: ApiError)
    ensures
        r@ == namespace_failure(*error, Some(ErrorKind::AlreadyExists)),
{
    map_namespace_error(error, Some(ErrorKind::AlreadyExists))
}

/// The answer to a drop that the store refused: a collision is a namespace
/// that still holds something.
pub fn drop_namespace_error(error: &StoreError) -> (r: ApiError)
    ensures
        r@ == namespace_failure(*error, Some(ErrorKind::NamespaceNotEmpty)),
{
    map_namespace_error(error, Some(ErrorKind::NamespaceNotEmpty))
}

/// The answer to a property change that the store refused.
pub fn update_properties_error(error: &StoreError) -> (r: ApiError)
    ensures
        r@ == namespace_failure(*error, None),
{
    map_namespace_error(error, None)
}

/// Whether the key is to be both set and removed.
pub open spec fn contradicts(request: UpdateNamespacePropertiesRequest, i: int) -> bool {
    0 <= i < request.removals@.len() && request.updates@.dom().contains(request.removals@[i]@)
}

/// The error of a key that is to be both set and removed.
pub open spec fn contradiction(key: Seq<char>) -> error::ErrorView {
    error::error_of(
        ErrorKind::Unprocessable,
        "property key "@ + text::quoted(key) + " is present in both updates and removals"@,
    )
}

/// Takes the next step of changing a namespace's properties: its levels, access
/// along its chain, then that no key is to be both set and removed.
pub fn update_namespace_properties(
    raw_namespace: &str,
    access: &Option<Access>,
    request: &UpdateNamespacePropertiesRequest,
) -> (r: Result<NamespaceStep, ApiError>)
    ensures
        match levels_error(param_levels(raw_namespace@)) {
            Some(e) => error::fails_with(r, e),
            None => match *access {
                None => r matches Ok(NamespaceStep::AskManage(levels)) && text::texts(levels@) == param_levels(
                    raw_namespace@,
                ),
                Some(access) => match grants::access_error(access) {
                    Some(e) => error::fails_with(r, e),
                    None => match r {
                        Ok(step) => {
                            &&& step matches NamespaceStep::Open(levels) && text::texts(levels@) == param_levels(
                                raw_namespace@,
                            )
                            &&& forall|i: int| !#[trigger] contradicts(*request, i)
                        },
                        Err(e) => exists|i: int|
                            {
                                &&& #[trigger] contradicts(*request, i)
                                &&& forall|j: int| 0 <= j < i ==> !#[trigger] contradicts(*request, j)
                                &&& e@ == contradiction(request.removals@[i]@)
                            },
                    },
                },
            },
        },
        r matches Ok(step) ==> (step is Open ==> *access == Some(Access::Granted)),
        r matches Ok(step) ==> (step is Open ==> forall|i: int|
            0 <= i < request.removals@.len() ==> !request.updates@.dom().contains((#[trigger] request.removals@[i])@)),
{
    let levels = match decode_namespace_param(raw_namespace) {
        Ok(levels) => levels,
        Err(e) => { return Err(e); },
    };
    match access {
        None => { return Ok(NamespaceStep::AskManage(levels)); },
        Some(access) => match require(access) {
            Err(e) => { return Err(e); },
            Ok(()) => {},
        },
    }
    let mut i: usize = 0;
    while i < request.removals.len()
        invariant
            i <= request.removals@.len(),
            levels_error(param_levels(raw_namespace@)) is None,
            text::texts(levels@) == param_levels(raw_namespace@),
            *access matches Some(access) && grants::access_error(access) is None,
            forall|j: int| 0 <= j < i ==> !#[trigger] contradicts(*request, j),
        decreases request.removals@.len() - i,
    {
        let key = request.removals[i].as_str();
        if request.updates.has(key) {
            assert(contradicts(*request, i as int));
            return Err(ApiError::new(
                ErrorKind::Unprocessable,
                cat3("property key ", quote(key).as_str(), " is present in both updates and removals").as_str(),
            ));
        }
        assert(!contradicts(*request, i as int));
        i = i + 1;
    }
    assert forall|k: int| 0 <= k < request.removals@.len() implies !request.updates@.dom().contains(
        (#[trigger] request.removals@[k])@,
    ) by {
        assert(!contradicts(*request, k));
    }
    Ok(NamespaceStep::Open(levels))
}

/// A page is asked for with a token or a size; without either, everything is
/// listed. Its size is the one that is asked for, a hundred where none is, and a
/// thousand at most; a size below one is a bad request. It starts after the
/// entry that the token names, and at the first one where the token is empty; a
/// token that names none is a bad request.
pub proof fn pages_are_asked_for(token: Option<Seq<char>>, page_size: Option<i64>)
    ensures
        ({
            let size = match page_size {
                Some(n) => n as int,
                None => 100int,
            };
            let paged = token is Some || page_size is Some;
            match page_asked(token, page_size) {
                Ok((limit, after)) => {
                    &&& limit is Some <==> paged
                    &&& limit matches Some(n) ==> n == (if size < 1000 {
                        size
                    } else {
                        1000
                    }) && n >= 1
                    &&& after is Some <==> (token matches Some(t) && t.len() > 0)
                    &&& after matches Some(id) ==> page_token_id(token->0) == Some(id)
                },
                Err(e) => paged && e.kind == ErrorKind::BadRequest && (size < 1 || (token matches Some(t) && t.len() > 0
                    && page_token_id(t) is None)),
            }
        }),
{
}

/// A failure of the store is told as the namespace routes tell it: what is
/// missing is a missing namespace, and a conflict is what the route calls it.
pub proof fn namespace_failures_are_told(error: StoreError, conflict: Option<ErrorKind>)
    ensures
        error.kind == StoreKind::NotFound ==> namespace_failure(error, conflict).kind == ErrorKind::NoSuchNamespace,
        error.kind == StoreKind::Conflict ==> (conflict matches Some(kind) ==> namespace_failure(error, conflict).kind
            == kind),
        error.kind == StoreKind::NotFound || (error.kind == StoreKind::Conflict && conflict is Some)
            ==> namespace_failure(error, conflict).message == error.message@,
{
}

} // verus!
