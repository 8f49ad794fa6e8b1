//! Text: comparison, splitting, joining, trimming and rendering.
//!
//! A piece of text is modelled by its sequence of characters. The spec
//! functions say what each operation means on such a sequence; the executable
//! functions compute it on `str` and `String`.

use vstd::prelude::*;

verus! {

// ---------------------------------------------------------------------------
// Models
// ---------------------------------------------------------------------------

/// The texts that a list of strings holds.
pub open spec fn texts(items: Seq<String>) -> Seq<Seq<char>> {
    items.map_values(|s: String| s@)
}

/// The text that an optional string holds.
pub open spec fn opt_text(item: Option<String>) -> Option<Seq<char>> {
    match item {
        Some(s) => Some(s@),
        None => None,
    }
}

/// The text that an optional borrowed string holds.
pub open spec fn opt_str(item: Option<&str>) -> Option<Seq<char>> {
    match item {
        Some(s) => Some(s@),
        None => None,
    }
}

/// How many bytes the text takes in UTF-8.
pub open spec fn byte_len(s: Seq<char>) -> usize {
    vstd::utf8::encode_utf8(s).len() as usize
}

/// The pieces of `s` between the occurrences of `sep`. There is always at
/// least one piece, and neighbouring separators give an empty piece.
pub open spec fn split_on(s: Seq<char>, sep: char) -> Seq<Seq<char>>
    decreases s.len(),
{
    if s.len() == 0 {
        seq![Seq::<char>::empty()]
    } else {
        let front = split_on(s.drop_last(), sep);
        if s.last() == sep {
            front.push(Seq::<char>::empty())
        } else {
            front.drop_last().push(front.last().push(s.last()))
        }
    }
}

/// The pieces put together with `sep` between each two neighbours.
pub open spec fn join_with(pieces: Seq<Seq<char>>, sep: Seq<char>) -> Seq<char>
    decreases pieces.len(),
{
    if pieces.len() == 0 {
        Seq::<char>::empty()
    } else if pieces.len() == 1 {
        pieces[0]
    } else {
        join_with(pieces.drop_last(), sep) + sep + pieces.last()
    }
}

/// The code points with the Unicode `White_Space` property.
pub open spec fn is_white_space(c: char) -> bool {
    ||| 0x09 <= c as u32 <= 0x0d
    ||| c as u32 == 0x20
    ||| c as u32 == 0x85
    ||| c as u32 == 0xa0
    ||| c as u32 == 0x1680
    ||| 0x2000 <= c as u32 <= 0x200a
    ||| c as u32 == 0x2028
    ||| c as u32 == 0x2029
    ||| c as u32 == 0x202f
    ||| c as u32 == 0x205f
    ||| c as u32 == 0x3000
}

/// The code points of the Unicode category of control characters.
pub open spec fn is_control_char(c: char) -> bool {
    c as u32 <= 0x1f || 0x7f <= c as u32 <= 0x9f
}

/// An ASCII letter or digit.
pub open spec fn is_alnum(c: char) -> bool {
    ||| 'a' as u32 <= c as u32 <= 'z' as u32
    ||| 'A' as u32 <= c as u32 <= 'Z' as u32
    ||| '0' as u32 <= c as u32 <= '9' as u32
}

/// `s` without the white space it starts with.
pub open spec fn trimmed_start(s: Seq<char>) -> Seq<char>
    decreases s.len(),
{
    if s.len() > 0 && is_white_space(s[0]) {
        trimmed_start(s.drop_first())
    } else {
        s
    }
}

/// `s` without the white space it ends with.
pub open spec fn trimmed_end(s: Seq<char>) -> Seq<char>
    decreases s.len(),
{
    if s.len() > 0 && is_white_space(s.last()) {
        trimmed_end(s.drop_last())
    } else {
        s
    }
}

/// `s` without the white space at its two ends.
pub open spec fn trimmed(s: Seq<char>) -> Seq<char> {
    trimmed_end(trimmed_start(s))
}

/// Whether nothing but white space is in `s`.
pub open spec fn is_blank(s: Seq<char>) -> bool {
    forall|i: int| 0 <= i < s.len() ==> is_white_space(#[trigger] s[i])
}

/// `s` without the characters `c` that it ends with.
pub open spec fn without_trailing(s: Seq<char>, c: char) -> Seq<char>
    decreases s.len(),
{
    if s.len() > 0 && s.last() == c {
        without_trailing(s.drop_last(), c)
    } else {
        s
    }
}

/// `s` without the characters `c` that it starts with.
pub open spec fn without_leading(s: Seq<char>, c: char) -> Seq<char>
    decreases s.len(),
{
    if s.len() > 0 && s[0] == c {
        without_leading(s.drop_first(), c)
    } else {
        s
    }
}

/// `s` without every leading copy of `prefix`, which is not empty.
pub open spec fn without_leading_copies(s: Seq<char>, prefix: Seq<char>) -> Seq<char>
    decreases s.len(),
{
    if prefix.len() > 0 && prefix.is_prefix_of(s) {
        without_leading_copies(s.skip(prefix.len() as int), prefix)
    } else {
        s
    }
}

/// The decimal digit of `d`.
pub open spec fn digit_char(d: int) -> char {
    (('0' as int) + d) as char
}

/// `n` in decimal.
pub open spec fn decimal_nat(n: nat) -> Seq<char>
    decreases n,
{
    if n < 10 {
        seq![digit_char(n as int)]
    } else {
        decimal_nat(n / 10).push(digit_char((n % 10) as int))
    }
}

/// `n` in decimal, with a minus sign where it is negative.
pub open spec fn decimal(n: int) -> Seq<char> {
    if n < 0 {
        seq!['-'] + decimal_nat((-n) as nat)
    } else {
        decimal_nat(n as nat)
    }
}

/// `c` with an ASCII capital made small.
pub open spec fn ascii_lower(c: char) -> char {
    if 'A' as u32 <= c as u32 <= 'Z' as u32 {
        ((c as u32) + 32) as char
    } else {
        c
    }
}

/// `s` with its ASCII capitals made small.
pub open spec fn ascii_lowered(s: Seq<char>) -> Seq<char> {
    s.map_values(|c: char| ascii_lower(c))
}

/// `a` comes before `b` in the order of their code points.
pub open spec fn text_before(a: Seq<char>, b: Seq<char>) -> bool
    decreases a.len(),
{
    if b.len() == 0 {
        false
    } else if a.len() == 0 {
        true
    } else if a[0] != b[0] {
        (a[0] as int) < (b[0] as int)
    } else {
        text_before(a.drop_first(), b.drop_first())
    }
}

// ---------------------------------------------------------------------------
// Strings of std
// ---------------------------------------------------------------------------

/// `std`'s `String::push`: appends one character.
pub assume_specification[ String::push ](s: &mut String, c: char)
    ensures
        final(s)@ == old(s)@.push(c),
;

/// A name for what `{:?}` of `std` renders a string as: the text in double
/// quotes, with its quotes, backslashes and unprintable characters escaped.
pub uninterp spec fn quoted(s: Seq<char>) -> Seq<char>;

/// `{:?}` of `std` on a string. Claims only that the rendering is a function
/// of the text.
#[verifier::external_body]
pub(crate) fn quote(s: &str) -> (r: String)
    ensures
        r@ == quoted(s@),
{
    format!("{s:?}")
}

/// A name for what `str::to_lowercase` of `std` returns.
pub uninterp spec fn lowercased(s: Seq<char>) -> Seq<char>;

/// `str::to_lowercase` of `std`. Claims only that the result is a function of
/// the text.
#[verifier::external_body]
pub(crate) fn lowercase(s: &str) -> (r: String)
    ensures
        r@ == lowercased(s@),
{
    s.to_lowercase()
}

// ---------------------------------------------------------------------------
// Comparison and building
// ---------------------------------------------------------------------------

/// How many characters the text has.
pub fn char_count(s: &str) -> (r: usize)
    ensures
        r == s@.len(),
{
    to_chars(s).len()
}

/// The characters of `s`.
pub fn to_chars(s: &str) -> (r: Vec<char>)
    ensures
        r@ == s@,
{
    let mut out: Vec<char> = Vec::new();
    for c in it: s.chars()
        invariant
            out@ == it.seq().take(it.index()),
            it.seq() == s@,
    {
        out.push(c);
        assert(it.seq().take(it.index()).push(c) == it.seq().take(it.index() + 1));
    }
    assert(s@.take(s@.len() as int) == s@);
    out
}

/// Whether the two texts are equal.
pub fn same(a: &str, b: &str) -> (r: bool)
    ensures
        r == (a@ == b@),
{
    a.to_owned() == b.to_owned()
}

/// `a` then `b`.
pub fn cat2(a: &str, b: &str) -> (r: String)
    ensures
        r@ == a@ + b@,
{
    a.to_owned().concat(b)
}

/// `a`, `b`, `c` in a row.
pub fn cat3(a: &str, b: &str, c: &str) -> (r: String)
    ensures
        r@ == a@ + b@ + c@,
{
    a.to_owned().concat(b).concat(c)
}

/// Four texts in a row.
pub fn cat4(a: &str, b: &str, c: &str, d: &str) -> (r: String)
    ensures
        r@ == a@ + b@ + c@ + d@,
{
    a.to_owned().concat(b).concat(c).concat(d)
}

/// Five texts in a row.
pub fn cat5(a: &str, b: &str, c: &str, d: &str, e: &str) -> (r: String)
    ensures
        r@ == a@ + b@ + c@ + d@ + e@,
{
    a.to_owned().concat(b).concat(c).concat(d).concat(e)
}

/// Whether `items` holds the text `s`.
pub fn holds(items: &Vec<String>, s: &str) -> (r: bool)
    ensures
        r == texts(items@).contains(s@),
{
    let mut i: usize = 0;
    while i < items.len()
        invariant
            i <= items@.len(),
            forall|j: int| 0 <= j < i ==> texts(items@)[j] != s@,
        decreases items@.len() - i,
    {
        if same(items[i].as_str(), s) {
            assert(texts(items@)[i as int] == s@);
            return true;
        }
        assert(texts(items@)[i as int] == items@[i as int]@);
        i = i + 1;
    }
    assert(!texts(items@).contains(s@));
    false
}

/// A copy of a list of strings.
pub fn copy_texts(items: &Vec<String>) -> (r: Vec<String>)
    ensures
        r@ == items@,
{
    let mut out: Vec<String> = Vec::new();
    let mut i: usize = 0;
    while i < items.len()
        invariant
            i <= items@.len(),
            out@ == items@.take(i as int),
        decreases items@.len() - i,
    {
        out.push(items[i].clone());
        assert(items@.take(i as int).push(items@[i as int]) == items@.take(i + 1));
        i = i + 1;
    }
    assert(items@.take(items@.len() as int) == items@);
    out
}

/// Whether the two lists hold the same texts.
pub fn same_texts(a: &Vec<String>, b: &Vec<String>) -> (r: bool)
    ensures
        r == (texts(a@) == texts(b@)),
{
    if a.len() != b.len() {
        assert(texts(a@).len() != texts(b@).len());
        return false;
    }
    let mut i: usize = 0;
    while i < a.len()
        invariant
            i <= a@.len(),
            a@.len() == b@.len(),
            forall|j: int| 0 <= j < i ==> texts(a@)[j] == texts(b@)[j],
        decreases a@.len() - i,
    {
        if !same(a[i].as_str(), b[i].as_str()) {
            assert(texts(a@)[i as int] != texts(b@)[i as int]);
            return false;
        }
        i = i + 1;
    }
    assert(texts(a@) =~= texts(b@));
    true
}

/// Whether `s` holds the character `c`.
pub fn has_char(s: &str, c: char) -> (r: bool)
    ensures
        r == s@.contains(c),
{
    let chars = to_chars(s);
    let mut i: usize = 0;
    while i < chars.len()
        invariant
            i <= chars@.len(),
            chars@ == s@,
            forall|j: int| 0 <= j < i ==> s@[j] != c,
        decreases chars@.len() - i,
    {
        if chars[i] == c {
            assert(s@[i as int] == c);
            return true;
        }
        i = i + 1;
    }
    assert(!s@.contains(c));
    false
}

/// Whether `s` starts with `prefix`.
pub fn starts(s: &str, prefix: &str) -> (r: bool)
    ensures
        r == prefix@.is_prefix_of(s@),
{
    let a = to_chars(s);
    let b = to_chars(prefix);
    if b.len() > a.len() {
        return false;
    }
    let mut i: usize = 0;
    while i < b.len()
        invariant
            i <= b@.len() <= a@.len(),
            a@ == s@,
            b@ == prefix@,
            forall|j: int| 0 <= j < i ==> s@[j] == prefix@[j],
        decreases b@.len() - i,
    {
        if a[i] != b[i] {
            assert(s@.take(b@.len() as int)[i as int] != prefix@[i as int]);
            return false;
        }
        i = i + 1;
    }
    assert(prefix@ == s@.take(prefix@.len() as int));
    true
}

/// What follows `prefix` in `s`, where `s` starts with it.
pub fn after_prefix<'a>(s: &'a str, prefix: &str) -> (r: Option<&'a str>)
    ensures
        r is Some == prefix@.is_prefix_of(s@),
        r matches Some(rest) ==> rest@ == s@.skip(prefix@.len() as int),
{
    if starts(s, prefix) {
        let rest = s.substring_char(prefix.unicode_len(), s.unicode_len());
        Some(rest)
    } else {
        None
    }
}

// ---------------------------------------------------------------------------
// Splitting and joining
// ---------------------------------------------------------------------------

/// The pieces of `s` between the occurrences of `sep`.
pub fn split(s: &str, sep: char) -> (r: Vec<String>)
    ensures
        texts(r@) == split_on(s@, sep),
        r@.len() >= 1,
{
    let mut out: Vec<String> = Vec::new();
    let mut current = String::new();
    assert(texts(out@).push(current@) == seq![Seq::<char>::empty()]);
    for c in it: s.chars()
        invariant
            it.seq() == s@,
            texts(out@).push(current@) == split_on(it.seq().take(it.index()), sep),
    {
        let ghost taken = it.seq().take(it.index());
        let ghost more = it.seq().take(it.index() + 1);
        assert(more.drop_last() == taken && more.last() == c);
        let ghost front = split_on(taken, sep);
        assert(front.drop_last() == texts(out@) && front.last() == current@);
        if c == sep {
            let ghost before = out@;
            out.push(current);
            assert(texts(out@) == texts(before).push(current@));
            current = String::new();
        } else {
            current.push(c);
        }
    }
    assert(s@.take(s@.len() as int) == s@);
    let ghost before = out@;
    out.push(current);
    assert(texts(out@) == texts(before).push(current@));
    out
}

/// The strings put together with `sep` between each two neighbours.
pub fn join(items: &Vec<String>, sep: &str) -> (r: String)
    ensures
        r@ == join_with(texts(items@), sep@),
{
    let mut out = String::new();
    let mut i: usize = 0;
    while i < items.len()
        invariant
            i <= items@.len(),
            out@ == join_with(texts(items@).take(i as int), sep@),
        decreases items@.len() - i,
    {
        let ghost more = texts(items@).take(i + 1);
        assert(more.drop_last() == texts(items@).take(i as int));
        assert(more.last() == items@[i as int]@);
        if i > 0 {
            out = out.concat(sep);
        }
        out = out.concat(items[i].as_str());
        assert(i == 0 ==> out@ == items@[0]@);
        i = i + 1;
    }
    assert(texts(items@).take(items@.len() as int) == texts(items@));
    out
}

/// There is always at least one piece, and no piece holds the separator.
pub proof fn split_pieces(s: Seq<char>, sep: char)
    ensures
        split_on(s, sep).len() >= 1,
        forall|i: int| 0 <= i < split_on(s, sep).len() ==> !(#[trigger] split_on(s, sep)[i]).contains(sep),
    decreases s.len(),
{
    if s.len() > 0 {
        split_pieces(s.drop_last(), sep);
        let front = split_on(s.drop_last(), sep);
        if s.last() != sep {
            let last = front.last().push(s.last());
            assert(!last.contains(sep)) by {
                if last.contains(sep) {
                    let k = choose|k: int| 0 <= k < last.len() && last[k] == sep;
                    assert(k < front.last().len() ==> front.last()[k] == sep);
                }
            }
        }
    }
}

/// Splitting a text on a separator and joining the pieces with it gives the
/// text back.
pub proof fn split_then_join(s: Seq<char>, sep: char)
    ensures
        join_with(split_on(s, sep), seq![sep]) == s,
    decreases s.len(),
{
    if s.len() > 0 {
        let front = split_on(s.drop_last(), sep);
        split_then_join(s.drop_last(), sep);
        split_pieces(s.drop_last(), sep);
        let all = split_on(s, sep);
        if s.last() == sep {
            assert(all.drop_last() == front);
            assert(join_with(all, seq![sep]) == s.drop_last() + seq![sep] + Seq::<char>::empty());
        } else if front.len() == 1 {
            assert(all[0] == s.drop_last().push(s.last()));
        } else {
            assert(all.drop_last() == front.drop_last());
            assert(join_with(all, seq![sep]) == join_with(front, seq![sep]).push(s.last()));
        }
        assert(s.drop_last().push(s.last()) == s);
    }
}

/// Appending text without the separator to a text extends the last piece.
proof fn split_extended(s: Seq<char>, t: Seq<char>, sep: char)
    requires
        !t.contains(sep),
    ensures
        split_on(s + t, sep) == split_on(s, sep).drop_last().push(split_on(s, sep).last() + t),
    decreases t.len(),
{
    split_pieces(s, sep);
    if t.len() == 0 {
        assert(s + t == s);
        assert(split_on(s, sep).last() + t == split_on(s, sep).last());
        assert(split_on(s, sep).drop_last().push(split_on(s, sep).last()) == split_on(s, sep));
    } else {
        assert(t.last() == t[t.len() - 1]);
        assert(t.last() != sep);
        assert forall|c: char| t.drop_last().contains(c) implies t.contains(c) by {
            let k = choose|k: int| 0 <= k < t.drop_last().len() && t.drop_last()[k] == c;
            assert(t[k] == c);
        }
        split_extended(s, t.drop_last(), sep);
        assert((s + t).drop_last() == s + t.drop_last());
        let front = split_on(s + t.drop_last(), sep);
        let last = split_on(s, sep).last();
        assert(front.drop_last() == split_on(s, sep).drop_last());
        assert((last + t.drop_last()).push(t.last()) == last + t);
    }
}

/// Joining pieces that hold no separator and splitting the result gives the
/// pieces back.
pub proof fn join_then_split(pieces: Seq<Seq<char>>, sep: char)
    requires
        pieces.len() >= 1,
        forall|i: int| 0 <= i < pieces.len() ==> !(#[trigger] pieces[i]).contains(sep),
    ensures
        split_on(join_with(pieces, seq![sep]), sep) == pieces,
    decreases pieces.len(),
{
    let none = Seq::<char>::empty();
    if pieces.len() == 1 {
        split_extended(none, pieces[0], sep);
        assert(none + pieces[0] == pieces[0]);
        assert(split_on(none, sep).drop_last().push(pieces[0]) == pieces);
    } else {
        let front = pieces.drop_last();
        assert forall|i: int| 0 <= i < front.len() implies !(#[trigger] front[i]).contains(sep) by {
            assert(front[i] == pieces[i]);
        }
        join_then_split(front, sep);
        let joined = join_with(front, seq![sep]);
        let with_sep = joined + seq![sep];
        assert(with_sep.drop_last() == joined);
        assert(split_on(with_sep, sep) == front.push(none));
        split_extended(with_sep, pieces.last(), sep);
        assert(none + pieces.last() == pieces.last());
        assert(front.push(none).drop_last().push(pieces.last()) == pieces);
    }
}

// ---------------------------------------------------------------------------
// Trimming
// ---------------------------------------------------------------------------

/// Whether `c` has the Unicode `White_Space` property.
pub fn white_space(c: char) -> (r: bool)
    ensures
        r == is_white_space(c),
{
    let n: u32 = c as u32;
    (0x09 <= n && n <= 0x0d) || n == 0x20 || n == 0x85 || n == 0xa0 || n == 0x1680
        || (0x2000 <= n && n <= 0x200a) || n == 0x2028 || n == 0x2029 || n == 0x202f || n == 0x205f
        || n == 0x3000
}

/// Whether `c` is a control character.
pub fn control_char(c: char) -> (r: bool)
    ensures
        r == is_control_char(c),
{
    let n: u32 = c as u32;
    n <= 0x1f || (0x7f <= n && n <= 0x9f)
}

/// Whether `c` is an ASCII letter or digit.
pub fn alnum(c: char) -> (r: bool)
    ensures
        r == is_alnum(c),
{
    let n: u32 = c as u32;
    (0x61 <= n && n <= 0x7a) || (0x41 <= n && n <= 0x5a) || (0x30 <= n && n <= 0x39)
}

proof fn trimmed_start_is(s: Seq<char>, n: int)
    requires
        0 <= n <= s.len(),
        forall|i: int| 0 <= i < n ==> is_white_space(#[trigger] s[i]),
        n < s.len() ==> !is_white_space(s[n]),
    ensures
        trimmed_start(s) == s.skip(n),
    decreases s.len(),
{
    if n > 0 {
        let rest = s.drop_first();
        assert forall|i: int| 0 <= i < n - 1 implies is_white_space(#[trigger] rest[i]) by {
            assert(rest[i] == s[i + 1]);
        }
        trimmed_start_is(rest, n - 1);
        assert(rest.skip(n - 1) == s.skip(n));
    } else {
        assert(s.skip(0) == s);
    }
}

proof fn trimmed_end_is(s: Seq<char>, n: int)
    requires
        0 <= n <= s.len(),
        forall|i: int| n <= i < s.len() ==> is_white_space(#[trigger] s[i]),
        n > 0 ==> !is_white_space(s[n - 1]),
    ensures
        trimmed_end(s) == s.take(n),
    decreases s.len(),
{
    if n < s.len() {
        let front = s.drop_last();
        assert forall|i: int| n <= i < front.len() implies is_white_space(#[trigger] front[i]) by {
            assert(front[i] == s[i]);
        }
        trimmed_end_is(front, n);
        assert(front.take(n) == s.take(n));
    } else {
        assert(s.take(n) == s);
    }
}

/// `s` without the white space at its two ends.
pub fn trim<'a>(s: &'a str) -> (r: &'a str)
    ensures
        r@ == trimmed(s@),
        (r@.len() == 0) == is_blank(s@),
{
    let chars = to_chars(s);
    let mut from: usize = 0;
    while from < chars.len() && white_space(chars[from])
        invariant
            from <= chars@.len(),
            chars@ == s@,
            forall|i: int| 0 <= i < from ==> is_white_space(#[trigger] s@[i]),
        ensures
            from < chars@.len() ==> !is_white_space(s@[from as int]),
        decreases chars@.len() - from,
    {
        from = from + 1;
    }
    let mut to: usize = chars.len();
    while to > from && white_space(chars[to - 1])
        invariant
            from <= to <= chars@.len(),
            chars@ == s@,
            forall|i: int| to <= i < s@.len() ==> is_white_space(#[trigger] s@[i]),
        ensures
            to > from ==> !is_white_space(s@[to - 1]),
        decreases to,
    {
        to = to - 1;
    }
    proof {
        trimmed_start_is(s@, from as int);
        let rest = s@.skip(from as int);
        assert forall|i: int| to - from <= i < rest.len() implies is_white_space(#[trigger] rest[i]) by {
            assert(rest[i] == s@[i + from]);
        }
        trimmed_end_is(rest, to - from);
        assert(rest.take(to - from) == s@.subrange(from as int, to as int));
        if to > from {
            assert(!is_white_space(s@[from as int]));
        } else {
            assert forall|i: int| 0 <= i < s@.len() implies is_white_space(#[trigger] s@[i]) by {
                assert(i < from || to <= i);
            }
        }
    }
    s.substring_char(from, to)
}

/// Whether nothing but white space is in `s`.
pub fn blank(s: &str) -> (r: bool)
    ensures
        r == is_blank(s@),
{
    trim(s).is_empty()
}

/// A text is trimmed to nothing exactly when it is blank.
pub proof fn blank_is_trimmed_to_nothing(s: Seq<char>)
    ensures
        is_blank(s) <==> trimmed(s).len() == 0,
{
    let n = first_visible(s);
    first_visible_is(s);
    trimmed_start_is(s, n);
    let rest = s.skip(n);
    if n < s.len() {
        assert(rest[0] == s[n]);
        trimmed_end_keeps(rest);
    } else {
        assert(rest == Seq::<char>::empty());
        assert forall|i: int| 0 <= i < s.len() implies is_white_space(#[trigger] s[i]) by {}
    }
}

spec fn first_visible(s: Seq<char>) -> int
    decreases s.len(),
{
    if s.len() > 0 && is_white_space(s[0]) {
        1 + first_visible(s.drop_first())
    } else {
        0
    }
}

proof fn first_visible_is(s: Seq<char>)
    ensures
        0 <= first_visible(s) <= s.len(),
        forall|i: int| 0 <= i < first_visible(s) ==> is_white_space(#[trigger] s[i]),
        first_visible(s) < s.len() ==> !is_white_space(s[first_visible(s)]),
    decreases s.len(),
{
    if s.len() > 0 && is_white_space(s[0]) {
        let rest = s.drop_first();
        first_visible_is(rest);
        assert forall|i: int| 0 <= i < first_visible(s) implies is_white_space(#[trigger] s[i]) by {
            if i > 0 {
                assert(rest[i - 1] == s[i]);
            }
        }
    }
}

proof fn trimmed_end_keeps(s: Seq<char>)
    requires
        s.len() > 0,
        !is_white_space(s[0]),
    ensures
        trimmed_end(s).len() > 0,
    decreases s.len(),
{
    if is_white_space(s.last()) {
        assert(s.drop_last()[0] == s[0]);
        trimmed_end_keeps(s.drop_last());
    }
}

/// `s` without the characters `c` that it ends with.
pub fn drop_trailing<'a>(s: &'a str, c: char) -> (r: &'a str)
    ensures
        r@ == without_trailing(s@, c),
{
    let chars = to_chars(s);
    let mut to: usize = chars.len();
    assert(s@.take(to as int) == s@);
    while to > 0 && chars[to - 1] == c
        invariant
            to <= chars@.len(),
            chars@ == s@,
            without_trailing(s@, c) == without_trailing(s@.take(to as int), c),
        ensures
            to > 0 ==> s@[to - 1] != c,
        decreases to,
    {
        assert(s@.take(to as int).drop_last() == s@.take(to - 1));
        to = to - 1;
    }
    assert(s@.take(to as int) == s@.subrange(0, to as int));
    s.substring_char(0, to)
}

/// `s` without the characters `c` that it starts with.
pub fn drop_leading<'a>(s: &'a str, c: char) -> (r: &'a str)
    ensures
        r@ == without_leading(s@, c),
{
    let chars = to_chars(s);
    let mut from: usize = 0;
    assert(s@.skip(0) == s@);
    while from < chars.len() && chars[from] == c
        invariant
            from <= chars@.len(),
            chars@ == s@,
            without_leading(s@, c) == without_leading(s@.skip(from as int), c),
        ensures
            from < chars@.len() ==> s@[from as int] != c,
        decreases chars@.len() - from,
    {
        assert(s@.skip(from as int).drop_first() == s@.skip(from + 1));
        from = from + 1;
    }
    assert(s@.skip(from as int) == s@.subrange(from as int, s@.len() as int));
    s.substring_char(from, chars.len())
}

/// `s` without every leading copy of `prefix`, which is not empty.
pub fn drop_leading_copies<'a>(s: &'a str, prefix: &str) -> (r: &'a str)
    ensures
        r@ == without_leading_copies(s@, prefix@),
{
    let mut rest = s;
    while !prefix.is_empty() && starts(rest, prefix)
        invariant
            without_leading_copies(s@, prefix@) == without_leading_copies(rest@, prefix@),
        ensures
            prefix@.len() == 0 || !prefix@.is_prefix_of(rest@),
        decreases rest@.len(),
    {
        let n = prefix.unicode_len();
        let all = rest.unicode_len();
        assert(rest@.skip(n as int) == rest@.subrange(n as int, all as int));
        rest = rest.substring_char(n, all);
    }
    rest
}

// ---------------------------------------------------------------------------
// Numbers, case and order
// ---------------------------------------------------------------------------

/// `n` in decimal.
pub fn decimal_u64(n: u64) -> (r: String)
    ensures
        r@ == decimal_nat(n as nat),
    decreases n,
{
    let d: u8 = (n % 10) as u8;
    let mut out = if n < 10 { String::new() } else { decimal_u64(n / 10) };
    out.push((0x30u8 + d) as char);
    assert(n < 10 ==> out@ == seq![digit_char(n as int)]);
    out
}

/// `n` in decimal, with a minus sign where it is negative.
pub fn decimal_i64(n: i64) -> (r: String)
    ensures
        r@ == decimal(n as int),
{
    if n >= 0 {
        decimal_u64(n as u64)
    } else {
        let m: i128 = -(n as i128);
        let mut out = String::new();
        out.push('-');
        assert(out@ == seq!['-']);
        out.concat(decimal_u64(m as u64).as_str())
    }
}

/// `c` with an ASCII capital made small.
pub fn lower_ascii(c: char) -> (r: char)
    ensures
        r == ascii_lower(c),
{
    let n: u32 = c as u32;
    if 0x41 <= n && n <= 0x5a {
        (n as u8 + 32) as char
    } else {
        c
    }
}

/// `s` with its ASCII capitals made small.
pub fn lowered_ascii(s: &str) -> (r: String)
    ensures
        r@ == ascii_lowered(s@),
{
    let mut out = String::new();
    for c in it: s.chars()
        invariant
            it.seq() == s@,
            out@ == ascii_lowered(it.seq().take(it.index())),
    {
        out.push(lower_ascii(c));
        assert(it.seq().take(it.index() + 1) == it.seq().take(it.index()).push(c));
        assert(ascii_lowered(it.seq().take(it.index() + 1))
            == ascii_lowered(it.seq().take(it.index())).push(ascii_lower(c)));
    }
    assert(s@.take(s@.len() as int) == s@);
    out
}

/// Whether the two texts are equal but for the case of ASCII letters.
pub fn same_ignoring_case(a: &str, b: &str) -> (r: bool)
    ensures
        r == (ascii_lowered(a@) == ascii_lowered(b@)),
{
    lowered_ascii(a) == lowered_ascii(b)
}

/// Whether the code point of `p` is less than that of `q`.
fn char_before(p: char, q: char) -> (r: bool)
    ensures
        r == ((p as int) < (q as int)),
{
    (p as u32) < (q as u32)
}

/// Whether `a` comes before `b` in the order of their code points.
pub fn before(a: &str, b: &str) -> (r: bool)
    ensures
        r == text_before(a@, b@),
{
    let x = to_chars(a);
    let y = to_chars(b);
    let mut i: usize = 0;
    assert(a@.skip(0) == a@ && b@.skip(0) == b@);
    while i < x.len() && i < y.len() && x[i] == y[i]
        invariant
            i <= x@.len(),
            i <= y@.len(),
            x@ == a@,
            y@ == b@,
            text_before(a@, b@) == text_before(a@.skip(i as int), b@.skip(i as int)),
        ensures
            i < x@.len() && i < y@.len() ==> a@[i as int] != b@[i as int],
        decreases x@.len() - i,
    {
        assert(a@.skip(i as int).drop_first() == a@.skip(i + 1));
        assert(b@.skip(i as int).drop_first() == b@.skip(i + 1));
        i = i + 1;
    }
    if i >= y.len() {
        false
    } else if i >= x.len() {
        true
    } else {
        char_before(x[i], y[i])
    }
}

/// Two different texts are ordered one way, and only one way.
pub proof fn order_is_total(a: Seq<char>, b: Seq<char>)
    ensures
        a == b ==> !text_before(a, b),
        a != b ==> (text_before(a, b) <==> !text_before(b, a)),
    decreases a.len(),
{
    if a.len() > 0 && b.len() > 0 {
        order_is_total(a.drop_first(), b.drop_first());
        if a[0] == b[0] && a.drop_first() == b.drop_first() {
            assert(a == seq![a[0]] + a.drop_first());
            assert(b == seq![b[0]] + b.drop_first());
        }
    } else if a.len() == 0 && b.len() == 0 {
        assert(a == b);
    }
}

/// The order of texts is transitive.
pub proof fn order_is_transitive(a: Seq<char>, b: Seq<char>, c: Seq<char>)
    requires
        text_before(a, b),
        text_before(b, c),
    ensures
        text_before(a, c),
    decreases a.len(),
{
    if a.len() > 0 && b.len() > 0 && c.len() > 0 {
        if a[0] == b[0] && b[0] == c[0] {
            order_is_transitive(a.drop_first(), b.drop_first(), c.drop_first());
        }
    }
}

// ---------------------------------------------------------------------------
// Reading numbers
// ---------------------------------------------------------------------------

/// Whether every character is a decimal digit.
pub open spec fn all_digits(s: Seq<char>) -> bool {
    forall|i: int| 0 <= i < s.len() ==> '0' as u32 <= (#[trigger] s[i]) as u32 <= '9' as u32
}

/// The number that decimal digits stand for.
pub open spec fn digits_value(s: Seq<char>) -> nat
    decreases s.len(),
{
    if s.len() == 0 {
        0
    } else {
        10 * digits_value(s.drop_last()) + ((s.last() as u32 - '0' as u32) as nat)
    }
}

/// The number that `s` stands for: digits, with a sign before them or none.
pub open spec fn signed_value(s: Seq<char>) -> Option<int> {
    if s.len() > 0 && (s[0] == '+' || s[0] == '-') {
        let rest = s.skip(1);
        if rest.len() > 0 && all_digits(rest) {
            Some(if s[0] == '-' { -(digits_value(rest) as int) } else { digits_value(rest) as int })
        } else {
            None
        }
    } else if s.len() > 0 && all_digits(s) {
        Some(digits_value(s) as int)
    } else {
        None
    }
}

proof fn digits_value_grows(s: Seq<char>, n: int)
    requires
        0 <= n <= s.len(),
        all_digits(s),
    ensures
        digits_value(s.take(n)) <= digits_value(s),
    decreases s.len() - n,
{
    if n < s.len() {
        digits_value_grows(s, n + 1);
        assert(s.take(n + 1).drop_last() == s.take(n));
        assert(digits_value(s.take(n)) <= digits_value(s.take(n + 1)));
    } else {
        assert(s.take(n) == s);
    }
}

/// Reads the digits from place `from` on; `None` where one is no digit, or the
/// number is above `limit`.
fn read_digits(chars: &Vec<char>, from: usize, limit: u64) -> (r: Option<u64>)
    requires
        from <= chars@.len(),
        limit <= 0x8000_0000_0000_0000,
    ensures
        r is Some == (all_digits(chars@.skip(from as int)) && digits_value(chars@.skip(from as int)) <= limit),
        r matches Some(v) ==> v == digits_value(chars@.skip(from as int)),
{
    let ghost digits = chars@.skip(from as int);
    let mut value: u64 = 0;
    let mut i: usize = from;
    assert(digits.take(0) == Seq::<char>::empty());
    while i < chars.len()
        invariant
            from <= i <= chars@.len(),
            digits == chars@.skip(from as int),
            limit <= 0x8000_0000_0000_0000,
            value <= limit,
            value == digits_value(digits.take(i - from)),
            forall|j: int| 0 <= j < i - from ==> '0' as u32 <= (#[trigger] digits[j]) as u32 <= '9' as u32,
        decreases chars@.len() - i,
    {
        let c: char = chars[i];
        assert(digits[i - from] == c);
        let n: u32 = code_of(c);
        if n < 0x30 || n > 0x39 {
            return None;
        }
        let d: u64 = (n - 0x30) as u64;
        let wide: u128 = 10 * (value as u128) + (d as u128);
        assert(digits.take(i - from + 1).drop_last() == digits.take(i - from));
        assert(wide == digits_value(digits.take(i - from + 1)));
        if wide > limit as u128 {
            proof {
                if all_digits(digits) {
                    digits_value_grows(digits, i - from + 1);
                }
            }
            return None;
        }
        value = wide as u64;
        i = i + 1;
    }
    assert(digits.take(i - from) == digits);
    Some(value)
}

/// The code point of `c`.
fn code_of(c: char) -> (r: u32)
    ensures
        r == c as u32,
{
    c as u32
}

/// Reads a number of at most `limit`: digits, after a plus sign or none.
pub fn parse_unsigned(s: &str, limit: u64) -> (r: Option<u64>)
    requires
        limit <= 0x8000_0000_0000_0000,
    ensures
        r is Some == (signed_value(s@) is Some && !(s@.len() > 0 && s@[0] == '-') && signed_value(s@)->0 <= limit),
        r matches Some(v) ==> v == signed_value(s@)->0,
{
    let chars = to_chars(s);
    if chars.len() == 0 {
        return None;
    }
    if chars[0] == '-' {
        return None;
    }
    if chars[0] == '+' {
        if chars.len() == 1 {
            assert(chars@.skip(1).len() == 0);
            return None;
        }
        read_digits(&chars, 1, limit)
    } else {
        assert(chars@.skip(0) == chars@);
        read_digits(&chars, 0, limit)
    }
}

/// Reads a signed number of 64 bits.
pub fn parse_i64(s: &str) -> (r: Option<i64>)
    ensures
        r is Some == (signed_value(s@) is Some && i64::MIN <= signed_value(s@)->0 <= i64::MAX),
        r matches Some(v) ==> v == signed_value(s@)->0,
{
    let chars = to_chars(s);
    if chars.len() > 0 && chars[0] == '-' {
        if chars.len() == 1 {
            assert(chars@.skip(1).len() == 0);
            return None;
        }
        match read_digits(&chars, 1, 0x8000_0000_0000_0000) {
            Some(v) => {
                let wide: i128 = -(v as i128);
                Some(wide as i64)
            },
            None => None,
        }
    } else {
        match parse_unsigned(s, 0x7fff_ffff_ffff_ffff) {
            Some(v) => Some(v as i64),
            None => None,
        }
    }
}

// ---------------------------------------------------------------------------
// Finding text
// ---------------------------------------------------------------------------

/// Whether `part` stands in `s` at place `i`.
pub open spec fn stands_in(s: Seq<char>, part: Seq<char>, i: int) -> bool {
    0 <= i <= s.len() - part.len() && s.subrange(i, i + part.len()) == part
}

/// Whether `part` stands in `s` at place `i`, and at no later place.
pub open spec fn stands_last(s: Seq<char>, part: Seq<char>, i: int) -> bool {
    stands_in(s, part, i) && forall|j: int| i < j ==> !#[trigger] stands_in(s, part, j)
}

fn stands(s: &Vec<char>, part: &Vec<char>, i: usize) -> (r: bool)
    ensures
        r == stands_in(s@, part@, i as int),
{
    let all: usize = s.len();
    if part.len() > all || i > all - part.len() {
        return false;
    }
    let mut k: usize = 0;
    while k < part.len()
        invariant
            all == s@.len(),
            i + part@.len() <= all,
            k <= part@.len(),
            forall|j: int| 0 <= j < k ==> s@[i + j] == part@[j],
        decreases part@.len() - k,
    {
        if s[i + k] != part[k] {
            assert(s@.subrange(i as int, i + part@.len())[k as int] != part@[k as int]);
            return false;
        }
        k = k + 1;
    }
    assert(s@.subrange(i as int, i + part@.len()) == part@);
    true
}

/// What stands before the last `part` of `s`.
pub fn before_last<'a>(s: &'a str, part: &str) -> (r: Option<&'a str>)
    ensures
        match r {
            Some(b) => exists|i: int| #[trigger] stands_last(s@, part@, i) && b@ == s@.take(i),
            None => forall|i: int| !#[trigger] stands_in(s@, part@, i),
        },
{
    let a = to_chars(s);
    let b = to_chars(part);
    if b.len() > a.len() {
        return None;
    }
    let mut i: usize = a.len() - b.len();
    loop
        invariant
            a@ == s@,
            b@ == part@,
            b@.len() <= a@.len(),
            i <= a@.len() - b@.len(),
            forall|j: int| i < j ==> !#[trigger] stands_in(s@, part@, j),
        decreases i,
    {
        if stands(&a, &b, i) {
            assert(stands_last(s@, part@, i as int));
            assert(s@.subrange(0, i as int) == s@.take(i as int));
            return Some(s.substring_char(0, i));
        }
        if i == 0 {
            assert forall|j: int| !#[trigger] stands_in(s@, part@, j) by {
                assert(j < 0 || j == 0 || 0 < j);
            }
            return None;
        }
        i = i - 1;
    }
}

/// The first place of `part` in `s`, from place `from` on.
pub open spec fn first_place(s: Seq<char>, part: Seq<char>, from: int) -> Option<int>
    decreases s.len() + 1 - from,
{
    if from < 0 || from > s.len() - part.len() {
        None
    } else if stands_in(s, part, from) {
        Some(from)
    } else {
        first_place(s, part, from + 1)
    }
}

/// What stands before the first `part` of `s`, and what stands after it.
pub fn split_once<'a>(s: &'a str, part: &str) -> (r: Option<(&'a str, &'a str)>)
    ensures
        match first_place(s@, part@, 0) {
            Some(i) => r matches Some(got) && got.0@ == s@.take(i) && got.1@ == s@.skip(i + part@.len()),
            None => r is None,
        },
{
    let a = to_chars(s);
    let b = to_chars(part);
    let all: usize = a.len();
    if b.len() > all {
        return None;
    }
    let last: usize = all - b.len();
    let mut i: usize = 0;
    while i <= last
        invariant
            a@ == s@,
            b@ == part@,
            all == a@.len(),
            last + b@.len() == all,
            i <= last + 1,
            first_place(s@, part@, 0) == first_place(s@, part@, i as int),
        decreases last + 1 - i,
    {
        if stands(&a, &b, i) {
            let head = s.substring_char(0, i);
            let tail = s.substring_char(i + b.len(), all);
            assert(head@ =~= s@.take(i as int));
            assert(tail@ =~= s@.skip(i + part@.len()));
            return Some((head, tail));
        }
        if i == last {
            assert(first_place(s@, part@, i + 1) is None);
            return None;
        }
        i = i + 1;
    }
    None
}

/// Whether `s` ends in `suffix`.
pub open spec fn ends_in(s: Seq<char>, suffix: Seq<char>) -> bool {
    stands_in(s, suffix, s.len() - suffix.len())
}

/// What stands before `suffix` in `s`, where `s` ends in it.
pub fn before_suffix<'a>(s: &'a str, suffix: &str) -> (r: Option<&'a str>)
    ensures
        r is Some == ends_in(s@, suffix@),
        r matches Some(b) ==> b@ == s@.take(s@.len() - suffix@.len()),
{
    let a = to_chars(s);
    let b = to_chars(suffix);
    if b.len() > a.len() {
        return None;
    }
    let i: usize = a.len() - b.len();
    if stands(&a, &b, i) {
        let head = s.substring_char(0, i);
        assert(head@ =~= s@.take(i as int));
        Some(head)
    } else {
        None
    }
}

proof fn decimal_digits_are_read(n: nat)
    ensures
        decimal_nat(n).len() > 0,
        all_digits(decimal_nat(n)),
        digits_value(decimal_nat(n)) == n,
    decreases n,
{
    if n < 10 {
        assert(decimal_nat(n).drop_last() =~= Seq::<char>::empty());
        assert(digits_value(Seq::<char>::empty()) == 0);
    } else {
        let front = decimal_nat(n / 10);
        decimal_digits_are_read(n / 10);
        assert(decimal_nat(n).drop_last() =~= front);
        assert forall|i: int| 0 <= i < decimal_nat(n).len() implies '0' as u32
            <= (#[trigger] decimal_nat(n)[i]) as u32 <= '9' as u32 by {
            if i < front.len() {
                assert(decimal_nat(n)[i] == front[i]);
            }
        }
    }
}

/// A number is read back from its decimal text.
pub proof fn decimals_round_trip(n: int)
    ensures
        signed_value(decimal(n)) == Some(n),
{
    if n < 0 {
        decimal_digits_are_read((-n) as nat);
        assert(decimal(n).skip(1) =~= decimal_nat((-n) as nat));
        assert(decimal(n)[0] == '-');
    } else {
        decimal_digits_are_read(n as nat);
        assert('0' as u32 <= decimal_nat(n as nat)[0] as u32 <= '9' as u32);
    }
}

proof fn starts_are_trimmed(s: Seq<char>) -> (front: Seq<char>)
    ensures
        is_blank(front),
        s == front + trimmed_start(s),
        trimmed_start(s).len() > 0 ==> !is_white_space(trimmed_start(s)[0]),
    decreases s.len(),
{
    if s.len() > 0 && is_white_space(s[0]) {
        let rest = starts_are_trimmed(s.drop_first());
        let front = seq![s[0]] + rest;
        assert(s =~= seq![s[0]] + s.drop_first());
        assert(seq![s[0]] + (rest + trimmed_start(s)) =~= front + trimmed_start(s));
        front
    } else {
        assert(s =~= Seq::<char>::empty() + s);
        Seq::empty()
    }
}

proof fn ends_are_trimmed(s: Seq<char>) -> (back: Seq<char>)
    ensures
        is_blank(back),
        s == trimmed_end(s) + back,
        trimmed_end(s).len() > 0 ==> !is_white_space(trimmed_end(s).last()),
    decreases s.len(),
{
    if s.len() > 0 && is_white_space(s.last()) {
        let rest = ends_are_trimmed(s.drop_last());
        let back = rest.push(s.last());
        assert(s =~= s.drop_last().push(s.last()));
        assert((trimmed_end(s) + rest).push(s.last()) =~= trimmed_end(s) + back);
        back
    } else {
        assert(s =~= s + Seq::<char>::empty());
        Seq::empty()
    }
}

/// Trimming takes away the white space at both ends, and nothing else.
pub proof fn white_ends_are_trimmed(s: Seq<char>)
    ensures
        exists|front: Seq<char>, back: Seq<char>|
            is_blank(front) && is_blank(back) && s == #[trigger] (front + trimmed(s) + back),
        trimmed(s).len() > 0 ==> !is_white_space(trimmed(s)[0]) && !is_white_space(trimmed(s).last()),
{
    let front = starts_are_trimmed(s);
    let middle = trimmed_start(s);
    let back = ends_are_trimmed(middle);
    assert(s =~= front + trimmed(s) + back);
    if trimmed(s).len() > 0 {
        assert(middle[0] == trimmed(s)[0]);
    }
}

/// What is taken from the end of a text are the copies of the character that it
/// ends in, and all of them.
pub proof fn trailing_copies_are_taken(s: Seq<char>, c: char)
    ensures
        without_trailing(s, c).len() > 0 ==> without_trailing(s, c).last() != c,
        without_trailing(s, c).len() <= s.len(),
        without_trailing(s, c) == s.take(without_trailing(s, c).len() as int),
        forall|i: int| without_trailing(s, c).len() <= i < s.len() ==> #[trigger] s[i] == c,
    decreases s.len(),
{
    if s.len() > 0 && s.last() == c {
        let rest = s.drop_last();
        trailing_copies_are_taken(rest, c);
        let kept = without_trailing(s, c);
        assert(kept =~= s.take(kept.len() as int));
        assert forall|i: int| kept.len() <= i < s.len() implies #[trigger] s[i] == c by {
            if i < rest.len() {
                assert(rest[i] == c);
            }
        }
    } else {
        assert(s =~= s.take(s.len() as int));
    }
}

/// Lowering the case of a text changes its capital letters of the alphabet and
/// nothing else; to do it twice is to do it once.
pub proof fn lowering_changes_letters_only(s: Seq<char>, i: int)
    requires
        0 <= i < s.len(),
    ensures
        ascii_lowered(s).len() == s.len(),
        'A' as u32 <= s[i] as u32 <= 'Z' as u32 ==> ascii_lowered(s)[i] == ((s[i] as u32) + 32) as char,
        !('A' as u32 <= s[i] as u32 <= 'Z' as u32) ==> ascii_lowered(s)[i] == s[i],
        ascii_lowered(ascii_lowered(s)) == ascii_lowered(s),
{
    assert(ascii_lowered(ascii_lowered(s)) =~= ascii_lowered(s));
}

} // verus!
