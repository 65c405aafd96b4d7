//! Strings as sequences of characters: comparing, trimming, splitting,
//! searching and decimal numbers.

use vstd::prelude::*;

verus! {

broadcast use vstd::string::group_string_axioms;

/// `std::string::String::push` adds one character at the end.
pub assume_specification[ String::push ](s: &mut String, c: char)
    ensures
        final(s)@ == old(s)@.push(c),
;

/// The lower-case form of an ASCII letter; any other character stays.
pub open spec fn lower_ascii(c: char) -> char {
    if 'A' <= c <= 'Z' {
        ((c as u32 + 32) as u32) as char
    } else {
        c
    }
}

/// Whether a text holds nothing but ASCII characters.
pub open spec fn all_ascii(s: Seq<char>) -> bool {
    forall|i: int| 0 <= i < s.len() ==> #[trigger] s[i] <= '\u{7f}'
}

/// The lower-case form of a text, as `str::to_lowercase` computes it from the
/// Unicode tables.
pub uninterp spec fn lowercase(s: Seq<char>) -> Seq<char>;

/// `str::to_lowercase`: the result is a function of the text alone. Of an ASCII
/// text it is the text with its letters in lower case.
#[verifier::external_body]
pub(crate) fn to_lowercase(s: &str) -> (r: String)
    ensures
        r@ == lowercase(s@),
        all_ascii(s@) ==> r@ == s@.map_values(|c: char| lower_ascii(c)),
{
    s.to_lowercase()
}

/// A text in double quotes with its special characters escaped, as the `Debug`
/// form of `str` writes it.
pub uninterp spec fn quoted(s: Seq<char>) -> Seq<char>;

/// `<str as std::fmt::Debug>::fmt`: the result is a function of the text alone.
#[verifier::external_body]
pub(crate) fn quote(s: &str) -> (r: String)
    ensures
        r@ == quoted(s@),
{
    format!("{s:?}")
}

/// The text of an optional string.
pub open spec fn opt_view(s: Option<String>) -> Option<Seq<char>> {
    match s {
        Some(text) => Some(text@),
        None => None,
    }
}

/// The text of an optional borrowed string.
pub open spec fn opt_str_view(s: Option<&str>) -> Option<Seq<char>> {
    match s {
        Some(text) => Some(text@),
        None => None,
    }
}

/// The texts of a list of strings.
pub open spec fn views(list: Seq<String>) -> Seq<Seq<char>> {
    list.map_values(|s: String| s@)
}

/// Whether two texts hold the same characters.
pub fn same(a: &str, b: &str) -> (r: bool)
    ensures
        r == (a@ == b@),
{
    a.to_owned() == b.to_owned()
}

/// Copies an optional string.
pub fn clone_opt(s: &Option<String>) -> (r: Option<String>)
    ensures
        r == *s,
{
    match s {
        Some(text) => Some(text.clone()),
        None => None,
    }
}

/// Copies a list of strings.
pub fn clone_list(list: &Vec<String>) -> (r: Vec<String>)
    ensures
        r@ == list@,
{
    let mut out: Vec<String> = Vec::new();
    let mut i: usize = 0;
    while i < list.len()
        invariant
            i <= list.len(),
            out@ == list@.take(i as int),
        decreases list.len() - i,
    {
        out.push(list[i].clone());
        i += 1;
    }
    assert(list@.take(i as int) == list@);
    out
}

/// The characters of a text.
pub fn chars(s: &str) -> (r: Vec<char>)
    ensures
        r@ == s@,
{
    let mut out: Vec<char> = Vec::new();
    for c in it: s.chars()
        invariant
            it.seq() == s@,
            out@ == it.seq().take(it.index()),
    {
        out.push(c);
    }
    out
}

/// The text made of `list[start..end]`.
pub fn slice(list: &Vec<char>, start: usize, end: usize) -> (r: String)
    requires
        start <= end <= list@.len(),
    ensures
        r@ == list@.subrange(start as int, end as int),
{
    let mut out = String::new();
    let mut i: usize = start;
    while i < end
        invariant
            start <= i <= end <= list@.len(),
            out@ == list@.subrange(start as int, i as int),
        decreases end - i,
    {
        out.push(list[i]);
        i += 1;
    }
    out
}

/// The concatenation of two texts.
pub fn concat2(a: &str, b: &str) -> (r: String)
    ensures
        r@ == a@ + b@,
{
    let mut out = a.to_owned();
    out.append(b);
    out
}

/// The concatenation of three texts.
pub fn concat3(a: &str, b: &str, c: &str) -> (r: String)
    ensures
        r@ == a@ + b@ + c@,
{
    let mut out = a.to_owned();
    out.append(b);
    out.append(c);
    out
}

// ---------------------------------------------------------------------------
// Order

/// Whether a text comes before another in the order of their characters, which
/// is also the order of their UTF-8 bytes.
pub open spec fn before(a: Seq<char>, b: Seq<char>) -> bool
    decreases a.len(),
{
    if b.len() == 0 {
        false
    } else if a.len() == 0 {
        true
    } else if a[0] == b[0] {
        before(a.drop_first(), b.drop_first())
    } else {
        a[0] < b[0]
    }
}

/// The order is total and no text comes before itself.
pub proof fn lemma_before_total(a: Seq<char>, b: Seq<char>)
    ensures
        before(a, b) || before(b, a) || a == b,
        !(before(a, b) && before(b, a)),
        !before(a, a),
    decreases a.len(),
{
    if a.len() > 0 {
        lemma_before_total(a.drop_first(), a.drop_first());
    }
    if a.len() > 0 && b.len() > 0 && a[0] == b[0] {
        lemma_before_total(a.drop_first(), b.drop_first());
        if a.drop_first() == b.drop_first() {
            assert(a == seq![a[0]] + a.drop_first());
            assert(b == seq![b[0]] + b.drop_first());
        }
    } else if a.len() == 0 && b.len() == 0 {
        assert(a == b);
    }
}

/// The order is transitive.
pub proof fn lemma_before_transitive(a: Seq<char>, b: Seq<char>, c: Seq<char>)
    requires
        before(a, b),
        before(b, c),
    ensures
        before(a, c),
    decreases a.len(),
{
    if a.len() > 0 && a[0] == b[0] && b[0] == c[0] {
        lemma_before_transitive(a.drop_first(), b.drop_first(), c.drop_first());
    }
}

proof fn lemma_before_after_prefix(a: Seq<char>, b: Seq<char>, k: int)
    requires
        0 <= k <= a.len(),
        k <= b.len(),
        a.take(k) == b.take(k),
    ensures
        before(a, b) == before(a.skip(k), b.skip(k)),
    decreases k,
{
    if k > 0 {
        assert(a[0] == a.take(k)[0] && b[0] == b.take(k)[0]);
        assert(a.drop_first().take(k - 1) == a.take(k).drop_first());
        assert(b.drop_first().take(k - 1) == b.take(k).drop_first());
        lemma_before_after_prefix(a.drop_first(), b.drop_first(), k - 1);
        assert(a.drop_first().skip(k - 1) == a.skip(k));
        assert(b.drop_first().skip(k - 1) == b.skip(k));
    } else {
        assert(a.skip(0) == a);
        assert(b.skip(0) == b);
    }
}

/// Whether a text comes before another.
pub fn comes_before(a: &str, b: &str) -> (r: bool)
    ensures
        r == before(a@, b@),
{
    let x = chars(a);
    let y = chars(b);
    let mut i: usize = 0;
    while i < x.len() && i < y.len() && x[i] == y[i]
        invariant
            i <= x@.len(),
            i <= y@.len(),
            x@.take(i as int) == y@.take(i as int),
        decreases x@.len() - i,
    {
        assert(x@.take(i + 1) == x@.take(i as int).push(x@[i as int]));
        assert(y@.take(i + 1) == y@.take(i as int).push(y@[i as int]));
        i += 1;
    }
    proof {
        lemma_before_after_prefix(a@, b@, i as int);
    }
    if i == y.len() {
        false
    } else if i == x.len() {
        true
    } else {
        x[i] < y[i]
    }
}

// ---------------------------------------------------------------------------
// White space and trimming

/// Unicode's `White_Space` property.
pub open spec fn white(c: char) -> bool {
    ||| 0x09 <= c as u32 <= 0x0d
    ||| c as u32 == 0x20
    ||| c as u32 == 0x85
    ||| c as u32 == 0xa0
    ||| c as u32 == 0x1680
    ||| 0x2000 <= c as u32 <= 0x200a
    ||| c as u32 == 0x2028
    ||| c as u32 == 0x2029
    ||| c as u32 == 0x202f
    ||| c as u32 == 0x205f
    ||| c as u32 == 0x3000
}

/// Whether a character is white space.
pub fn is_white(c: char) -> (r: bool)
    ensures
        r == white(c),
{
    let code: u32 = c as u32;
    (0x09 <= code && code <= 0x0d) || code == 0x20 || code == 0x85 || code == 0xa0 || code == 0x1680
        || (0x2000 <= code && code <= 0x200a) || code == 0x2028 || code == 0x2029 || code == 0x202f
        || code == 0x205f || code == 0x3000
}

/// A text without its leading white space.
pub open spec fn trim_start(s: Seq<char>) -> Seq<char>
    decreases s.len(),
{
    if s.len() > 0 && white(s[0]) {
        trim_start(s.drop_first())
    } else {
        s
    }
}

/// A text without its trailing white space.
pub open spec fn trim_end(s: Seq<char>) -> Seq<char>
    decreases s.len(),
{
    if s.len() > 0 && white(s.last()) {
        trim_end(s.drop_last())
    } else {
        s
    }
}

/// A text without white space at either end.
pub open spec fn trimmed(s: Seq<char>) -> Seq<char> {
    trim_end(trim_start(s))
}

/// Whether a text holds nothing but white space.
pub open spec fn blank(s: Seq<char>) -> bool {
    forall|i: int| 0 <= i < s.len() ==> white(#[trigger] s[i])
}

pub proof fn lemma_trim_start_at(s: Seq<char>, i: int)
    requires
        0 <= i <= s.len(),
        forall|j: int| 0 <= j < i ==> white(#[trigger] s[j]),
        i < s.len() ==> !white(s[i]),
    ensures
        trim_start(s) == s.skip(i),
    decreases i,
{
    if i > 0 {
        lemma_trim_start_at(s.drop_first(), i - 1);
        assert(s.drop_first().skip(i - 1) == s.skip(i));
    } else {
        assert(s.skip(0) == s);
    }
}

pub proof fn lemma_trim_end_at(s: Seq<char>, i: int)
    requires
        0 <= i <= s.len(),
        forall|j: int| i <= j < s.len() ==> white(#[trigger] s[j]),
        i > 0 ==> !white(s[i - 1]),
    ensures
        trim_end(s) == s.take(i),
    decreases s.len() - i,
{
    if i < s.len() {
        lemma_trim_end_at(s.drop_last(), i);
        assert(s.drop_last().take(i) == s.take(i));
    } else {
        assert(s.take(i) == s);
    }
}

/// A text is blank exactly when trimming leaves nothing of it.
pub proof fn lemma_blank_trims_to_nothing(s: Seq<char>)
    ensures
        blank(s) <==> trimmed(s).len() == 0,
    decreases s.len(),
{
    if s.len() > 0 && white(s[0]) {
        lemma_blank_trims_to_nothing(s.drop_first());
        if blank(s.drop_first()) {
            assert forall|i: int| 0 <= i < s.len() implies white(#[trigger] s[i]) by {
                if i > 0 {
                    assert(s[i] == s.drop_first()[i - 1]);
                }
            }
        }
        if blank(s) {
            assert forall|i: int| 0 <= i < s.drop_first().len() implies white(
                #[trigger] s.drop_first()[i],
            ) by {
                assert(s.drop_first()[i] == s[i + 1]);
            }
        }
    } else if s.len() > 0 {
        lemma_trim_end_keeps_head(s);
    }
}

proof fn lemma_trim_end_keeps_head(s: Seq<char>)
    requires
        s.len() > 0,
        !white(s[0]),
    ensures
        trim_end(s).len() > 0,
    decreases s.len(),
{
    if white(s.last()) {
        lemma_trim_end_keeps_head(s.drop_last());
    }
}

fn leading_white(list: &Vec<char>) -> (i: usize)
    ensures
        i <= list@.len(),
        forall|j: int| 0 <= j < i ==> white(#[trigger] list@[j]),
        i < list@.len() ==> !white(list@[i as int]),
{
    let mut i: usize = 0;
    while i < list.len() && is_white(list[i])
        invariant
            i <= list@.len(),
            forall|j: int| 0 <= j < i ==> white(#[trigger] list@[j]),
        decreases list@.len() - i,
    {
        i += 1;
    }
    i
}

fn trailing_white(list: &Vec<char>, from: usize) -> (i: usize)
    requires
        from <= list@.len(),
    ensures
        from <= i <= list@.len(),
        forall|j: int| i <= j < list@.len() ==> white(#[trigger] list@[j]),
        i > from ==> !white(list@[i - 1]),
{
    let mut i: usize = list.len();
    while i > from && is_white(list[i - 1])
        invariant
            from <= i <= list@.len(),
            forall|j: int| i <= j < list@.len() ==> white(#[trigger] list@[j]),
        decreases i,
    {
        i -= 1;
    }
    i
}

/// The text without white space at either end.
pub fn trim(s: &str) -> (r: String)
    ensures
        r@ == trimmed(s@),
{
    let list = chars(s);
    let start = leading_white(&list);
    let end = trailing_white(&list, start);
    proof {
        lemma_trim_start_at(s@, start as int);
        let rest = s@.skip(start as int);
        lemma_trim_end_at(rest, end - start);
        assert(rest.take(end - start) == s@.subrange(start as int, end as int));
    }
    slice(&list, start, end)
}

/// The text without white space at its end.
pub fn trimmed_end(s: &str) -> (r: String)
    ensures
        r@ == trim_end(s@),
{
    let list = chars(s);
    let end = trailing_white(&list, 0);
    proof {
        lemma_trim_end_at(s@, end as int);
        assert(s@.take(end as int) == s@.subrange(0, end as int));
    }
    slice(&list, 0, end)
}

/// Whether the text holds nothing but white space.
pub fn is_blank(s: &str) -> (r: bool)
    ensures
        r == blank(s@),
{
    let list = chars(s);
    let start = leading_white(&list);
    if start < list.len() {
        assert(!white(s@[start as int]));
    }
    start == list.len()
}

/// A text without the given character at its end.
pub open spec fn strip_end(s: Seq<char>, c: char) -> Seq<char>
    decreases s.len(),
{
    if s.len() > 0 && s.last() == c {
        strip_end(s.drop_last(), c)
    } else {
        s
    }
}

/// The text without any `c` at its end.
pub fn trim_end_char(s: &str, c: char) -> (r: String)
    ensures
        r@ == strip_end(s@, c),
{
    let list = chars(s);
    let mut end: usize = list.len();
    assert(s@.take(end as int) == s@);
    while end > 0 && list[end - 1] == c
        invariant
            end <= list@.len(),
            list@ == s@,
            strip_end(s@, c) == strip_end(s@.take(end as int), c),
        decreases end,
    {
        assert(s@.take(end as int).drop_last() == s@.take(end - 1));
        end -= 1;
    }
    assert(s@.take(end as int) == s@.subrange(0, end as int));
    slice(&list, 0, end)
}

// ---------------------------------------------------------------------------
// Searching

/// Whether `needle` stands in `hay` at `at`.
pub open spec fn at(hay: Seq<char>, needle: Seq<char>, at: int) -> bool {
    &&& 0 <= at
    &&& at + needle.len() <= hay.len()
    &&& hay.subrange(at, at + needle.len()) == needle
}

/// Whether `needle` stands somewhere in `hay`.
pub open spec fn within(hay: Seq<char>, needle: Seq<char>) -> bool {
    exists|i: int| at(hay, needle, i)
}

/// The first place where `needle` stands in `hay`.
pub open spec fn first_at(hay: Seq<char>, needle: Seq<char>, i: int) -> bool {
    &&& at(hay, needle, i)
    &&& forall|j: int| 0 <= j < i ==> !at(hay, needle, j)
}

fn stands_at(hay: &Vec<char>, needle: &Vec<char>, start: usize) -> (r: bool)
    ensures
        r == at(hay@, needle@, start as int),
{
    if start > hay.len() || hay.len() - start < needle.len() {
        return false;
    }
    let mut k: usize = 0;
    while k < needle.len()
        invariant
            k <= needle@.len(),
            start + needle.len() <= hay.len(),
            forall|j: int| 0 <= j < k ==> hay@[start + j] == needle@[j],
        decreases needle@.len() - k,
    {
        if hay[start + k] != needle[k] {
            assert(hay@.subrange(start as int, start + needle@.len())[k as int] != needle@[k as int]);
            return false;
        }
        k += 1;
    }
    assert(hay@.subrange(start as int, start + needle@.len()) == needle@);
    true
}

/// The first place at which `needle` stands in `hay`, if any.
pub fn find(hay: &Vec<char>, needle: &Vec<char>) -> (r: Option<usize>)
    ensures
        match r {
            Some(i) => first_at(hay@, needle@, i as int),
            None => !within(hay@, needle@),
        },
{
    find_from(hay, needle, 0)
}

/// The first place at or after `start` at which `needle` stands in `hay`.
pub fn find_from(hay: &Vec<char>, needle: &Vec<char>, start: usize) -> (r: Option<usize>)
    ensures
        match r {
            Some(i) => start <= i && at(hay@, needle@, i as int) && forall|j: int|
                start <= j < i ==> !at(hay@, needle@, j),
            None => forall|j: int| start <= j ==> !at(hay@, needle@, j),
        },
{
    let mut i: usize = start;
    while i <= hay.len()
        invariant
            start <= i,
            i <= hay@.len() + 1 || i == start,
            forall|j: int| start <= j < i ==> !at(hay@, needle@, j),
        decreases hay@.len() + 1 - i,
    {
        if stands_at(hay, needle, i) {
            return Some(i);
        }
        if i == hay.len() {
            return None;
        }
        i += 1;
    }
    None
}

/// Whether `needle` stands somewhere in `hay`.
pub fn contains(hay: &str, needle: &str) -> (r: bool)
    ensures
        r == within(hay@, needle@),
{
    let h = chars(hay);
    let n = chars(needle);
    match find(&h, &n) {
        Some(_) => true,
        None => false,
    }
}

/// Whether a text begins with another.
pub fn starts_with(s: &str, prefix: &str) -> (r: bool)
    ensures
        r == at(s@, prefix@, 0),
{
    let list = chars(s);
    let head = chars(prefix);
    stands_at(&list, &head, 0)
}

/// The parts before and after the first `sep`, if it occurs.
pub open spec fn cut(s: Seq<char>, sep: Seq<char>) -> Option<(Seq<char>, Seq<char>)> {
    if within(s, sep) {
        let i = choose|i: int| first_at(s, sep, i);
        Some((s.take(i), s.skip(i + sep.len())))
    } else {
        None
    }
}

pub proof fn lemma_first_at_unique(s: Seq<char>, sep: Seq<char>, i: int, j: int)
    requires
        first_at(s, sep, i),
        first_at(s, sep, j),
    ensures
        i == j,
{
    if i < j {
        assert(!at(s, sep, i));
    }
    if j < i {
        assert(!at(s, sep, j));
    }
}

proof fn lemma_first_below(s: Seq<char>, sep: Seq<char>, i: int) -> (k: int)
    requires
        at(s, sep, i),
    ensures
        first_at(s, sep, k),
    decreases i,
{
    if forall|j: int| 0 <= j < i ==> !at(s, sep, j) {
        i
    } else {
        let j = choose|j: int| 0 <= j < i && at(s, sep, j);
        lemma_first_below(s, sep, j)
    }
}

/// A text is its two parts around what it is cut at.
pub proof fn lemma_cut_parts(s: Seq<char>, sep: Seq<char>)
    ensures
        cut(s, sep) matches Some((head, tail)) ==> s == head + sep + tail,
{
    if within(s, sep) {
        let i = choose|i: int| at(s, sep, i);
        let k = lemma_first_below(s, sep, i);
        lemma_cut_at(s, sep, k);
        assert(s =~= s.take(k) + s.subrange(k, k + sep.len()) + s.skip(k + sep.len()));
    }
}

pub proof fn lemma_cut_at(s: Seq<char>, sep: Seq<char>, i: int)
    requires
        first_at(s, sep, i),
    ensures
        cut(s, sep) == Some((s.take(i), s.skip(i + sep.len()))),
{
    let k = choose|k: int| first_at(s, sep, k);
    lemma_first_at_unique(s, sep, i, k);
}

/// The texts before and after the first `sep` of `s`.
pub fn split_once(s: &str, sep: &str) -> (r: Option<(String, String)>)
    ensures
        match r {
            Some((head, tail)) => cut(s@, sep@) == Some((head@, tail@)),
            None => cut(s@, sep@) is None,
        },
{
    let list = chars(s);
    let mark = chars(sep);
    match find(&list, &mark) {
        Some(i) => {
            proof {
                lemma_cut_at(s@, sep@, i as int);
            }
            let head = slice(&list, 0, i);
            assert(i + mark.len() <= list.len());
            let tail = slice(&list, i + mark.len(), list.len());
            assert(s@.take(i as int) == s@.subrange(0, i as int));
            assert(s@.skip(i + sep@.len()) == s@.subrange(i + sep@.len(), s@.len() as int));
            Some((head, tail))
        },
        None => None,
    }
}

// ---------------------------------------------------------------------------
// Splitting

/// The index of the first `c` at or after `from`, or the length.
pub open spec fn next_char(s: Seq<char>, c: char, from: int) -> int
    decreases s.len() - from,
{
    if 0 <= from < s.len() && s[from] != c {
        next_char(s, c, from + 1)
    } else if from < s.len() {
        from
    } else {
        s.len() as int
    }
}

pub proof fn lemma_next_char_range(s: Seq<char>, c: char, from: int)
    requires
        0 <= from <= s.len(),
    ensures
        from <= next_char(s, c, from) <= s.len(),
        next_char(s, c, from) < s.len() ==> s[next_char(s, c, from)] == c,
        forall|j: int| from <= j < next_char(s, c, from) ==> s[j] != c,
    decreases s.len() - from,
{
    if from < s.len() && s[from] != c {
        lemma_next_char_range(s, c, from + 1);
    }
}

proof fn lemma_next_char_is(s: Seq<char>, c: char, from: int, i: int)
    requires
        0 <= from <= i <= s.len(),
        forall|j: int| from <= j < i ==> s[j] != c,
        i < s.len() ==> s[i] == c,
    ensures
        next_char(s, c, from) == i,
    decreases i - from,
{
    if from < i {
        lemma_next_char_is(s, c, from + 1, i);
    }
}

/// The pieces of `s[from..]` between occurrences of `c`.
pub open spec fn pieces(s: Seq<char>, c: char, from: int) -> Seq<Seq<char>>
    decreases s.len() - from,
    when 0 <= from <= s.len()
    via pieces_decreases
{
    let i = next_char(s, c, from);
    if i < s.len() {
        seq![s.subrange(from, i)] + pieces(s, c, i + 1)
    } else {
        seq![s.subrange(from, s.len() as int)]
    }
}

#[via_fn]
proof fn pieces_decreases(s: Seq<char>, c: char, from: int) {
    lemma_next_char_range(s, c, from);
}

/// A text without the character is one piece.
pub proof fn lemma_one_piece(s: Seq<char>, c: char)
    requires
        !s.contains(c),
    ensures
        pieces(s, c, 0) == seq![s],
{
    lemma_next_char_range(s, c, 0);
    let i = next_char(s, c, 0);
    if i < s.len() {
        assert(s[i] == c);
    }
    assert(s.subrange(0, s.len() as int) =~= s);
}

/// The pieces of two texts with the character between them are those of the one
/// and then those of the other.
pub proof fn lemma_pieces_join(a: Seq<char>, c: char, b: Seq<char>)
    ensures
        pieces(a.push(c) + b, c, 0) == pieces(a, c, 0) + pieces(b, c, 0),
{
    lemma_pieces_head(a, c, b, 0);
}

proof fn lemma_pieces_head(a: Seq<char>, c: char, b: Seq<char>, from: int)
    requires
        0 <= from <= a.len(),
    ensures
        pieces(a.push(c) + b, c, from) == pieces(a, c, from) + pieces(b, c, 0),
    decreases a.len() - from,
{
    let s = a.push(c) + b;
    let i = next_char(a, c, from);
    lemma_next_char_range(a, c, from);
    assert forall|j: int| from <= j < i implies s[j] != c by {
        assert(s[j] == a[j]);
    }
    lemma_next_char_is(s, c, from, i);
    if i < a.len() {
        lemma_pieces_head(a, c, b, i + 1);
        assert(s.subrange(from, i) =~= a.subrange(from, i));
        assert(seq![a.subrange(from, i)] + (pieces(a, c, i + 1) + pieces(b, c, 0)) =~= (
        seq![a.subrange(from, i)] + pieces(a, c, i + 1)) + pieces(b, c, 0));
    } else {
        lemma_pieces_tail(a.push(c), c, b, 0);
        assert(s.subrange(from, a.len() as int) =~= a.subrange(from, a.len() as int));
    }
}

proof fn lemma_pieces_tail(a: Seq<char>, c: char, b: Seq<char>, from: int)
    requires
        0 <= from <= b.len(),
    ensures
        pieces(a + b, c, a.len() + from) == pieces(b, c, from),
    decreases b.len() - from,
{
    let s = a + b;
    let i = next_char(b, c, from);
    lemma_next_char_range(b, c, from);
    assert forall|j: int| a.len() + from <= j < a.len() + i implies s[j] != c by {
        assert(s[j] == b[j - a.len()]);
    }
    lemma_next_char_is(s, c, a.len() + from, a.len() + i);
    if i < b.len() {
        lemma_pieces_tail(a, c, b, i + 1);
        assert(s.subrange(a.len() + from, a.len() + i) =~= b.subrange(from, i));
    } else {
        assert(s.subrange(a.len() + from, s.len() as int) =~= b.subrange(from, b.len() as int));
    }
}

/// The pieces of a text between occurrences of a character.
pub fn split(s: &str, c: char) -> (r: Vec<String>)
    ensures
        views(r@) == pieces(s@, c, 0),
{
    let list = chars(s);
    let mut out: Vec<String> = Vec::new();
    let mut start: usize = 0;
    let mut i: usize = 0;
    let ghost whole = pieces(s@, c, 0);
    while i < list.len()
        invariant
            list@ == s@,
            0 <= start <= i <= list@.len(),
            forall|j: int| start <= j < i ==> s@[j] != c,
            views(out@) + pieces(s@, c, start as int) == whole,
            whole == pieces(s@, c, 0),
        decreases list@.len() - i,
    {
        if list[i] == c {
            proof {
                lemma_next_char_stop(s@, c, start as int, i as int);
            }
            let piece = slice(&list, start, i);
            proof {
                assert(views(out@.push(piece)) == views(out@).push(piece@));
                assert(views(out@).push(piece@) + pieces(s@, c, i + 1) == views(out@) + pieces(
                    s@,
                    c,
                    start as int,
                ));
            }
            out.push(piece);
            start = i + 1;
        }
        i += 1;
    }
    proof {
        lemma_next_char_stop(s@, c, start as int, i as int);
    }
    let piece = slice(&list, start, i);
    proof {
        assert(views(out@.push(piece)) == views(out@).push(piece@));
        assert(views(out@).push(piece@) == views(out@) + seq![piece@]);
    }
    out.push(piece);
    out
}

proof fn lemma_next_char_stop(s: Seq<char>, c: char, from: int, i: int)
    requires
        0 <= from <= i <= s.len(),
        forall|j: int| from <= j < i ==> s[j] != c,
        i < s.len() ==> s[i] == c,
    ensures
        next_char(s, c, from) == i,
    decreases i - from,
{
    if from < i {
        lemma_next_char_stop(s, c, from + 1, i);
    }
}

/// The white-space separated words of `s[from..]`, where `word` is the word
/// read so far.
pub open spec fn words_from(s: Seq<char>, from: int, word: Seq<char>) -> Seq<Seq<char>>
    decreases s.len() - from,
{
    if from < 0 || from >= s.len() {
        if word.len() > 0 {
            seq![word]
        } else {
            seq![]
        }
    } else if white(s[from]) {
        if word.len() > 0 {
            seq![word] + words_from(s, from + 1, seq![])
        } else {
            words_from(s, from + 1, seq![])
        }
    } else {
        words_from(s, from + 1, word.push(s[from]))
    }
}

/// The words of a text, separated by white space.
pub open spec fn words(s: Seq<char>) -> Seq<Seq<char>> {
    words_from(s, 0, seq![])
}

/// The words of a text, separated by white space.
pub fn split_whitespace(s: &str) -> (r: Vec<String>)
    ensures
        views(r@) == words(s@),
{
    let list = chars(s);
    let mut out: Vec<String> = Vec::new();
    let mut word = String::new();
    let mut size: usize = 0;
    let mut i: usize = 0;
    proof {
        assert(views(out@) == Seq::<Seq<char>>::empty());
        assert(word@ == Seq::<char>::empty());
    }
    while i < list.len()
        invariant
            list@ == s@,
            i <= list@.len(),
            size == word@.len(),
            size <= i,
            views(out@) + words_from(s@, i as int, word@) == words(s@),
        decreases list@.len() - i,
    {
        let c = list[i];
        if is_white(c) {
            if size > 0 {
                proof {
                    assert(views(out@.push(word)) == views(out@).push(word@));
                    assert(views(out@).push(word@) + words_from(s@, i + 1, seq![]) == views(out@)
                        + words_from(s@, i as int, word@));
                }
                out.push(word);
                word = String::new();
                size = 0;
            }
            assert(word@ == Seq::<char>::empty());
        } else {
            word.push(c);
            size += 1;
        }
        i += 1;
    }
    if size > 0 {
        proof {
            assert(views(out@.push(word)) == views(out@).push(word@));
            assert(views(out@).push(word@) == views(out@) + seq![word@]);
        }
        out.push(word);
    } else {
        assert(views(out@) + Seq::<Seq<char>>::empty() == views(out@));
    }
    out
}

/// The parts of a list, one after the other, with `sep` between them.
pub open spec fn joined(parts: Seq<Seq<char>>, sep: Seq<char>) -> Seq<char>
    decreases parts.len(),
{
    if parts.len() == 0 {
        seq![]
    } else if parts.len() == 1 {
        parts[0]
    } else {
        joined(parts.drop_last(), sep) + sep + parts.last()
    }
}

/// Joins texts with a separator.
pub fn join(parts: &Vec<String>, sep: &str) -> (r: String)
    ensures
        r@ == joined(views(parts@), sep@),
{
    let mut out = String::new();
    let mut i: usize = 0;
    assert(out@ == joined(views(parts@.take(0)), sep@));
    while i < parts.len()
        invariant
            i <= parts@.len(),
            out@ == joined(views(parts@.take(i as int)), sep@),
        decreases parts@.len() - i,
    {
        proof {
            let now = views(parts@.take(i + 1));
            assert(now.drop_last() == views(parts@.take(i as int)));
            assert(now.last() == parts@[i as int]@);
        }
        if i > 0 {
            out.append(sep);
        }
        out.append(&parts[i]);
        i += 1;
    }
    assert(parts@.take(i as int) == parts@);
    out
}

/// One part alone is joined as it is, and one part more comes behind a separator.
pub proof fn one_more_part_is_joined(parts: Seq<Seq<char>>, part: Seq<char>, sep: Seq<char>)
    ensures
        joined(seq![part], sep) == part,
        parts.len() > 0 ==> joined(parts.push(part), sep) == joined(parts, sep) + sep + part,
        parts.len() == 0 ==> joined(parts, sep).len() == 0,
{
    assert(parts.push(part).drop_last() =~= parts);
}

/// Every part stands in the text that the parts are joined to.
pub proof fn every_part_is_joined(parts: Seq<Seq<char>>, sep: Seq<char>, i: int)
    requires
        0 <= i < parts.len(),
    ensures
        within(joined(parts, sep), parts[i]),
    decreases parts.len(),
{
    let whole = joined(parts, sep);
    if i == parts.len() - 1 {
        let from = whole.len() - parts[i].len();
        assert(whole.subrange(from, from + parts[i].len()) =~= parts[i]);
        assert(at(whole, parts[i], from));
    } else {
        let init = parts.drop_last();
        every_part_is_joined(init, sep, i);
        let from = choose|k: int| at(joined(init, sep), parts[i], k);
        assert(whole.subrange(from, from + parts[i].len()) =~= joined(init, sep).subrange(
            from,
            from + parts[i].len(),
        ));
        assert(at(whole, parts[i], from));
    }
}

/// A text without white space is one word, and what follows a word and a space are
/// the words after it.
pub proof fn words_are_told_apart_by_white_space(word: Seq<char>, space: char, rest: Seq<char>)
    requires
        word.len() > 0,
        forall|i: int| 0 <= i < word.len() ==> !white(#[trigger] word[i]),
        white(space),
    ensures
        words(word) == seq![word],
        words(word.push(space) + rest) == seq![word] + words(rest),
        words(seq![space] + rest) == words(rest),
        words(Seq::empty()).len() == 0,
{
    lemma_word_read(word, word, 0);
    assert(word.take(0) =~= seq![]);
    let whole = word.push(space) + rest;
    assert forall|i: int| 0 <= i < word.len() implies whole[i] == word[i] by {}
    lemma_word_read(whole, word, 0);
    lemma_words_shift(word.push(space), rest, 0, seq![]);
    let spaced = seq![space] + rest;
    lemma_words_shift(seq![space], rest, 0, seq![]);
    assert(spaced[0] == space);
    assert(words_from(spaced, 0, seq![]) == words_from(spaced, 1, seq![]));
}

proof fn lemma_word_read(s: Seq<char>, word: Seq<char>, k: int)
    requires
        0 <= k <= word.len() <= s.len(),
        forall|i: int| 0 <= i < word.len() ==> s[i] == word[i],
        forall|i: int| 0 <= i < word.len() ==> !white(#[trigger] word[i]),
    ensures
        words_from(s, k, word.take(k)) == words_from(s, word.len() as int, word),
    decreases word.len() - k,
{
    if k < word.len() {
        assert(!white(word[k]));
        assert(word.take(k).push(s[k]) =~= word.take(k + 1));
        lemma_word_read(s, word, k + 1);
    } else {
        assert(word.take(k) =~= word);
    }
}

proof fn lemma_words_shift(head: Seq<char>, tail: Seq<char>, from: int, word: Seq<char>)
    requires
        0 <= from <= tail.len(),
    ensures
        words_from(head + tail, head.len() + from, word) == words_from(tail, from, word),
    decreases tail.len() - from,
{
    if from < tail.len() {
        assert((head + tail)[head.len() + from] == tail[from]);
        lemma_words_shift(head, tail, from + 1, seq![]);
        lemma_words_shift(head, tail, from + 1, word.push(tail[from]));
    }
}

/// Trimming takes white space at either end, all of it and nothing else.
pub proof fn trimming_takes_white_space_alone(s: Seq<char>) -> (r: (Seq<char>, Seq<char>))
    ensures
        s == r.0 + trimmed(s) + r.1,
        blank(r.0),
        blank(r.1),
        trimmed(s).len() > 0 ==> !white(trimmed(s)[0]) && !white(trimmed(s).last()),
{
    let i = lemma_white_head(s);
    lemma_trim_start_at(s, i);
    let rest = s.skip(i);
    let j = lemma_white_tail(rest);
    lemma_trim_end_at(rest, j);
    let head = s.take(i);
    let tail = rest.skip(j);
    assert forall|k: int| 0 <= k < tail.len() implies white(#[trigger] tail[k]) by {
        assert(tail[k] == rest[j + k]);
    }
    assert(s =~= head + rest.take(j) + tail);
    (head, tail)
}

proof fn lemma_white_head(s: Seq<char>) -> (i: int)
    ensures
        0 <= i <= s.len(),
        forall|j: int| 0 <= j < i ==> white(#[trigger] s[j]),
        i < s.len() ==> !white(s[i]),
    decreases s.len(),
{
    if s.len() > 0 && white(s[0]) {
        let k = lemma_white_head(s.drop_first());
        assert forall|j: int| 0 <= j < k + 1 implies white(#[trigger] s[j]) by {
            if j > 0 {
                assert(s[j] == s.drop_first()[j - 1]);
            }
        }
        k + 1
    } else {
        0
    }
}

proof fn lemma_white_tail(s: Seq<char>) -> (i: int)
    ensures
        0 <= i <= s.len(),
        forall|j: int| i <= j < s.len() ==> white(#[trigger] s[j]),
        i > 0 ==> !white(s[i - 1]),
    decreases s.len(),
{
    if s.len() > 0 && white(s.last()) {
        let k = lemma_white_tail(s.drop_last());
        assert forall|j: int| k <= j < s.len() implies white(#[trigger] s[j]) by {
            if j < s.len() - 1 {
                assert(s[j] == s.drop_last()[j]);
            }
        }
        k
    } else {
        s.len() as int
    }
}

/// A text is cut at the first place of a separator of one character: what stands
/// before it does not hold the character.
pub proof fn texts_are_cut_at_the_first_separator(
    head: Seq<char>,
    sep: Seq<char>,
    tail: Seq<char>,
)
    requires
        sep.len() == 1,
        !head.contains(sep[0]),
    ensures
        cut(head + sep + tail, sep) == Some((head, tail)),
        cut(head, sep) is None,
{
    let whole = head + sep + tail;
    let n = head.len() as int;
    assert(whole.subrange(n, n + 1) =~= sep);
    assert forall|j: int| 0 <= j < n implies !at(whole, sep, j) by {
        if at(whole, sep, j) {
            assert(whole.subrange(j, j + 1)[0] == head[j]);
            assert(head.contains(sep[0]));
        }
    }
    lemma_cut_at(whole, sep, n);
    assert(whole.take(n) =~= head);
    assert(whole.skip(n + 1) =~= tail);
    assert forall|j: int| !at(head, sep, j) by {
        if at(head, sep, j) {
            assert(head.subrange(j, j + 1)[0] == head[j]);
            assert(head.contains(sep[0]));
        }
    }
}

// ---------------------------------------------------------------------------
// Decimal numbers

/// Whether a character is an ASCII digit.
pub open spec fn digit(c: char) -> bool {
    '0' <= c <= '9'
}

/// Whether a text is made of digits only, and is not empty.
pub open spec fn all_digits(s: Seq<char>) -> bool {
    s.len() > 0 && forall|i: int| 0 <= i < s.len() ==> digit(#[trigger] s[i])
}

/// The number that a text of digits stands for.
pub open spec fn number(s: Seq<char>) -> nat
    decreases s.len(),
{
    if s.len() == 0 {
        0
    } else {
        (number(s.drop_last()) * 10 + (s.last() as u32 - '0' as u32)) as nat
    }
}

/// The decimal digits of a number.
pub open spec fn digits(n: nat) -> Seq<char>
    decreases n,
{
    if n < 10 {
        seq![(('0' as u32 + n) as u32) as char]
    } else {
        digits(n / 10) + seq![(('0' as u32 + n % 10) as u32) as char]
    }
}

/// The decimal text of an integer.
pub open spec fn decimal(n: int) -> Seq<char> {
    if n < 0 {
        seq!['-'] + digits((-n) as nat)
    } else {
        digits(n as nat)
    }
}

proof fn lemma_digit_char(d: nat)
    requires
        d < 10,
    ensures
        digit((('0' as u32 + d) as u32) as char),
        ((('0' as u32 + d) as u32) as char) as u32 - '0' as u32 == d,
{
}

/// Reading the digits of a number gives the number back.
pub proof fn lemma_digits_read_back(n: nat)
    ensures
        all_digits(digits(n)),
        number(digits(n)) == n,
    decreases n,
{
    reveal_with_fuel(number, 2);
    if n < 10 {
        lemma_digit_char(n);
        assert(digits(n).drop_last().len() == 0);
    } else {
        lemma_digits_read_back(n / 10);
        lemma_digit_char(n % 10);
        let last = (('0' as u32 + n % 10) as u32) as char;
        assert(digits(n).drop_last() == digits(n / 10));
        assert(digits(n).last() == last);
        assert forall|i: int| 0 <= i < digits(n).len() implies digit(#[trigger] digits(n)[i]) by {
            if i < digits(n / 10).len() {
                assert(digits(n)[i] == digits(n / 10)[i]);
            }
        }
    }
}

fn digit_char(d: u64) -> (c: char)
    requires
        d < 10,
    ensures
        c == (('0' as u32 + d as nat) as u32) as char,
{
    match d {
        0 => '0',
        1 => '1',
        2 => '2',
        3 => '3',
        4 => '4',
        5 => '5',
        6 => '6',
        7 => '7',
        8 => '8',
        _ => '9',
    }
}

/// The decimal text of an unsigned number.
pub fn decimal_u64(n: u64) -> (r: String)
    ensures
        r@ == decimal(n as int),
    decreases n,
{
    let mut out = if n < 10 {
        String::new()
    } else {
        decimal_u64(n / 10)
    };
    out.push(digit_char(n % 10));
    proof {
        if n < 10 {
            assert(out@ == digits(n as nat));
        } else {
            assert(out@ == digits(n as nat / 10) + seq![
                (('0' as u32 + n as nat % 10) as u32) as char,
            ]);
        }
    }
    out
}

/// The decimal text of a signed number.
pub fn decimal_i64(n: i64) -> (r: String)
    ensures
        r@ == decimal(n as int),
{
    if n < 0 {
        let mut out = String::new();
        out.push('-');
        let size: u64 = (-(n as i128)) as u64;
        let rest = decimal_u64(size);
        out.append(&rest);
        out
    } else {
        decimal_u64(n as u64)
    }
}

/// The whole number that a text is: an optional `-` and digits.
pub open spec fn integer(s: Seq<char>) -> Option<int> {
    if s.len() > 0 && s[0] == '-' {
        if all_digits(s.drop_first()) {
            Some(-(number(s.drop_first()) as int))
        } else {
            None
        }
    } else if all_digits(s) {
        Some(number(s) as int)
    } else {
        None
    }
}

/// Reading the decimal text of an integer gives the integer back.
pub proof fn lemma_decimal_read_back(n: int)
    ensures
        integer(decimal(n)) == Some(n),
{
    if n < 0 {
        lemma_digits_read_back((-n) as nat);
        assert(decimal(n).drop_first() == digits((-n) as nat));
    } else {
        lemma_digits_read_back(n as nat);
        assert(digit(decimal(n)[0]));
    }
}

/// Reads a whole number in the range of an `i64`.
pub fn parse_integer(s: &str) -> (r: Option<i64>)
    ensures
        match r {
            Some(n) => integer(s@) == Some(n as int),
            None => integer(s@) is None || integer(s@)->0 > i64::MAX || integer(s@)->0 < i64::MIN,
        },
{
    let list = chars(s);
    if list.len() > 0 && list[0] == '-' {
        let rest = slice(&list, 1, list.len());
        assert(rest@ == s@.drop_first());
        if list.len() > 1 && list[1] == '+' {
            assert(!digit(rest@[0]));
            return None;
        }
        assert(rest@.len() > 0 ==> rest@[0] == list@[1]);
        match parse_unsigned(&rest, 9_223_372_036_854_775_808) {
            Some(n) => Some((-(n as i128)) as i64),
            None => None,
        }
    } else {
        if list.len() > 0 && list[0] == '+' {
            assert(!digit(s@[0]));
            return None;
        }
        match parse_unsigned(s, 9_223_372_036_854_775_807) {
            Some(n) => Some(n as i64),
            None => None,
        }
    }
}

/// Where the digits of an unsigned number begin: a leading `+` is allowed.
pub open spec fn unsigned_digits(s: Seq<char>) -> Seq<char> {
    if s.len() > 0 && s[0] == '+' {
        s.drop_first()
    } else {
        s
    }
}

/// The unsigned number, at most `max`, that a text is: an optional `+` and digits.
pub open spec fn unsigned(s: Seq<char>, max: int) -> Option<int> {
    let body = unsigned_digits(s);
    if all_digits(body) && number(body) <= max {
        Some(number(body) as int)
    } else {
        None
    }
}

/// The decimal text of a number reads as that number, unless it is too large.
pub proof fn decimals_read_as_their_number(n: int, max: int)
    requires
        n >= 0,
    ensures
        n <= max ==> unsigned(decimal(n), max) == Some(n),
        n > max ==> unsigned(decimal(n), max) is None,
{
    lemma_digits_read_back(n as nat);
    assert(digit(decimal(n)[0]));
}

/// What reads as a number holds nothing but digits and a plus sign.
pub proof fn numbers_hold_digits(s: Seq<char>, max: int, i: int)
    requires
        unsigned(s, max) is Some,
        0 <= i < s.len(),
    ensures
        '0' <= s[i] <= '9' || s[i] == '+',
{
    if s[0] == '+' {
        if i > 0 {
            assert(digit(s.drop_first()[i - 1]));
        }
    } else {
        assert(digit(s[i]));
    }
}

/// Reads an unsigned number of at most `max`.
pub fn parse_unsigned(s: &str, max: u64) -> (r: Option<u64>)
    ensures
        match r {
            Some(n) => unsigned(s@, max as int) == Some(n as int),
            None => unsigned(s@, max as int) is None,
        },
{
    let list = chars(s);
    let start: usize = if list.len() > 0 && list[0] == '+' {
        1
    } else {
        0
    };
    let ghost body = unsigned_digits(s@);
    assert(body == s@.skip(start as int));
    if start == list.len() {
        return None;
    }
    let mut value: u64 = 0;
    let mut i: usize = start;
    proof {
        assert(body.take(0).len() == 0);
    }
    while i < list.len()
        invariant
            list@ == s@,
            start <= i <= list@.len(),
            body == s@.skip(start as int),
            body == unsigned_digits(s@),
            start < list@.len(),
            value <= max,
            value == number(body.take(i - start)),
            forall|j: int| 0 <= j < i - start ==> digit(#[trigger] body[j]),
        decreases list@.len() - i,
    {
        let c = list[i];
        assert(body[i - start] == c);
        if c < '0' || c > '9' {
            assert(!digit(body[i - start]));
            return None;
        }
        let d: u64 = (c as u32 - '0' as u32) as u64;
        proof {
            assert(body.take(i - start + 1).drop_last() == body.take(i - start));
            assert(number(body.take(i - start + 1)) == value * 10 + d);
        }
        if value as u128 * 10 + d as u128 > max as u128 {
            proof {
                assert(number(body.take(i - start + 1)) > max);
                lemma_number_grows(body, i - start + 1);
            }
            return None;
        }
        value = value * 10 + d;
        i += 1;
    }
    assert(body.take(i - start) == body);
    Some(value)
}

proof fn lemma_number_grows(s: Seq<char>, k: int)
    requires
        0 <= k <= s.len(),
    ensures
        all_digits(s) ==> number(s) >= number(s.take(k)),
    decreases s.len(),
{
    if k < s.len() && all_digits(s) {
        assert(s.drop_last().take(k) == s.take(k));
        if s.len() > 1 {
            assert forall|i: int| 0 <= i < s.drop_last().len() implies digit(
                #[trigger] s.drop_last()[i],
            ) by {
                assert(s.drop_last()[i] == s[i]);
            }
            lemma_number_grows(s.drop_last(), k);
        } else {
            assert(number(s.take(k)) == 0);
        }
        assert(digit(s.last()));
    } else {
        assert(s.take(k).len() == k);
        if k == s.len() {
            assert(s.take(k) == s);
        }
    }
}

// ---------------------------------------------------------------------------
// Bytes

/// Bytes of a character.
pub open spec fn width(c: char) -> int {
    if (c as u32) < 0x80 {
        1
    } else if (c as u32) < 0x800 {
        2
    } else if (c as u32) < 0x10000 {
        3
    } else {
        4
    }
}

/// Bytes of a text.
pub open spec fn bytes(s: Seq<char>) -> int
    decreases s.len(),
{
    if s.len() == 0 {
        0
    } else {
        width(s[0]) + bytes(s.drop_first())
    }
}

proof fn lemma_bytes_encoded(s: Seq<char>)
    ensures
        vstd::utf8::encode_utf8(s).len() == bytes(s),
    decreases s.len(),
{
    if s.len() > 0 {
        vstd::utf8::char_is_scalar(s[0]);
        lemma_bytes_encoded(s.drop_first());
    }
}

/// The bytes of two texts add up.
pub proof fn lemma_bytes_add(a: Seq<char>, b: Seq<char>)
    ensures
        bytes(a + b) == bytes(a) + bytes(b),
        bytes(a) >= 0,
        bytes(b) >= 0,
    decreases a.len(), b.len(),
{
    if a.len() == 0 {
        assert(a + b =~= b);
        if b.len() > 0 {
            lemma_bytes_add(a, b.drop_first());
        }
    } else {
        lemma_bytes_add(a.drop_first(), b);
        assert((a + b).drop_first() =~= a.drop_first() + b);
    }
}

/// One character more is that many bytes more.
pub proof fn lemma_bytes_step(s: Seq<char>, k: int)
    requires
        0 <= k < s.len(),
    ensures
        bytes(s.take(k + 1)) == bytes(s.take(k)) + width(s[k]),
        0 <= bytes(s.take(k)),
        bytes(s.take(k + 1)) <= bytes(s),
{
    assert(s.take(k + 1) =~= s.take(k) + seq![s[k]]);
    lemma_bytes_add(s.take(k), seq![s[k]]);
    reveal_with_fuel(bytes, 2);
    assert(seq![s[k]].drop_first() =~= Seq::empty());
    assert(s =~= s.take(k + 1) + s.skip(k + 1));
    lemma_bytes_add(s.take(k + 1), s.skip(k + 1));
}

/// Bytes of a text.
pub fn byte_len(s: &str) -> (r: usize)
    ensures
        r == bytes(s@),
{
    proof {
        lemma_bytes_encoded(s@);
    }
    s.as_bytes().len()
}

fn char_width(c: char) -> (r: usize)
    ensures
        r == width(c),
{
    if (c as u32) < 0x80 {
        1
    } else if (c as u32) < 0x800 {
        2
    } else if (c as u32) < 0x10000 {
        3
    } else {
        4
    }
}

/// How many characters fit into the first `n` bytes of a text.
pub open spec fn chars_within(s: Seq<char>, n: int) -> int
    decreases s.len(),
{
    if s.len() == 0 {
        0
    } else if bytes(s) <= n {
        s.len() as int
    } else {
        chars_within(s.drop_last(), n)
    }
}

/// How many characters it takes to reach the first `n` bytes of a text.
pub open spec fn chars_reaching(s: Seq<char>, n: int) -> int
    decreases s.len(),
{
    if s.len() == 0 {
        0
    } else if bytes(s.drop_last()) < n {
        s.len() as int
    } else {
        chars_reaching(s.drop_last(), n)
    }
}

proof fn lemma_chars_within_at(s: Seq<char>, n: int, k: int)
    requires
        0 <= k <= s.len(),
        bytes(s.take(k)) <= n,
        k < s.len() ==> bytes(s.take(k + 1)) > n,
    ensures
        chars_within(s, n) == k,
    decreases s.len(),
{
    assert(s.take(s.len() as int) =~= s);
    if k < s.len() {
        lemma_bytes_step(s, k);
        assert(bytes(s) > n);
        assert(s.drop_last().take(k) =~= s.take(k));
        if k < s.drop_last().len() {
            assert(s.drop_last().take(k + 1) =~= s.take(k + 1));
        }
        lemma_chars_within_at(s.drop_last(), n, k);
    }
}

proof fn lemma_chars_reaching_at(s: Seq<char>, n: int, k: int)
    requires
        0 <= k <= s.len(),
        k < s.len() ==> bytes(s.take(k)) >= n,
        k > 0 ==> bytes(s.take(k - 1)) < n,
    ensures
        chars_reaching(s, n) == k,
    decreases s.len(),
{
    if k < s.len() {
        let init = s.drop_last();
        assert(init =~= s.take(s.len() - 1));
        assert(init.take(k) =~= s.take(k));
        assert(init =~= init.take(k) + init.skip(k));
        lemma_bytes_add(init.take(k), init.skip(k));
        if k > 0 {
            assert(init.take(k - 1) =~= s.take(k - 1));
        }
        lemma_chars_reaching_at(init, n, k);
    } else if k > 0 {
        assert(s.drop_last() =~= s.take(k - 1));
    }
}

/// How many characters fit into the first `n` bytes of a text.
pub fn count_within(s: &str, n: usize) -> (r: usize)
    ensures
        r == chars_within(s@, n as int),
        r <= s@.len(),
{
    let list = chars(s);
    let total: usize = byte_len(s);
    let mut k: usize = 0;
    let mut used: usize = 0;
    assert(s@.take(0) =~= Seq::empty());
    while k < list.len()
        invariant
            list@ == s@,
            total == bytes(s@),
            k <= list@.len(),
            used == bytes(s@.take(k as int)),
            used <= n,
        decreases list@.len() - k,
    {
        proof {
            lemma_bytes_step(s@, k as int);
        }
        let more: usize = used + char_width(list[k]);
        if more > n {
            proof {
                lemma_chars_within_at(s@, n as int, k as int);
            }
            return k;
        }
        used = more;
        k += 1;
    }
    proof {
        lemma_chars_within_at(s@, n as int, k as int);
    }
    k
}

/// How many characters it takes to reach the first `n` bytes of a text.
pub fn count_reaching(s: &str, n: usize) -> (r: usize)
    ensures
        r == chars_reaching(s@, n as int),
        r <= s@.len(),
{
    let list = chars(s);
    let total: usize = byte_len(s);
    let mut k: usize = 0;
    let mut used: usize = 0;
    assert(s@.take(0) =~= Seq::empty());
    while k < list.len()
        invariant
            list@ == s@,
            total == bytes(s@),
            k <= list@.len(),
            used == bytes(s@.take(k as int)),
            k > 0 ==> bytes(s@.take(k - 1)) < n,
        decreases list@.len() - k,
    {
        proof {
            lemma_bytes_step(s@, k as int);
        }
        if used >= n {
            proof {
                lemma_chars_reaching_at(s@, n as int, k as int);
            }
            return k;
        }
        used = used + char_width(list[k]);
        k += 1;
    }
    proof {
        lemma_chars_reaching_at(s@, n as int, k as int);
    }
    k
}

/// What fits into a number of bytes does, and one character more does not.
pub proof fn the_longest_prefix_fits(s: Seq<char>, n: int)
    requires
        n >= 0,
    ensures
        0 <= chars_within(s, n) <= s.len(),
        bytes(s.take(chars_within(s, n))) <= n,
        chars_within(s, n) < s.len() ==> bytes(s.take(chars_within(s, n) + 1)) > n,
    decreases s.len(),
{
    assert(s.take(s.len() as int) =~= s);
    if s.len() > 0 && bytes(s) > n {
        let init = s.drop_last();
        the_longest_prefix_fits(init, n);
        let k = chars_within(init, n);
        assert(init.take(k) =~= s.take(k));
        if k < init.len() {
            assert(init.take(k + 1) =~= s.take(k + 1));
        } else {
            assert(s.take(k + 1) =~= s);
        }
    } else if s.len() == 0 {
        assert(s.take(0) =~= Seq::empty());
    }
}

/// Two texts are ordered by the first character in which they differ, and a text
/// comes before every longer one that begins with it.
pub proof fn the_first_difference_decides(
    head: Seq<char>,
    x: char,
    y: char,
    a: Seq<char>,
    b: Seq<char>,
)
    requires
        x < y,
    ensures
        before(head + seq![x] + a, head + seq![y] + b),
        !before(head + seq![y] + b, head + seq![x] + a),
        before(head, head + seq![x] + a),
        !before(head, head),
    decreases head.len(),
{
    let s = head + seq![x] + a;
    let t = head + seq![y] + b;
    if head.len() > 0 {
        let rest = head.drop_first();
        assert(s.drop_first() =~= rest + seq![x] + a);
        assert(t.drop_first() =~= rest + seq![y] + b);
        assert(s[0] == head[0] && t[0] == head[0]);
        the_first_difference_decides(rest, x, y, a, b);
    } else {
        assert(s[0] == x && t[0] == y);
    }
}

/// What a text is put together of stands in it.
pub proof fn parts_stand_in_the_whole(
    whole: Seq<char>,
    front: Seq<char>,
    part: Seq<char>,
    back: Seq<char>,
)
    requires
        whole == front + part + back,
    ensures
        within(whole, part),
        at(whole, part, front.len() as int),
{
    let i = front.len() as int;
    assert(whole.subrange(i, i + part.len()) =~= part);
    assert(at(whole, part, i));
}

/// What stands in a part of a text stands in the text.
pub proof fn what_a_part_holds_the_whole_holds(
    whole: Seq<char>,
    part: Seq<char>,
    needle: Seq<char>,
)
    requires
        within(whole, part),
        within(part, needle),
    ensures
        within(whole, needle),
{
    let i = choose|i: int| at(whole, part, i);
    let j = choose|j: int| at(part, needle, j);
    let there = whole.subrange(i + j, i + j + needle.len());
    assert forall|k: int| 0 <= k < needle.len() implies there[k] == #[trigger] needle[k] by {
        assert(whole.subrange(i, i + part.len())[j + k] == part[j + k]);
        assert(part.subrange(j, j + needle.len())[k] == needle[k]);
    }
    assert(there =~= needle);
    assert(at(whole, needle, i + j));
}

} // verus!
