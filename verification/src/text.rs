//! Character-level text operations used throughout the library, each with a
//! specification over `Seq<char>`.

use vstd::prelude::*;

verus! {

// ---------------------------------------------------------------------------
// Specifications
// ---------------------------------------------------------------------------

/// Unicode `White_Space`, the set that `char::is_whitespace` documents.
pub open spec fn is_whitespace_char(c: char) -> bool {
    let u = c as u32;
    (0x9 <= u <= 0xd) || u == 0x20 || u == 0x85 || u == 0xa0 || u == 0x1680 || (0x2000 <= u
        <= 0x200a) || u == 0x2028 || u == 0x2029 || u == 0x202f || u == 0x205f || u == 0x3000
}

/// Unicode general category `Cc`, the set that `char::is_control` documents.
pub open spec fn is_control_char(c: char) -> bool {
    let u = c as u32;
    u <= 0x1f || (0x7f <= u <= 0x9f)
}

/// Characters that a trim removes from both ends of a text.
pub enum TrimSet {
    /// Unicode white space (`str::trim`).
    Whitespace,
    /// `'.'`, `' '` and `'-'` (`str::trim_matches(['.', ' ', '-'])`).
    DotSpaceDash,
}

impl TrimSet {
    pub open spec fn member(self, c: char) -> bool {
        match self {
            TrimSet::Whitespace => is_whitespace_char(c),
            TrimSet::DotSpaceDash => c == '.' || c == ' ' || c == '-',
        }
    }

    pub fn has(&self, c: char) -> (res: bool)
        ensures
            res == self.member(c),
    {
        match self {
            TrimSet::Whitespace => {
                let u = c as u32;
                (0x9 <= u && u <= 0xd) || u == 0x20 || u == 0x85 || u == 0xa0 || u == 0x1680 || (
                0x2000 <= u && u <= 0x200a) || u == 0x2028 || u == 0x2029 || u == 0x202f || u
                    == 0x205f || u == 0x3000
            },
            TrimSet::DotSpaceDash => c == '.' || c == ' ' || c == '-',
        }
    }
}

/// `s` without its leading characters of `set`.
pub open spec fn trim_start_by(s: Seq<char>, set: TrimSet) -> Seq<char>
    decreases s.len(),
{
    if s.len() > 0 && set.member(s[0]) {
        trim_start_by(s.drop_first(), set)
    } else {
        s
    }
}

/// `s` without its trailing characters of `set`.
pub open spec fn trim_end_by(s: Seq<char>, set: TrimSet) -> Seq<char>
    decreases s.len(),
{
    if s.len() > 0 && set.member(s.last()) {
        trim_end_by(s.drop_last(), set)
    } else {
        s
    }
}

/// `s` without leading and trailing characters of `set`.
pub open spec fn trim_by(s: Seq<char>, set: TrimSet) -> Seq<char> {
    trim_end_by(trim_start_by(s, set), set)
}

/// `s` without leading and trailing white space (`str::trim`).
pub open spec fn trimmed(s: Seq<char>) -> Seq<char> {
    trim_by(s, TrimSet::Whitespace)
}

/// The pieces of `s` between occurrences of `sep` (`str::split`): one more
/// piece than there are separators, empty pieces included.
pub open spec fn split_on(s: Seq<char>, sep: char) -> Seq<Seq<char>>
    decreases s.len(),
{
    if s.len() == 0 {
        seq![Seq::<char>::empty()]
    } else {
        let prev = split_on(s.drop_last(), sep);
        if s.last() == sep {
            prev.push(Seq::<char>::empty())
        } else {
            prev.update(prev.len() - 1, prev.last().push(s.last()))
        }
    }
}

/// A line without the `'\r'` of a `"\r\n"` ending.
pub open spec fn strip_cr(line: Seq<char>) -> Seq<char> {
    if line.len() > 0 && line.last() == '\r' {
        line.drop_last()
    } else {
        line
    }
}

/// The lines of `s` (`str::lines`): split at `'\n'`, a `'\r'` just before a
/// `'\n'` dropped, and no empty last line after a final line ending.
pub open spec fn lines_of(s: Seq<char>) -> Seq<Seq<char>> {
    let pieces = split_on(s, '\n');
    let ended = pieces.drop_last().map_values(|p: Seq<char>| strip_cr(p));
    if pieces.last().len() == 0 {
        ended
    } else {
        ended.push(pieces.last())
    }
}

/// The concatenation of `parts` with `sep` between neighbours.
pub open spec fn join_with(parts: Seq<Seq<char>>, sep: Seq<char>) -> Seq<char>
    decreases parts.len(),
{
    if parts.len() == 0 {
        Seq::<char>::empty()
    } else if parts.len() == 1 {
        parts[0]
    } else {
        join_with(parts.drop_last(), sep) + sep + parts.last()
    }
}

/// `needle` occurs in `hay` at position `i`.
pub open spec fn occurs_at(hay: Seq<char>, needle: Seq<char>, i: int) -> bool {
    0 <= i && i + needle.len() <= hay.len() && hay.subrange(i, i + needle.len()) == needle
}

/// `needle` occurs somewhere in `hay` (`str::contains`).
pub open spec fn contains_seq(hay: Seq<char>, needle: Seq<char>) -> bool {
    exists|i: int| occurs_at(hay, needle, i)
}

/// Strict lexicographic order on texts by code point; it is the order of
/// `String` comparison, since UTF-8 preserves code point order.
pub open spec fn seq_lt(a: Seq<char>, b: Seq<char>) -> bool
    decreases a.len(),
{
    if a.len() == 0 {
        b.len() > 0
    } else if b.len() == 0 {
        false
    } else if a[0] != b[0] {
        (a[0] as int) < (b[0] as int)
    } else {
        seq_lt(a.drop_first(), b.drop_first())
    }
}

/// The lower-case mapping that `str::to_lowercase` computes (full Unicode case
/// mapping, which may change the length of the text).
pub uninterp spec fn unicode_lowercase(s: Seq<char>) -> Seq<char>;

/// Every character of `s` is ASCII.
pub open spec fn is_ascii_text(s: Seq<char>) -> bool {
    forall|i: int| 0 <= i < s.len() ==> (#[trigger] s[i] as u32) < 128
}

/// `c` with `A`..`Z` mapped to `a`..`z`.
pub open spec fn ascii_lower_char(c: char) -> char {
    if 'A' <= c <= 'Z' {
        ((c as u32) + 32) as char
    } else {
        c
    }
}

/// `s` with each ASCII capital letter replaced by its small letter.
pub open spec fn ascii_lowercase(s: Seq<char>) -> Seq<char> {
    s.map_values(|c: char| ascii_lower_char(c))
}

/// The decimal digit for `d` (`0 <= d < 10`).
pub open spec fn digit_char(d: nat) -> char {
    if d == 0 { '0' } else if d == 1 { '1' } else if d == 2 { '2' } else if d == 3 { '3' }
    else if d == 4 { '4' } else if d == 5 { '5' } else if d == 6 { '6' } else if d == 7 { '7' }
    else if d == 8 { '8' } else { '9' }
}

/// The decimal notation of `n`, without leading zeros.
pub open spec fn nat_decimal(n: nat) -> Seq<char>
    decreases n,
{
    if n < 10 {
        seq![digit_char(n)]
    } else {
        nat_decimal(n / 10).push(digit_char(n % 10))
    }
}

/// The decimal notation of `n` (`Display` for integers): a `'-'` before
/// the digits of a negative number.
pub open spec fn int_decimal(n: int) -> Seq<char> {
    if n < 0 {
        seq!['-'] + nat_decimal((-n) as nat)
    } else {
        nat_decimal(n as nat)
    }
}

// ---------------------------------------------------------------------------
// Lemmas
// ---------------------------------------------------------------------------

/// Where `trim_start_by` cuts: the result is `s.skip(k)` and `s[k]`, when
/// there is one, is kept.
pub proof fn trim_start_index(s: Seq<char>, set: TrimSet) -> (k: int)
    ensures
        0 <= k <= s.len(),
        trim_start_by(s, set) == s.skip(k),
        k < s.len() ==> !set.member(s[k]),
    decreases s.len(),
{
    if s.len() > 0 && set.member(s[0]) {
        let j = trim_start_index(s.drop_first(), set);
        assert(s.drop_first().skip(j) =~= s.skip(j + 1));
        j + 1
    } else {
        assert(s.skip(0) =~= s);
        0
    }
}

/// Where `trim_end_by` cuts: the result is `s.take(k)` and `s[k - 1]`,
/// when there is one, is kept.
pub proof fn trim_end_index(s: Seq<char>, set: TrimSet) -> (k: int)
    ensures
        0 <= k <= s.len(),
        trim_end_by(s, set) == s.take(k),
        k > 0 ==> !set.member(s[k - 1]),
    decreases s.len(),
{
    if s.len() > 0 && set.member(s.last()) {
        let j = trim_end_index(s.drop_last(), set);
        assert(s.drop_last().take(j) =~= s.take(j));
        j
    } else {
        assert(s.take(s.len() as int) =~= s);
        s.len() as int
    }
}

/// A trim keeps a contiguous part of the text, which neither starts nor
/// ends with a trimmed character.
pub proof fn lemma_trim_by_shape(s: Seq<char>, set: TrimSet) -> (bounds: (int, int))
    ensures
        0 <= bounds.0 <= bounds.1 <= s.len(),
        trim_by(s, set) == s.subrange(bounds.0, bounds.1),
        trim_by(s, set).len() > 0 ==> !set.member(trim_by(s, set)[0]) && !set.member(
            trim_by(s, set).last(),
        ),
{
    let a = trim_start_index(s, set);
    let t = s.skip(a);
    let b = trim_end_index(t, set);
    assert(t.take(b) =~= s.subrange(a, a + b));
    if b > 0 {
        assert(trim_by(s, set)[0] == t[0]);
        assert(t[0] == s[a]);
    }
    (a, a + b)
}

/// A text that neither starts nor ends with a trimmed character is left as
/// it is.
pub proof fn lemma_trim_by_fixed(s: Seq<char>, set: TrimSet)
    requires
        s.len() > 0 ==> !set.member(s[0]) && !set.member(s.last()),
    ensures
        trim_by(s, set) == s,
{
}

/// Trimming twice is trimming once.
pub proof fn lemma_trimmed_idempotent(s: Seq<char>)
    ensures
        trimmed(trimmed(s)) == trimmed(s),
{
    lemma_trim_by_shape(s, TrimSet::Whitespace);
    lemma_trim_by_fixed(trimmed(s), TrimSet::Whitespace);
}

/// Lower-casing ASCII text works character by character: it keeps the
/// length, maps each character on its own, and so commutes with joining
/// texts.
pub proof fn lemma_ascii_lowercase_pointwise(a: Seq<char>, b: Seq<char>)
    ensures
        ascii_lowercase(a).len() == a.len(),
        forall|i: int| 0 <= i < a.len() ==> #[trigger] ascii_lowercase(a)[i] == ascii_lower_char(a[i]),
        ascii_lowercase(a + b) == ascii_lowercase(a) + ascii_lowercase(b),
{
    assert(ascii_lowercase(a + b) =~= ascii_lowercase(a) + ascii_lowercase(b));
}

/// A word found anywhere in a text is found, lower-cased, in the
/// lower-cased text: a match on any line of the output counts.
pub proof fn lemma_ascii_lowercase_finds(hay: Seq<char>, needle: Seq<char>)
    requires
        contains_seq(hay, needle),
    ensures
        contains_seq(ascii_lowercase(hay), ascii_lowercase(needle)),
{
    let i = choose|i: int| occurs_at(hay, needle, i);
    assert(ascii_lowercase(hay).subrange(i, i + needle.len()) =~= ascii_lowercase(needle)) by {
        assert(hay.subrange(i, i + needle.len()) == needle);
        assert forall|k: int| 0 <= k < needle.len() implies ascii_lowercase(hay).subrange(
            i,
            i + needle.len(),
        )[k] == ascii_lowercase(needle)[k] by {
            assert(hay.subrange(i, i + needle.len())[k] == hay[i + k]);
        }
    }
    assert(occurs_at(ascii_lowercase(hay), ascii_lowercase(needle), i));
}

/// A part of ASCII text is ASCII.
pub proof fn lemma_ascii_subrange(s: Seq<char>, a: int, b: int)
    requires
        is_ascii_text(s),
        0 <= a <= b <= s.len(),
    ensures
        is_ascii_text(s.subrange(a, b)),
{
    assert forall|i: int| 0 <= i < s.subrange(a, b).len() implies (#[trigger] s.subrange(a, b)[i] as u32) < 128 by {
        assert(s.subrange(a, b)[i] == s[a + i]);
    }
}

/// The pieces of a split hold no separator.
pub proof fn lemma_split_on_pieces(s: Seq<char>, sep: char)
    ensures
        forall|k: int| 0 <= k < split_on(s, sep).len() ==> !(#[trigger] split_on(s, sep)[k]).contains(sep),
    decreases s.len(),
{
    if s.len() > 0 {
        lemma_split_on_pieces(s.drop_last(), sep);
        lemma_split_on_nonempty(s.drop_last(), sep);
        let prev = split_on(s.drop_last(), sep);
        let cur = split_on(s, sep);
        assert forall|k: int| 0 <= k < cur.len() implies !(#[trigger] cur[k]).contains(sep) by {
            if k < prev.len() - 1 {
                assert(cur[k] == prev[k]);
            } else if s.last() != sep && k == prev.len() - 1 {
                assert(cur[k] == prev.last().push(s.last()));
                if cur[k].contains(sep) {
                    let j = choose|j: int| 0 <= j < cur[k].len() && cur[k][j] == sep;
                    assert(prev.last()[j] == sep);
                }
            } else if k < prev.len() {
                assert(cur[k] == prev[k]);
            } else {
                assert(cur[k] =~= Seq::<char>::empty());
            }
        }
    }
}

/// The lines of a text hold no line feed.
pub proof fn lemma_lines_have_no_newline(s: Seq<char>)
    ensures
        forall|k: int| 0 <= k < lines_of(s).len() ==> !(#[trigger] lines_of(s)[k]).contains('\n'),
{
    lemma_split_on_pieces(s, '\n');
    lemma_split_on_nonempty(s, '\n');
    let pieces = split_on(s, '\n');
    let ended = pieces.drop_last().map_values(|p: Seq<char>| strip_cr(p));
    assert forall|k: int| 0 <= k < ended.len() implies !(#[trigger] ended[k]).contains('\n') by {
        let p = pieces[k];
        assert(ended[k] == strip_cr(p));
        if ended[k].contains('\n') {
            let j = choose|j: int| 0 <= j < ended[k].len() && ended[k][j] == '\n';
            assert(p[j] == '\n');
        }
    }
    let ls = lines_of(s);
    assert forall|k: int| 0 <= k < ls.len() implies !(#[trigger] ls[k]).contains('\n') by {
        if k < ended.len() {
            assert(ls[k] == ended[k]);
        } else {
            assert(ls[k] == pieces.last());
        }
    }
}

/// A trim removes characters only at the ends: any character it keeps was
/// in the text.
pub proof fn lemma_trim_by_keeps_chars(s: Seq<char>, set: TrimSet, c: char)
    requires
        trim_by(s, set).contains(c),
    ensures
        s.contains(c),
{
    let (a, b) = lemma_trim_by_shape(s, set);
    let t = trim_by(s, set);
    let j = choose|j: int| 0 <= j < t.len() && t[j] == c;
    assert(s[a + j] == c);
}

/// The joined text holds a character only if a part or the separator does.
pub proof fn lemma_join_with_chars(parts: Seq<Seq<char>>, sep: Seq<char>, c: char)
    requires
        join_with(parts, sep).contains(c),
    ensures
        sep.contains(c) || exists|k: int| 0 <= k < parts.len() && (#[trigger] parts[k]).contains(c),
    decreases parts.len(),
{
    if parts.len() == 1 {
        assert(parts[0].contains(c));
    } else if parts.len() > 1 {
        let prefix = join_with(parts.drop_last(), sep);
        let whole = prefix + sep + parts.last();
        let j = choose|j: int| 0 <= j < whole.len() && whole[j] == c;
        if j < prefix.len() {
            assert(prefix[j] == c);
            lemma_join_with_chars(parts.drop_last(), sep, c);
            if !sep.contains(c) {
                let k = choose|k: int| 0 <= k < parts.drop_last().len() && (#[trigger] parts.drop_last()[k]).contains(c);
                assert(parts[k] == parts.drop_last()[k]);
            }
        } else if j < prefix.len() + sep.len() {
            assert(sep[j - prefix.len()] == c);
        } else {
            assert(parts.last()[j - prefix.len() - sep.len()] == c);
            assert(parts[parts.len() - 1] == parts.last());
        }
    }
}


pub proof fn lemma_split_on_nonempty(s: Seq<char>, sep: char)
    ensures
        split_on(s, sep).len() >= 1,
    decreases s.len(),
{
    if s.len() > 0 {
        lemma_split_on_nonempty(s.drop_last(), sep);
    }
}

proof fn lemma_trim_start_skip(s: Seq<char>, set: TrimSet, i: int)
    requires
        0 <= i <= s.len(),
        forall|k: int| 0 <= k < i ==> set.member(#[trigger] s[k]),
    ensures
        trim_start_by(s, set) == trim_start_by(s.skip(i), set),
    decreases i,
{
    if i > 0 {
        assert(s.skip(1) =~= s.drop_first());
        lemma_trim_start_skip(s.drop_first(), set, i - 1);
        assert(s.drop_first().skip(i - 1) =~= s.skip(i));
    } else {
        assert(s.skip(0) =~= s);
    }
}

proof fn lemma_trim_end_take(s: Seq<char>, set: TrimSet, j: int)
    requires
        0 <= j <= s.len(),
        forall|k: int| j <= k < s.len() ==> set.member(#[trigger] s[k]),
    ensures
        trim_end_by(s, set) == trim_end_by(s.take(j), set),
    decreases s.len() - j,
{
    if j < s.len() {
        lemma_trim_end_take(s.drop_last(), set, j);
        assert(s.drop_last().take(j) =~= s.take(j));
    } else {
        assert(s.take(j) =~= s);
    }
}

// ---------------------------------------------------------------------------
// Executable operations
// ---------------------------------------------------------------------------

/// The characters of `s`, in order.
pub fn chars_of(s: &str) -> (res: Vec<char>)
    ensures
        res@ == s@,
{
    let mut res: Vec<char> = Vec::new();
    for c in it: s.chars()
        invariant
            res@ == it.seq().take(it.index() as int),
            it.seq() == s@,
    {
        res.push(c);
    }
    res
}

/// `String::push` appends one character.
pub assume_specification[ String::push ](string: &mut String, ch: char)
    ensures
        final(string)@ == old(string)@.push(ch),
;

/// A `String` holding exactly the characters `v`.
pub fn string_of(v: &Vec<char>) -> (res: String)
    ensures
        res@ == v@,
{
    let mut res = String::new();
    let mut i: usize = 0;
    while i < v.len()
        invariant
            i <= v.len(),
            res@ == v@.take(i as int),
        decreases v.len() - i,
    {
        res.push(v[i]);
        assert(v@.take(i + 1) =~= v@.take(i as int).push(v@[i as int]));
        i = i + 1;
    }
    assert(v@.take(v.len() as int) =~= v@);
    res
}

/// `str::to_lowercase`. On ASCII text it lower-cases each capital letter
/// and keeps every other character, as the standard library documents for
/// the ASCII range.
#[verifier::external_body]
pub(crate) fn to_lowercase(s: &str) -> (res: String)
    ensures
        res@ == unicode_lowercase(s@),
        is_ascii_text(s@) ==> res@ == ascii_lowercase(s@),
{
    s.to_lowercase()
}

/// `c.is_whitespace()`.
pub fn is_whitespace(c: char) -> (res: bool)
    ensures
        res == is_whitespace_char(c),
{
    TrimSet::Whitespace.has(c)
}

/// `c.is_control()`.
pub fn is_control(c: char) -> (res: bool)
    ensures
        res == is_control_char(c),
{
    let u = c as u32;
    u <= 0x1f || (0x7f <= u && u <= 0x9f)
}

/// `v` without leading and trailing characters of `set`.
pub fn trim_chars(v: &Vec<char>, set: &TrimSet) -> (res: Vec<char>)
    ensures
        res@ == trim_by(v@, *set),
{
    let n = v.len();
    let mut i: usize = 0;
    while i < n && set.has(v[i])
        invariant
            i <= n,
            n == v@.len(),
            forall|k: int| 0 <= k < i ==> set.member(#[trigger] v@[k]),
        decreases n - i,
    {
        i = i + 1;
    }
    proof {
        lemma_trim_start_skip(v@, *set, i as int);
    }
    let ghost rest = v@.skip(i as int);
    let mut j: usize = n;
    while j > i && set.has(v[j - 1])
        invariant
            i <= j <= n,
            n == v@.len(),
            forall|k: int| j <= k < n ==> set.member(#[trigger] v@[k]),
        decreases j,
    {
        j = j - 1;
    }
    let mut res: Vec<char> = Vec::new();
    let mut k: usize = i;
    while k < j
        invariant
            i <= k <= j <= n,
            n == v@.len(),
            res@ == v@.subrange(i as int, k as int),
        decreases j - k,
    {
        res.push(v[k]);
        k = k + 1;
    }
    proof {
        // trim_start_by(v) == rest and rest does not start with a member
        if rest.len() > 0 {
            assert(rest[0] == v@[i as int]);
        }
        assert(trim_start_by(rest, *set) == rest);
        assert forall|q: int| (j - i) <= q < rest.len() implies set.member(#[trigger] rest[q]) by {
            assert(rest[q] == v@[q + i]);
        }
        lemma_trim_end_take(rest, *set, (j - i) as int);
        let t = rest.take((j - i) as int);
        assert(t =~= res@);
        if t.len() > 0 {
            assert(t.last() == v@[j - 1]);
        }
        assert(trim_end_by(t, *set) == t);
    }
    res
}

/// `str::trim`, as an owned text.
pub fn trim(s: &str) -> (res: String)
    ensures
        res@ == trimmed(s@),
{
    let v = chars_of(s);
    let t = trim_chars(&v, &TrimSet::Whitespace);
    string_of(&t)
}

/// Whether `a` and `b` hold the same characters.
pub fn chars_eq(a: &Vec<char>, b: &Vec<char>) -> (res: bool)
    ensures
        res == (a@ == b@),
{
    if a.len() != b.len() {
        return false;
    }
    let mut i: usize = 0;
    while i < a.len()
        invariant
            i <= a.len() == b.len(),
            a@.take(i as int) == b@.take(i as int),
        decreases a.len() - i,
    {
        if a[i] != b[i] {
            assert(a@[i as int] != b@[i as int]);
            return false;
        }
        assert(a@.take(i + 1) =~= a@.take(i as int).push(a@[i as int]));
        assert(b@.take(i + 1) =~= b@.take(i as int).push(b@[i as int]));
        i = i + 1;
    }
    assert(a@.take(a.len() as int) =~= a@);
    assert(b@.take(b.len() as int) =~= b@);
    true
}

/// Whether the texts `a` and `b` are equal.
pub fn str_eq(a: &str, b: &str) -> (res: bool)
    ensures
        res == (a@ == b@),
{
    let x = chars_of(a);
    let y = chars_of(b);
    chars_eq(&x, &y)
}

/// Whether `a` comes strictly before `b` in code point order.
pub fn chars_lt(a: &Vec<char>, b: &Vec<char>) -> (res: bool)
    ensures
        res == seq_lt(a@, b@),
{
    let mut i: usize = 0;
    assert(a@.skip(0) =~= a@ && b@.skip(0) =~= b@);
    while i < a.len() && i < b.len() && a[i] == b[i]
        invariant
            i <= a.len(),
            i <= b.len(),
            seq_lt(a@, b@) == seq_lt(a@.skip(i as int), b@.skip(i as int)),
        decreases a.len() - i,
    {
        proof {
            let x = a@.skip(i as int);
            let y = b@.skip(i as int);
            assert(x.drop_first() =~= a@.skip(i + 1));
            assert(y.drop_first() =~= b@.skip(i + 1));
        }
        i = i + 1;
    }
    let ghost x = a@.skip(i as int);
    let ghost y = b@.skip(i as int);
    if i == a.len() {
        i < b.len()
    } else if i == b.len() {
        false
    } else {
        assert(x[0] == a@[i as int] && y[0] == b@[i as int]);
        a[i] < b[i]
    }
}

/// Whether `needle` occurs in `hay`.
pub fn contains_chars(hay: &Vec<char>, needle: &Vec<char>) -> (res: bool)
    ensures
        res == contains_seq(hay@, needle@),
{
    if needle.len() > hay.len() {
        assert forall|i: int| !occurs_at(hay@, needle@, i) by {}
        return false;
    }
    let last = hay.len() - needle.len();
    let mut i: usize = 0;
    while i <= last
        invariant
            last == hay.len() - needle.len(),
            i <= last + 1,
            forall|p: int| 0 <= p < i ==> !occurs_at(hay@, needle@, p),
        decreases last + 1 - i,
    {
        let mut j: usize = 0;
        while j < needle.len() && hay[i + j] == needle[j]
            invariant
                i <= last,
                last == hay.len() - needle.len(),
                j <= needle.len(),
                forall|q: int| 0 <= q < j ==> hay@[i + q] == needle@[q],
            decreases needle.len() - j,
        {
            j = j + 1;
        }
        if j == needle.len() {
            assert(hay@.subrange(i as int, i + needle.len()) =~= needle@);
            assert(occurs_at(hay@, needle@, i as int));
            return true;
        }
        assert(hay@.subrange(i as int, i + needle.len())[j as int] != needle@[j as int]);
        i = i + 1;
    }
    assert forall|p: int| !occurs_at(hay@, needle@, p) by {
        if 0 <= p < i {
        }
    }
    false
}

/// Whether `needle` occurs in `hay`.
pub fn contains_str(hay: &Vec<char>, needle: &str) -> (res: bool)
    ensures
        res == contains_seq(hay@, needle@),
{
    let n = chars_of(needle);
    contains_chars(hay, &n)
}

/// The pieces of `v` between occurrences of `sep`.
pub fn split_chars(v: &Vec<char>, sep: char) -> (res: Vec<Vec<char>>)
    ensures
        res@.len() == split_on(v@, sep).len(),
        forall|k: int| 0 <= k < res@.len() ==> #[trigger] res@[k]@ == split_on(v@, sep)[k],
{
    let mut done: Vec<Vec<char>> = Vec::new();
    let mut current: Vec<char> = Vec::new();
    let mut i: usize = 0;
    while i < v.len()
        invariant
            i <= v.len(),
            done@.len() + 1 == split_on(v@.take(i as int), sep).len(),
            forall|k: int| 0 <= k < done@.len() ==> #[trigger] done@[k]@ == split_on(
                v@.take(i as int),
                sep,
            )[k],
            current@ == split_on(v@.take(i as int), sep).last(),
        decreases v.len() - i,
    {
        let c = v[i];
        proof {
            lemma_split_on_nonempty(v@.take(i as int), sep);
            assert(v@.take(i + 1).drop_last() =~= v@.take(i as int));
        }
        if c == sep {
            let finished = current;
            done.push(finished);
            current = Vec::new();
        } else {
            current.push(c);
        }
        i = i + 1;
    }
    assert(v@.take(v.len() as int) =~= v@);
    done.push(current);
    proof {
        lemma_split_on_nonempty(v@, sep);
    }
    done
}

/// The lines of `s` (`str::lines`).
pub fn lines(s: &str) -> (res: Vec<Vec<char>>)
    ensures
        res@.len() == lines_of(s@).len(),
        forall|k: int| 0 <= k < res@.len() ==> #[trigger] res@[k]@ == lines_of(s@)[k],
{
    let v = chars_of(s);
    let pieces = split_chars(&v, '\n');
    proof {
        lemma_split_on_nonempty(s@, '\n');
    }
    let ghost spec_pieces = split_on(s@, '\n');
    let ghost ended = spec_pieces.drop_last().map_values(|p: Seq<char>| strip_cr(p));
    let n = pieces.len();
    let mut res: Vec<Vec<char>> = Vec::new();
    let mut i: usize = 0;
    while i + 1 < n
        invariant
            n == pieces@.len() == spec_pieces.len(),
            n >= 1,
            i + 1 <= n,
            forall|k: int| 0 <= k < n ==> #[trigger] pieces@[k]@ == spec_pieces[k],
            res@.len() == i,
            ended.len() == n - 1,
            forall|k: int| 0 <= k < n - 1 ==> #[trigger] ended[k] == strip_cr(spec_pieces[k]),
            forall|k: int| 0 <= k < i ==> #[trigger] res@[k]@ == ended[k],
        decreases n - i,
    {
        let p = &pieces[i];
        let mut line: Vec<char> = Vec::new();
        let mut stop = p.len();
        if stop > 0 && p[stop - 1] == '\r' {
            stop = stop - 1;
        }
        let mut k: usize = 0;
        while k < stop
            invariant
                stop <= p@.len(),
                k <= stop,
                line@ == p@.take(k as int),
            decreases stop - k,
        {
            line.push(p[k]);
            k = k + 1;
        }
        assert(line@ == strip_cr(pieces@[i as int]@)) by {
            if p@.len() > 0 && p@.last() == '\r' {
                assert(p@.drop_last() =~= p@.take(p@.len() - 1));
            } else {
                assert(p@.take(p@.len() as int) =~= p@);
            }
        }
        res.push(line);
        i = i + 1;
    }
    let last = &pieces[n - 1];
    if last.len() > 0 {
        let mut tail: Vec<char> = Vec::new();
        let mut k: usize = 0;
        while k < last.len()
            invariant
                k <= last@.len(),
                tail@ == last@.take(k as int),
            decreases last.len() - k,
        {
            tail.push(last[k]);
            k = k + 1;
        }
        assert(tail@ =~= last@);
        res.push(tail);
    }
    res
}

/// `parts` joined with `sep` between neighbours (`[String]::join`).
pub fn join(parts: &Vec<String>, sep: &str) -> (res: String)
    ensures
        res@ == join_with(parts@.map_values(|p: String| p@), sep@),
{
    let ghost views = parts@.map_values(|p: String| p@);
    let sep_chars = chars_of(sep);
    let mut acc: Vec<char> = Vec::new();
    let mut i: usize = 0;
    while i < parts.len()
        invariant
            i <= parts.len(),
            views.len() == parts@.len(),
            sep_chars@ == sep@,
            forall|k: int| 0 <= k < parts@.len() ==> #[trigger] views[k] == parts@[k]@,
            acc@ == join_with(views.take(i as int), sep@),
        decreases parts.len() - i,
    {
        let piece = chars_of(parts[i].as_str());
        let ghost before = acc@;
        if i > 0 {
            append_chars(&mut acc, &sep_chars);
        }
        append_chars(&mut acc, &piece);
        proof {
            let t = views.take(i + 1);
            assert(t.drop_last() =~= views.take(i as int));
            if i == 0 {
                assert(acc@ =~= t[0]);
            } else {
                assert(acc@ =~= before + sep@ + t.last());
            }
        }
        i = i + 1;
    }
    assert(views.take(parts.len() as int) =~= views);
    string_of(&acc)
}

fn digit(d: u64) -> (c: char)
    requires
        d < 10,
    ensures
        c == digit_char(d as nat),
{
    if d == 0 { '0' } else if d == 1 { '1' } else if d == 2 { '2' } else if d == 3 { '3' }
    else if d == 4 { '4' } else if d == 5 { '5' } else if d == 6 { '6' } else if d == 7 { '7' }
    else if d == 8 { '8' } else { '9' }
}

/// The decimal digits of `n`.
pub fn u64_decimal(n: u64) -> (res: Vec<char>)
    ensures
        res@ == nat_decimal(n as nat),
    decreases n,
{
    if n < 10 {
        let mut v: Vec<char> = Vec::new();
        v.push(digit(n));
        v
    } else {
        let mut v = u64_decimal(n / 10);
        v.push(digit(n % 10));
        v
    }
}

/// The decimal notation of `n` (`n.to_string()`).
pub fn int_to_string(n: i64) -> (res: String)
    ensures
        res@ == int_decimal(n as int),
{
    if n < 0 {
        let mut v: Vec<char> = Vec::new();
        v.push('-');
        let magnitude: u64 = ((-(n + 1)) as u64) + 1;
        assert(magnitude == -n);
        let digits = u64_decimal(magnitude);
        append_chars(&mut v, &digits);
        string_of(&v)
    } else {
        let digits = u64_decimal(n as u64);
        string_of(&digits)
    }
}

/// Appends the characters of `src` to `dst`.
pub fn append_chars(dst: &mut Vec<char>, src: &Vec<char>)
    ensures
        final(dst)@ == old(dst)@ + src@,
{
    let mut k: usize = 0;
    while k < src.len()
        invariant
            k <= src.len(),
            dst@ == old(dst)@ + src@.take(k as int),
        decreases src.len() - k,
    {
        dst.push(src[k]);
        assert(src@.take(k + 1) =~= src@.take(k as int).push(src@[k as int]));
        k = k + 1;
    }
    assert(src@.take(src.len() as int) =~= src@);
}

/// Appends the characters of `s` to `dst`.
pub fn append_str(dst: &mut Vec<char>, s: &str)
    ensures
        final(dst)@ == old(dst)@ + s@,
{
    let v = chars_of(s);
    append_chars(dst, &v);
}

} // verus!
