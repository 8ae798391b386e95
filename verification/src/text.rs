use vstd::prelude::*;

verus! {

broadcast use vstd::string::group_string_axioms;

// ------------------------------------------------------------
// Characters
// ------------------------------------------------------------

/// The characters that have the Unicode `White_Space` property, which is what
/// `char::is_whitespace` (and so `str::trim` and `str::split_whitespace`) tests.
pub open spec fn is_space(c: char) -> bool {
    let u = c as u32;
    ||| u == 0x09 || u == 0x0A || u == 0x0B || u == 0x0C || u == 0x0D || u == 0x20
    ||| u == 0x85 || u == 0xA0 || u == 0x1680
    ||| 0x2000 <= u <= 0x200A
    ||| u == 0x2028 || u == 0x2029 || u == 0x202F || u == 0x205F || u == 0x3000
}

pub fn is_space_char(c: char) -> (b: bool)
    ensures
        b == is_space(c),
{
    let u = c as u32;
    u == 0x09 || u == 0x0A || u == 0x0B || u == 0x0C || u == 0x0D || u == 0x20 || u == 0x85
        || u == 0xA0 || u == 0x1680 || (0x2000 <= u && u <= 0x200A) || u == 0x2028 || u
        == 0x2029 || u == 0x202F || u == 0x205F || u == 0x3000
}

pub open spec fn is_ascii_digit(c: char) -> bool {
    '0' <= c <= '9'
}

pub open spec fn is_ascii_alphanumeric(c: char) -> bool {
    ||| '0' <= c <= '9'
    ||| 'a' <= c <= 'z'
    ||| 'A' <= c <= 'Z'
}

/// ASCII lower-casing of one character, as `char::to_ascii_lowercase` does.
pub open spec fn ascii_lower(c: char) -> char {
    if 'A' <= c <= 'Z' {
        ((c as u32) + 32) as char
    } else {
        c
    }
}

pub fn ascii_lower_char(c: char) -> (r: char)
    ensures
        r == ascii_lower(c),
{
    if 'A' <= c && c <= 'Z' {
        ((c as u8) + 32) as char
    } else {
        c
    }
}

/// `char::len_utf8`: how many bytes the UTF-8 encoding of `c` takes.
pub open spec fn utf8_width(c: char) -> nat {
    let u = c as u32;
    if u < 0x80 {
        1
    } else if u < 0x800 {
        2
    } else if u < 0x10000 {
        3
    } else {
        4
    }
}

/// `str::len`: the length in bytes of the UTF-8 encoding of `s`.
pub open spec fn byte_len(s: Seq<char>) -> nat
    decreases s.len(),
{
    if s.len() == 0 {
        0
    } else {
        utf8_width(s[0]) + byte_len(s.drop_first())
    }
}

pub fn utf8_width_of(c: char) -> (w: usize)
    ensures
        w == utf8_width(c),
{
    let u = c as u32;
    if u < 0x80 {
        1
    } else if u < 0x800 {
        2
    } else if u < 0x10000 {
        3
    } else {
        4
    }
}

pub proof fn lemma_byte_len_push(s: Seq<char>, c: char)
    ensures
        byte_len(s.push(c)) == byte_len(s) + utf8_width(c),
    decreases s.len(),
{
    if s.len() > 0 {
        assert(s.push(c).drop_first() =~= s.drop_first().push(c));
        lemma_byte_len_push(s.drop_first(), c);
    } else {
        assert(s.push(c).drop_first() =~= Seq::<char>::empty());
        assert(byte_len(Seq::<char>::empty()) == 0);
        assert(s.push(c)[0] == c);
    }
}

pub proof fn lemma_byte_len_at_least_len(s: Seq<char>)
    ensures
        byte_len(s) >= s.len(),
    decreases s.len(),
{
    if s.len() > 0 {
        lemma_byte_len_at_least_len(s.drop_first());
    }
}

/// `byte_len` is the length of the UTF-8 encoding that vstd describes.
pub proof fn lemma_byte_len_is_encoding_len(s: Seq<char>)
    ensures
        byte_len(s) == vstd::utf8::encode_utf8(s).len(),
    decreases s.len(),
{
    if s.len() > 0 {
        lemma_byte_len_is_encoding_len(s.drop_first());
        vstd::utf8::char_is_scalar(s[0]);
    }
}

/// A `str` is never longer in bytes than `usize::MAX`.
pub fn str_byte_len_fits(text: &str)
    ensures
        byte_len(text@) <= usize::MAX,
{
    let bytes = text.as_bytes();
    let _n = bytes.len();
    proof {
        lemma_byte_len_is_encoding_len(text@);
    }
}

/// The byte length of `s[..n]`.
pub fn byte_len_of_prefix(s: &[char], n: usize) -> (b: usize)
    requires
        n <= s@.len(),
        byte_len(s@) <= usize::MAX,
    ensures
        b == byte_len(s@.take(n as int)),
{
    let mut b: usize = 0;
    let mut i: usize = 0;
    assert(s@.take(0) =~= Seq::<char>::empty());
    while i < n
        invariant
            i <= n <= s@.len(),
            b == byte_len(s@.take(i as int)),
            byte_len(s@) <= usize::MAX,
        decreases n - i,
    {
        proof {
            assert(s@.take(i + 1) =~= s@.take(i as int).push(s@[i as int]));
            lemma_byte_len_push(s@.take(i as int), s@[i as int]);
            lemma_byte_len_prefix(s@, i + 1);
        }
        b = b + utf8_width_of(s[i]);
        i = i + 1;
    }
    b
}

pub proof fn lemma_byte_len_prefix(s: Seq<char>, n: int)
    requires
        0 <= n <= s.len(),
    ensures
        byte_len(s.take(n)) <= byte_len(s),
    decreases s.len() - n,
{
    if n < s.len() {
        assert(s.take(n + 1) =~= s.take(n).push(s[n]));
        lemma_byte_len_push(s.take(n), s[n]);
        lemma_byte_len_prefix(s, n + 1);
    } else {
        assert(s.take(n) =~= s);
    }
}

// ------------------------------------------------------------
// Conversions between str, String and character vectors
// ------------------------------------------------------------

/// The characters of `s`, in order.
pub fn chars_of(s: &str) -> (v: Vec<char>)
    ensures
        v@ == s@,
{
    let mut v: Vec<char> = Vec::new();
    for c in it: s.chars()
        invariant
            v@ == it.seq().take(it.index() as int),
            it.seq() == s@,
    {
        v.push(c);
    }
    assert(v@ =~= s@);
    v
}

/// `String::push` from std: appends one character.
#[verifier::external_body]
fn push_char(s: &mut String, c: char)
    ensures
        final(s)@ == old(s)@.push(c),
{
    s.push(c);
}

/// The string made of the characters of `v`.
pub fn string_of(v: &[char]) -> (s: String)
    ensures
        s@ == v@,
{
    let mut s = String::new();
    for i in 0..v.len()
        invariant
            s@ == v@.take(i as int),
    {
        push_char(&mut s, v[i]);
        assert(v@.take(i as int).push(v@[i as int]) =~= v@.take(i + 1));
    }
    assert(v@.take(v@.len() as int) =~= v@);
    s
}

/// Appends all characters of `b` to `a`.
pub fn append_chars(a: &mut Vec<char>, b: &[char])
    ensures
        final(a)@ == old(a)@ + b@,
{
    let ghost a0 = a@;
    for i in 0..b.len()
        invariant
            a@ == a0 + b@.take(i as int),
    {
        a.push(b[i]);
        assert(a0 + b@.take(i as int).push(b@[i as int]) =~= a0 + b@.take(i + 1));
    }
    assert(b@.take(b@.len() as int) =~= b@);
}

// ------------------------------------------------------------
// Trimming
// ------------------------------------------------------------

/// `str::trim_start`: drops the leading white space.
pub open spec fn trim_start(s: Seq<char>) -> Seq<char>
    decreases s.len(),
{
    if s.len() > 0 && is_space(s[0]) {
        trim_start(s.drop_first())
    } else {
        s
    }
}

/// `str::trim_end`: drops the trailing white space.
pub open spec fn trim_end(s: Seq<char>) -> Seq<char>
    decreases s.len(),
{
    if s.len() > 0 && is_space(s.last()) {
        trim_end(s.drop_last())
    } else {
        s
    }
}

/// `str::trim`: drops white space at both ends.
pub open spec fn trim(s: Seq<char>) -> Seq<char> {
    trim_end(trim_start(s))
}

/// Where the text of `trim_start(s)` begins in `s`.
pub fn trim_start_index(s: &[char]) -> (i: usize)
    ensures
        i <= s@.len(),
        trim_start(s@) == s@.subrange(i as int, s@.len() as int),
{
    let mut i: usize = 0;
    assert(s@.subrange(0, s@.len() as int) =~= s@);
    while i < s.len() && is_space_char(s[i])
        invariant
            i <= s@.len(),
            trim_start(s@) == trim_start(s@.subrange(i as int, s@.len() as int)),
        decreases s.len() - i,
    {
        assert(s@.subrange(i as int, s@.len() as int).drop_first() =~= s@.subrange(
            i + 1,
            s@.len() as int,
        ));
        i = i + 1;
    }
    i
}

/// Where the text of `trim_end(s)` ends in `s`.
pub fn trim_end_index(s: &[char]) -> (j: usize)
    ensures
        j <= s@.len(),
        trim_end(s@) == s@.subrange(0, j as int),
{
    let mut j: usize = s.len();
    assert(s@.subrange(0, s@.len() as int) =~= s@);
    while j > 0 && is_space_char(s[j - 1])
        invariant
            j <= s@.len(),
            trim_end(s@) == trim_end(s@.subrange(0, j as int)),
        decreases j,
    {
        assert(s@.subrange(0, j as int).drop_last() =~= s@.subrange(0, j - 1));
        j = j - 1;
    }
    j
}

/// `s.trim_start()` as characters.
pub fn trim_start_chars(s: &[char]) -> (r: Vec<char>)
    ensures
        r@ == trim_start(s@),
{
    let i = trim_start_index(s);
    slice_chars(s, i, s.len())
}

/// `s.trim()` as characters.
pub fn trim_chars(s: &[char]) -> (r: Vec<char>)
    ensures
        r@ == trim(s@),
{
    let t = trim_start_chars(s);
    let j = trim_end_index(t.as_slice());
    slice_chars(t.as_slice(), 0, j)
}

/// Whether `c` does not occur in `s`.
pub open spec fn lacks(s: Seq<char>, c: char) -> bool {
    forall|j: int| 0 <= j < s.len() ==> s[j] != c
}

proof fn lemma_trim_start_shape(s: Seq<char>)
    ensures
        trim_start(s).len() <= s.len(),
        trim_start(s) == s.skip(s.len() - trim_start(s).len()),
        trim_start(s).len() > 0 ==> !is_space(trim_start(s)[0]),
    decreases s.len(),
{
    if s.len() > 0 && is_space(s[0]) {
        lemma_trim_start_shape(s.drop_first());
        assert(s.drop_first().skip(s.drop_first().len() - trim_start(s).len()) =~= s.skip(
            s.len() - trim_start(s).len(),
        ));
    } else {
        assert(s.skip(0) =~= s);
    }
}

proof fn lemma_trim_end_shape(s: Seq<char>)
    ensures
        trim_end(s).len() <= s.len(),
        trim_end(s) == s.take(trim_end(s).len() as int),
        trim_end(s).len() > 0 ==> !is_space(trim_end(s).last()),
    decreases s.len(),
{
    if s.len() > 0 && is_space(s.last()) {
        lemma_trim_end_shape(s.drop_last());
        assert(s.drop_last().take(trim_end(s).len() as int) =~= s.take(trim_end(s).len() as int));
    } else {
        assert(s.take(s.len() as int) =~= s);
    }
}

/// Text that neither starts nor ends with white space is its own trimmed text.
pub proof fn lemma_trim_fixed(s: Seq<char>)
    requires
        s.len() > 0 ==> !is_space(s[0]) && !is_space(s.last()),
    ensures
        trim(s) == s,
{
    assert(trim_start(s) == s);
    assert(trim_end(s) == s);
}

/// Trimming twice trims once, and trimming brings in no character.
pub proof fn lemma_trim_twice(s: Seq<char>, c: char)
    ensures
        trim(trim(s)) == trim(s),
        lacks(s, c) ==> lacks(trim(s), c),
{
    let a = trim_start(s);
    let t = trim(s);
    lemma_trim_start_shape(s);
    lemma_trim_end_shape(a);
    if t.len() > 0 {
        assert(t[0] == a[0]);
    }
    lemma_trim_fixed(t);
    if lacks(s, c) {
        assert forall|j: int| 0 <= j < t.len() implies t[j] != c by {
            assert(t[j] == a[j]);
            assert(a[j] == s[s.len() - a.len() + j]);
        }
    }
}

/// When `x` has no `c`, splitting `x` followed by `c` and `rest` at `c` gives `x` and
/// then the pieces of `rest`.
pub proof fn lemma_split_after_piece(x: Seq<char>, rest: Seq<char>, c: char)
    requires
        lacks(x, c),
    ensures
        split_on(x + seq![c] + rest, c) == seq![x] + split_on(rest, c),
{
    let s = x + seq![c] + rest;
    lemma_find_char_at(s, c, 0, x.len() as int);
    assert(s.take(x.len() as int) =~= x);
    assert(s.skip(x.len() + 1int) =~= rest);
}

/// `find` of one character stops at its first occurrence.
pub proof fn lemma_find_char_at(s: Seq<char>, c: char, i: int, k: int)
    requires
        0 <= i <= k < s.len(),
        s[k] == c,
        forall|j: int| i <= j < k ==> s[j] != c,
    ensures
        find_from(s, seq![c], i) == Some(k),
    decreases k - i,
{
    if i < k {
        assert(s.subrange(i, i + 1)[0] == s[i]);
        assert(s.subrange(i, i + 1) != seq![c]);
        lemma_find_char_at(s, c, i + 1, k);
    } else {
        assert(s.subrange(k, k + 1) =~= seq![c]);
    }
}

/// The pieces of a split hold no separator.
pub proof fn lemma_split_pieces_lack(s: Seq<char>, c: char)
    ensures
        split_on(s, c).len() >= 1,
        forall|i: int| 0 <= i < split_on(s, c).len() ==> lacks(#[trigger] split_on(s, c)[i], c),
    decreases s.len(),
{
    match find(s, seq![c]) {
        None => {
            assert forall|j: int| 0 <= j < s.len() implies s[j] != c by {
                if s[j] == c {
                    assert(occurs_at(s, seq![c], j)) by {
                        assert(s.subrange(j, j + 1) =~= seq![c]);
                    }
                    lemma_occurs_contains(s, seq![c], j);
                }
            }
        },
        Some(k) => {
            lemma_find_bounds(s, seq![c]);
            lemma_find_first(s, seq![c], 0);
            lemma_split_pieces_lack(s.skip(k + 1), c);
            let first = s.take(k);
            assert forall|j: int| 0 <= j < first.len() implies first[j] != c by {
                if first[j] == c {
                    assert(s.subrange(j, j + 1) =~= seq![c]);
                }
            }
            let r = split_on(s, c);
            assert forall|i: int| 0 <= i < r.len() implies lacks(#[trigger] r[i], c) by {
                if i > 0 {
                    assert(r[i] == split_on(s.skip(k + 1), c)[i - 1]);
                }
            }
        },
    }
}

/// Before the position `find_from` reports, `pat` does not occur.
pub proof fn lemma_find_first(s: Seq<char>, pat: Seq<char>, i: int)
    ensures
        find_from(s, pat, i) matches Some(k) ==> forall|j: int|
            i <= j < k ==> #[trigger] s.subrange(j, j + pat.len()) != pat,
    decreases s.len() - i,
{
    if !(i < 0 || i + pat.len() > s.len()) && s.subrange(i, i + pat.len()) != pat && i
        < s.len() {
        lemma_find_first(s, pat, i + 1);
    }
}

/// `str::trim` on a string.
pub fn trim_str(s: &str) -> (r: String)
    ensures
        r@ == trim(s@),
{
    let v = chars_of(s);
    let t = trim_chars(v.as_slice());
    string_of(t.as_slice())
}

/// A copy of `s[from..to]`.
pub fn slice_chars(s: &[char], from: usize, to: usize) -> (r: Vec<char>)
    requires
        from <= to <= s@.len(),
    ensures
        r@ == s@.subrange(from as int, to as int),
{
    let mut r: Vec<char> = Vec::new();
    let mut k = from;
    while k < to
        invariant
            from <= k <= to <= s@.len(),
            r@ == s@.subrange(from as int, k as int),
        decreases to - k,
    {
        r.push(s[k]);
        assert(s@.subrange(from as int, k as int).push(s@[k as int]) =~= s@.subrange(
            from as int,
            k + 1,
        ));
        k = k + 1;
    }
    r
}


// ------------------------------------------------------------
// Searching
// ------------------------------------------------------------

/// Whether `pat` occurs in `s` starting at position `i`.
pub open spec fn occurs_at(s: Seq<char>, pat: Seq<char>, i: int) -> bool {
    &&& 0 <= i
    &&& i + pat.len() <= s.len()
    &&& s.subrange(i, i + pat.len()) == pat
}

/// The first position at or after `i` where `pat` occurs in `s`, as `str::find` reports it
/// (counted here in characters).
pub open spec fn find_from(s: Seq<char>, pat: Seq<char>, i: int) -> Option<int>
    decreases s.len() - i,
{
    if i < 0 || i + pat.len() > s.len() {
        None
    } else if s.subrange(i, i + pat.len()) == pat {
        Some(i)
    } else if i >= s.len() {
        None
    } else {
        find_from(s, pat, i + 1)
    }
}

/// `str::find`: the first position where `pat` occurs in `s`.
pub open spec fn find(s: Seq<char>, pat: Seq<char>) -> Option<int> {
    find_from(s, pat, 0)
}

pub proof fn lemma_find_from_bounds(s: Seq<char>, pat: Seq<char>, i: int)
    ensures
        find_from(s, pat, i) matches Some(k) ==> i <= k && 0 <= k && k + pat.len() <= s.len()
            && s.subrange(k, k + pat.len()) == pat,
    decreases s.len() - i,
{
    if !(i < 0 || i + pat.len() > s.len()) && s.subrange(i, i + pat.len()) != pat && i
        < s.len() {
        lemma_find_from_bounds(s, pat, i + 1);
    }
}

pub proof fn lemma_find_bounds(s: Seq<char>, pat: Seq<char>)
    ensures
        find(s, pat) matches Some(k) ==> 0 <= k && k + pat.len() <= s.len() && s.subrange(
            k,
            k + pat.len(),
        ) == pat,
{
    lemma_find_from_bounds(s, pat, 0);
}

/// `str::contains`.
pub open spec fn contains(s: Seq<char>, pat: Seq<char>) -> bool {
    find(s, pat) is Some
}

/// `str::contains` on characters.
pub fn contains_chars(s: &[char], pat: &[char]) -> (b: bool)
    ensures
        b == contains(s@, pat@),
{
    find_chars(s, pat).is_some()
}

/// `str::starts_with`.
pub open spec fn starts_with(s: Seq<char>, pat: Seq<char>) -> bool {
    pat.len() <= s.len() && s.take(pat.len() as int) == pat
}

/// Whether `s[i..]` starts with `pat`.
pub fn matches_at(s: &[char], i: usize, pat: &[char]) -> (b: bool)
    requires
        i <= s@.len(),
    ensures
        b == (i + pat@.len() <= s@.len() && s@.subrange(i as int, i + pat@.len()) == pat@),
{
    if pat.len() > s.len() - i {
        return false;
    }
    let mut k: usize = 0;
    while k < pat.len()
        invariant
            k <= pat@.len(),
            i + pat.len() <= s.len(),
            forall|j: int| 0 <= j < k ==> s@[i + j] == pat@[j],
        decreases pat.len() - k,
    {
        if s[i + k] != pat[k] {
            assert(s@.subrange(i as int, i + pat@.len())[k as int] != pat@[k as int]);
            return false;
        }
        k = k + 1;
    }
    assert(s@.subrange(i as int, i + pat@.len()) =~= pat@);
    true
}

/// `str::starts_with` on characters.
pub fn starts_with_chars(s: &[char], pat: &[char]) -> (b: bool)
    ensures
        b == starts_with(s@, pat@),
{
    let b = matches_at(s, 0, pat);
    proof {
        if pat@.len() <= s@.len() {
            assert(s@.subrange(0, pat@.len() as int) =~= s@.take(pat@.len() as int));
        }
    }
    b
}

/// The first position at or after `from` where `pat` occurs in `s`.
pub fn find_chars_from(s: &[char], pat: &[char], from: usize) -> (r: Option<usize>)
    requires
        from <= s@.len(),
    ensures
        r matches Some(i) ==> find_from(s@, pat@, from as int) == Some(i as int),
        r is None ==> find_from(s@, pat@, from as int) is None,
{
    let mut i = from;
    while i < s.len()
        invariant
            from <= i <= s@.len(),
            find_from(s@, pat@, from as int) == find_from(s@, pat@, i as int),
        decreases s.len() - i,
    {
        if matches_at(s, i, pat) {
            return Some(i);
        }
        i = i + 1;
    }
    if matches_at(s, i, pat) {
        return Some(i);
    }
    proof {
        if pat@.len() == 0 {
            assert(s@.subrange(i as int, i as int) =~= pat@);
        }
    }
    None
}

/// `str::find` on characters.
pub fn find_chars(s: &[char], pat: &[char]) -> (r: Option<usize>)
    ensures
        r matches Some(i) ==> find(s@, pat@) == Some(i as int),
        r is None ==> find(s@, pat@) is None,
{
    find_chars_from(s, pat, 0)
}

// ------------------------------------------------------------
// Replacing
// ------------------------------------------------------------

/// `str::replace(s, from, to)`: every occurrence of `from`, scanning from the left and
/// without overlaps, is replaced by `to`.
pub open spec fn replace(s: Seq<char>, from: Seq<char>, to: Seq<char>) -> Seq<char>
    recommends
        from.len() > 0,
    decreases s.len(),
{
    if from.len() == 0 || s.len() < from.len() {
        s
    } else if s.take(from.len() as int) == from {
        to + replace(s.skip(from.len() as int), from, to)
    } else {
        seq![s[0]] + replace(s.drop_first(), from, to)
    }
}

/// `str::replace` on characters.
pub fn replace_chars(s: &[char], from: &[char], to: &[char]) -> (r: Vec<char>)
    requires
        from@.len() > 0,
    ensures
        r@ == replace(s@, from@, to@),
{
    let mut r: Vec<char> = Vec::new();
    let mut i: usize = 0;
    assert(s@.skip(0) =~= s@);
    while i < s.len()
        invariant
            i <= s@.len(),
            from@.len() > 0,
            replace(s@, from@, to@) == r@ + replace(s@.skip(i as int), from@, to@),
        decreases s.len() - i,
    {
        let ghost rest = s@.skip(i as int);
        let ghost r0 = r@;
        if matches_at(s, i, from) {
            assert(rest.take(from@.len() as int) =~= s@.subrange(i as int, i + from@.len()));
            assert(rest.skip(from@.len() as int) =~= s@.skip(i + from@.len()));
            append_chars(&mut r, to);
            assert(r0 + (to@ + replace(s@.skip(i + from@.len()), from@, to@)) =~= r@ + replace(
                s@.skip(i + from@.len()),
                from@,
                to@,
            ));
            i = i + from.len();
        } else {
            proof {
                assert(rest.drop_first() =~= s@.skip(i + 1));
                if rest.len() < from@.len() {
                    assert(replace(rest, from@, to@) == rest);
                    assert(replace(rest.drop_first(), from@, to@) == rest.drop_first());
                    assert(rest =~= seq![rest[0]] + rest.drop_first());
                } else {
                    assert(rest.take(from@.len() as int) != from@) by {
                        assert(rest.take(from@.len() as int) =~= s@.subrange(
                            i as int,
                            i + from@.len(),
                        ));
                    }
                }
            }
            r.push(s[i]);
            assert(r0 + (seq![s@[i as int]] + replace(s@.skip(i + 1), from@, to@)) =~= r@
                + replace(s@.skip(i + 1), from@, to@));
            i = i + 1;
        }
    }
    assert(s@.skip(i as int) =~= Seq::<char>::empty());
    assert(r@ + Seq::<char>::empty() =~= r@);
    r
}

/// `str::replace` on strings.
pub fn replace_str(s: &str, from: &str, to: &str) -> (r: String)
    requires
        from@.len() > 0,
    ensures
        r@ == replace(s@, from@, to@),
{
    let sv = chars_of(s);
    let fv = chars_of(from);
    let tv = chars_of(to);
    let rv = replace_chars(sv.as_slice(), fv.as_slice(), tv.as_slice());
    string_of(rv.as_slice())
}

proof fn lemma_find_from_reaches(s: Seq<char>, pat: Seq<char>, i: int, k: int)
    requires
        0 <= i <= k,
        occurs_at(s, pat, k),
    ensures
        find_from(s, pat, i) is Some,
    decreases k - i,
{
    if s.subrange(i, i + pat.len()) != pat {
        lemma_find_from_reaches(s, pat, i + 1, k);
    }
}

/// `str::find` finds `pat` wherever it occurs.
pub proof fn lemma_occurs_contains(s: Seq<char>, pat: Seq<char>, k: int)
    requires
        occurs_at(s, pat, k),
    ensures
        contains(s, pat),
{
    lemma_find_from_reaches(s, pat, 0, k);
}

/// Replacing what does not occur changes nothing.
pub proof fn law_replace_without_match(s: Seq<char>, from: Seq<char>, to: Seq<char>)
    requires
        from.len() > 0,
        !contains(s, from),
    ensures
        replace(s, from, to) == s,
    decreases s.len(),
{
    let n = from.len() as int;
    if s.len() >= n {
        if s.take(n) == from {
            assert(s.subrange(0, n) =~= s.take(n));
            lemma_occurs_contains(s, from, 0);
        } else {
            let t = s.drop_first();
            if contains(t, from) {
                lemma_find_bounds(t, from);
                let k = find(t, from).unwrap();
                assert(s.subrange(k + 1, k + 1 + n) =~= t.subrange(k, k + n));
                lemma_occurs_contains(s, from, k + 1);
            }
            law_replace_without_match(t, from, to);
            assert(seq![s[0]] + t =~= s);
        }
    }
}

/// A prefix of `replace(s, from, to)` made only of characters of `from` was copied from
/// `s` unchanged, when no character of `to` occurs in `from`.
proof fn lemma_replace_prefix(s: Seq<char>, from: Seq<char>, to: Seq<char>, m: int)
    requires
        from.len() > 0,
        to.len() > 0,
        forall|j: int| 0 <= j < to.len() ==> !from.contains(#[trigger] to[j]),
        0 <= m <= replace(s, from, to).len(),
        forall|j: int| 0 <= j < m ==> from.contains(#[trigger] replace(s, from, to)[j]),
    ensures
        m <= s.len(),
        replace(s, from, to).take(m) == s.take(m),
    decreases s.len(),
{
    let r = replace(s, from, to);
    if s.len() < from.len() {
    } else if s.take(from.len() as int) == from {
        if m > 0 {
            assert(r[0] == to[0]);
            assert(from.contains(r[0]));
        }
    } else if m > 0 {
        let t = s.drop_first();
        let rt = replace(t, from, to);
        assert(r == seq![s[0]] + rt);
        assert forall|j: int| 0 <= j < m - 1 implies from.contains(#[trigger] rt[j]) by {
            assert(rt[j] == r[j + 1]);
        }
        lemma_replace_prefix(t, from, to, m - 1);
        assert(r.take(m) =~= seq![s[0]] + rt.take(m - 1));
        assert(s.take(m) =~= seq![s[0]] + t.take(m - 1));
    }
}

/// Once `from` is replaced by a non-empty `to` that shares no character with it, `from`
/// occurs nowhere in the result.
pub proof fn law_replace_leaves_no_match(s: Seq<char>, from: Seq<char>, to: Seq<char>)
    requires
        from.len() > 0,
        to.len() > 0,
        forall|j: int| 0 <= j < to.len() ==> !from.contains(#[trigger] to[j]),
    ensures
        forall|i: int| !occurs_at(replace(s, from, to), from, i),
        !contains(replace(s, from, to), from),
    decreases s.len(),
{
    let r = replace(s, from, to);
    let n = from.len() as int;
    if s.len() < n {
    } else if s.take(n) == from {
        let t = s.skip(n);
        law_replace_leaves_no_match(t, from, to);
        let rt = replace(t, from, to);
        assert(r == to + rt);
        assert forall|i: int| !occurs_at(r, from, i) by {
            if occurs_at(r, from, i) {
                if i < to.len() {
                    assert(r[i] == to[i]);
                    assert(r.subrange(i, i + n)[0] == from[0]);
                    assert(from.contains(from[0]));
                } else {
                    assert(rt.subrange(i - to.len(), i - to.len() + n) =~= r.subrange(i, i + n));
                    assert(occurs_at(rt, from, i - to.len()));
                }
            }
        }
    } else {
        let t = s.drop_first();
        law_replace_leaves_no_match(t, from, to);
        let rt = replace(t, from, to);
        assert(r == seq![s[0]] + rt);
        assert forall|i: int| !occurs_at(r, from, i) by {
            if occurs_at(r, from, i) {
                if i == 0 {
                    assert forall|j: int| 0 <= j < n implies from.contains(#[trigger] r[j]) by {
                        assert(r[j] == r.subrange(0, n)[j]);
                        assert(from[j] == r[j]);
                    }
                    lemma_replace_prefix(s, from, to, n);
                    assert(r.take(n) =~= r.subrange(0, n));
                } else {
                    assert(rt.subrange(i - 1, i - 1 + n) =~= r.subrange(i, i + n));
                    assert(occurs_at(rt, from, i - 1));
                }
            }
        }
    }
    lemma_find_bounds(r, from);
    if contains(r, from) {
        let k = find(r, from).unwrap();
        assert(occurs_at(r, from, k));
    }
}


// ------------------------------------------------------------
// Decimal numbers
// ------------------------------------------------------------

/// The ASCII digit for `d` (`0 <= d < 10`).
pub open spec fn digit_char(d: nat) -> char {
    ((d + 48) as u32) as char
}

/// The value of an ASCII digit.
pub open spec fn digit_value(c: char) -> nat {
    ((c as u32) - 48) as nat
}

/// How `Display` writes a natural number: its decimal digits, without leading zeros.
pub open spec fn decimal(n: nat) -> Seq<char>
    decreases n,
{
    if n < 10 {
        seq![digit_char(n)]
    } else {
        decimal(n / 10).push(digit_char(n % 10))
    }
}

/// How `Display` writes a signed integer.
pub open spec fn signed_decimal(i: int) -> Seq<char> {
    if i < 0 {
        seq!['-'] + decimal((-i) as nat)
    } else {
        decimal(i as nat)
    }
}

fn digit_of(d: u64) -> (c: char)
    requires
        d < 10,
    ensures
        c == digit_char(d as nat),
{
    let b: u8 = (d as u8) + 48;
    let c = b as char;
    assert(c == digit_char(d as nat)) by {
        assert((b as u32) == d + 48);
    }
    c
}

/// Appends the decimal digits of `n`.
pub fn push_decimal(out: &mut Vec<char>, n: u64)
    ensures
        final(out)@ == old(out)@ + decimal(n as nat),
    decreases n,
{
    if n >= 10 {
        push_decimal(out, n / 10);
    }
    let c = digit_of(n % 10);
    let ghost before = out@;
    out.push(c);
    proof {
        if n >= 10 {
            assert(decimal(n as nat) == decimal((n / 10) as nat).push(c));
            assert(old(out)@ + decimal(n as nat) =~= before.push(c));
        } else {
            assert(decimal(n as nat) == seq![c]);
            assert(old(out)@ + decimal(n as nat) =~= old(out)@.push(c));
        }
    }
}

/// `n.to_string()` for an unsigned number.
pub fn u64_to_string(n: u64) -> (s: String)
    ensures
        s@ == decimal(n as nat),
{
    let mut v: Vec<char> = Vec::new();
    push_decimal(&mut v, n);
    assert(Seq::<char>::empty() + decimal(n as nat) =~= decimal(n as nat));
    string_of(v.as_slice())
}

/// Appends how `Display` writes the signed number `n`.
pub fn push_signed_decimal(out: &mut Vec<char>, n: i64)
    ensures
        final(out)@ == old(out)@ + signed_decimal(n as int),
{
    if n < 0 {
        out.push('-');
        let m: u64 = if n == i64::MIN {
            9223372036854775808u64
        } else {
            (-n) as u64
        };
        let ghost mid = out@;
        push_decimal(out, m);
        assert(old(out)@ + (seq!['-'] + decimal(m as nat)) =~= mid + decimal(m as nat));
    } else {
        push_decimal(out, n as u64);
    }
}

/// `n.to_string()` for an `i32`.
pub fn i32_to_string(n: i32) -> (s: String)
    ensures
        s@ == signed_decimal(n as int),
{
    let mut v: Vec<char> = Vec::new();
    push_signed_decimal(&mut v, n as i64);
    assert(Seq::<char>::empty() + signed_decimal(n as int) =~= signed_decimal(n as int));
    string_of(v.as_slice())
}

/// Whether every character of `d` is an ASCII digit.
pub open spec fn all_digits(d: Seq<char>) -> bool {
    forall|i: int| 0 <= i < d.len() ==> is_ascii_digit(#[trigger] d[i])
}

/// The value of a sequence of ASCII digits, read in base 10.
pub open spec fn digits_value(d: Seq<char>) -> nat
    decreases d.len(),
{
    if d.len() == 0 {
        0
    } else {
        digits_value(d.drop_last()) * 10 + digit_value(d.last())
    }
}

/// What `str::parse` gives for an unsigned type whose largest value is `max`: an
/// optional `+`, then at least one ASCII digit and nothing else, and a value that fits.
pub open spec fn parse_unsigned(s: Seq<char>, max: nat) -> Option<nat> {
    let d = if s.len() > 0 && s[0] == '+' {
        s.drop_first()
    } else {
        s
    };
    if d.len() > 0 && all_digits(d) && digits_value(d) <= max {
        Some(digits_value(d))
    } else {
        None
    }
}

/// What `str::parse::<i32>` gives: an optional sign, then at least one ASCII digit and
/// nothing else, and a value in range.
pub open spec fn parse_i32(s: Seq<char>) -> Option<int> {
    if s.len() > 1 && s[0] == '-' {
        let d = s.drop_first();
        if all_digits(d) && digits_value(d) <= 0x8000_0000 {
            Some(-(digits_value(d) as int))
        } else {
            None
        }
    } else {
        match parse_unsigned(s, 0x7fff_ffff) {
            Some(v) => Some(v as int),
            None => None,
        }
    }
}

proof fn lemma_digits_value_prefix(d: Seq<char>, k: int)
    requires
        0 <= k <= d.len(),
    ensures
        digits_value(d.take(k)) <= digits_value(d),
    decreases d.len(),
{
    if k < d.len() {
        assert(d.drop_last().take(k) =~= d.take(k));
        lemma_digits_value_prefix(d.drop_last(), k);
    } else {
        assert(d.take(k) =~= d);
    }
}

/// The value of the digits `s[from..]`, if they are all digits, their number is not
/// zero, and the value is at most `max`.
fn digits_up_to(s: &[char], from: usize, max: u64) -> (r: Option<u64>)
    requires
        from <= s@.len(),
    ensures
        ({
            let d = s@.skip(from as int);
            match r {
                Some(v) => d.len() > 0 && all_digits(d) && digits_value(d) <= max && v
                    == digits_value(d),
                None => !(d.len() > 0 && all_digits(d) && digits_value(d) <= max),
            }
        }),
{
    let ghost d = s@.skip(from as int);
    if from == s.len() {
        return None;
    }
    let mut k = from;
    while k < s.len()
        invariant
            from <= k <= s@.len(),
            d == s@.skip(from as int),
            forall|j: int| from <= j < k ==> is_ascii_digit(#[trigger] s@[j]),
        decreases s.len() - k,
    {
        if !('0' <= s[k] && s[k] <= '9') {
            assert(!is_ascii_digit(d[k - from]));
            return None;
        }
        k = k + 1;
    }
    assert(all_digits(d));
    let mut acc: u64 = 0;
    let mut k = from;
    assert(d.take(0) =~= Seq::<char>::empty());
    while k < s.len()
        invariant
            from <= k <= s@.len(),
            d == s@.skip(from as int),
            all_digits(d),
            acc as nat == digits_value(d.take(k - from)),
            acc <= max,
        decreases s.len() - k,
    {
        let c = s[k];
        proof {
            assert(d[k - from] == s@[k as int]);
            assert(is_ascii_digit(d[k - from]));
            assert(d.take(k - from + 1).drop_last() =~= d.take(k - from));
            assert(d.take(k - from + 1).last() == c);
        }
        let dv = (c as u32 - 48) as u64;
        if dv > max || acc > (max - dv) / 10 {
            proof {
                if dv <= max {
                    assert(acc * 10 + dv > max) by (nonlinear_arith)
                        requires
                            acc > (max - dv) / 10,
                            dv <= max,
                    ;
                }
                lemma_digits_value_prefix(d, k - from + 1);
            }
            return None;
        }
        proof {
            assert(acc * 10 + dv <= max) by (nonlinear_arith)
                requires
                    acc <= (max - dv) / 10,
                    dv <= max,
            ;
        }
        acc = acc * 10 + dv;
        k = k + 1;
    }
    assert(d.take(k - from) =~= d);
    Some(acc)
}

/// `str::parse` for an unsigned type whose largest value is `max`.
pub fn parse_unsigned_chars(s: &[char], max: u64) -> (r: Option<u64>)
    ensures
        match r {
            Some(v) => parse_unsigned(s@, max as nat) == Some(v as nat),
            None => parse_unsigned(s@, max as nat) is None,
        },
{
    let from: usize = if s.len() > 0 && s[0] == '+' {
        1
    } else {
        0
    };
    proof {
        if from == 1 {
            assert(s@.skip(1) =~= s@.drop_first());
        } else {
            assert(s@.skip(0) =~= s@);
        }
    }
    digits_up_to(s, from, max)
}

/// `str::parse::<u64>`.
pub fn parse_u64_chars(s: &[char]) -> (r: Option<u64>)
    ensures
        match r {
            Some(v) => parse_unsigned(s@, u64::MAX as nat) == Some(v as nat),
            None => parse_unsigned(s@, u64::MAX as nat) is None,
        },
{
    parse_unsigned_chars(s, u64::MAX)
}

/// `str::parse::<i32>`.
pub fn parse_i32_chars(s: &[char]) -> (r: Option<i32>)
    ensures
        match r {
            Some(v) => parse_i32(s@) == Some(v as int),
            None => parse_i32(s@) is None,
        },
{
    if s.len() > 1 && s[0] == '-' {
        assert(s@.skip(1) =~= s@.drop_first());
        match digits_up_to(s, 1, 0x8000_0000) {
            Some(v) => Some((-(v as i64)) as i32),
            None => None,
        }
    } else {
        match parse_unsigned_chars(s, 0x7fff_ffff) {
            Some(v) => Some(v as i32),
            None => None,
        }
    }
}


// ------------------------------------------------------------
// Case-insensitive comparison, splitting
// ------------------------------------------------------------

/// `str::eq_ignore_ascii_case`: equal once ASCII letters are folded to lower case.
/// (The std function compares bytes; since only ASCII bytes are folded, that is the
/// same as comparing characters this way.)
pub open spec fn eq_ignore_ascii_case(a: Seq<char>, b: Seq<char>) -> bool {
    a.len() == b.len() && forall|i: int| 0 <= i < a.len() ==> ascii_lower(a[i]) == ascii_lower(b[i])
}

pub fn eq_ignore_ascii_case_chars(a: &[char], b: &[char]) -> (r: bool)
    ensures
        r == eq_ignore_ascii_case(a@, b@),
{
    if a.len() != b.len() {
        return false;
    }
    let mut i: usize = 0;
    while i < a.len()
        invariant
            i <= a@.len(),
            a@.len() == b@.len(),
            forall|j: int| 0 <= j < i ==> ascii_lower(a@[j]) == ascii_lower(b@[j]),
        decreases a.len() - i,
    {
        if ascii_lower_char(a[i]) != ascii_lower_char(b[i]) {
            return false;
        }
        i = i + 1;
    }
    true
}

/// `str::split(sep)` for a character separator: the pieces between separators, empty
/// pieces included.
pub open spec fn split_on(s: Seq<char>, sep: char) -> Seq<Seq<char>>
    decreases s.len(),
{
    match find(s, seq![sep]) {
        None => seq![s],
        Some(k) => {
            proof {
                lemma_find_bounds(s, seq![sep]);
            }
            seq![s.take(k)] + split_on(s.skip(k + 1), sep)
        },
    }
}

/// The character sequences held by a vector of character vectors.
pub open spec fn views(r: Seq<Vec<char>>) -> Seq<Seq<char>> {
    r.map_values(|v: Vec<char>| v@)
}

/// `str::split(sep)` on characters.
pub fn split_on_chars(s: &[char], sep: char) -> (r: Vec<Vec<char>>)
    ensures
        views(r@) == split_on(s@, sep),
{
    let mut r: Vec<Vec<char>> = Vec::new();
    let mut rem: Vec<char> = slice_chars(s, 0, s.len());
    assert(rem@ =~= s@);
    let pat = vec![sep];
    assert(pat@ =~= seq![sep]);
    assert(views(r@) + split_on(rem@, sep) =~= split_on(s@, sep));
    loop
        invariant
            pat@ == seq![sep],
            views(r@) + split_on(rem@, sep) == split_on(s@, sep),
        decreases rem@.len(),
    {
        let ghost before = views(r@);
        match find_chars(rem.as_slice(), pat.as_slice()) {
            None => {
                r.push(rem);
                assert(views(r@) =~= before.push(rem@));
                assert(before + seq![rem@] =~= before.push(rem@));
                return r;
            },
            Some(k) => {
                proof {
                    lemma_find_bounds(rem@, seq![sep]);
                }
                let piece = slice_chars(rem.as_slice(), 0, k);
                assert(k + 1 <= rem.len());
                let next = slice_chars(rem.as_slice(), k + 1, rem.len());
                assert(piece@ =~= rem@.take(k as int));
                assert(next@ =~= rem@.skip(k + 1));
                r.push(piece);
                assert(views(r@) =~= before.push(piece@));
                assert(before + (seq![piece@] + split_on(next@, sep)) =~= views(r@)
                    + split_on(next@, sep));
                rem = next;
            },
        }
    }
}


// ------------------------------------------------------------
// Templates
// ------------------------------------------------------------

/// The text of a `format!` template: `pieces[0]`, then for each hole `k` the value
/// `values[slots[k]]` followed by `pieces[k + 1]`.
pub open spec fn fill(pieces: Seq<Seq<char>>, slots: Seq<int>, values: Seq<Seq<char>>) -> Seq<
    char,
>
    decreases slots.len(),
{
    if slots.len() == 0 {
        pieces[0]
    } else {
        fill(pieces.drop_last(), slots.drop_last(), values) + values[slots.last()] + pieces.last()
    }
}

/// The character sequences of a vector of string slices.
pub open spec fn str_views(v: Seq<&str>) -> Seq<Seq<char>> {
    v.map_values(|p: &str| p@)
}

/// The character sequences of a vector of strings.
pub open spec fn string_views(v: Seq<String>) -> Seq<Seq<char>> {
    v.map_values(|p: String| p@)
}

/// The slot numbers of a template, as integers.
pub open spec fn slot_ints(v: Seq<usize>) -> Seq<int> {
    v.map_values(|k: usize| k as int)
}

/// Fills a template: `pieces[0]`, then for each hole `k` the value `values[slots[k]]`
/// followed by `pieces[k + 1]`.
pub fn fill_template(pieces: &Vec<&str>, slots: &Vec<usize>, values: &Vec<String>) -> (r: String)
    requires
        pieces@.len() == slots@.len() + 1,
        forall|k: int| 0 <= k < slots@.len() ==> slots@[k] < values@.len(),
    ensures
        r@ == fill(str_views(pieces@), slot_ints(slots@), string_views(values@)),
{
    let ghost ps = str_views(pieces@);
    let ghost ss = slot_ints(slots@);
    let ghost vs = string_views(values@);
    let mut out: Vec<char> = chars_of(pieces[0]);
    assert(ps.take(1).drop_last() =~= Seq::<Seq<char>>::empty());
    assert(fill(ps.take(1), ss.take(0), vs) == ps.take(1)[0]);
    let mut k: usize = 0;
    while k < slots.len()
        invariant
            k <= slots@.len(),
            pieces@.len() == slots@.len() + 1,
            forall|j: int| 0 <= j < slots@.len() ==> slots@[j] < values@.len(),
            ps == str_views(pieces@),
            ss == slot_ints(slots@),
            vs == string_views(values@),
            out@ == fill(ps.take(k + 1), ss.take(k as int), vs),
        decreases slots.len() - k,
    {
        let value = chars_of(values[slots[k]].as_str());
        append_chars(&mut out, value.as_slice());
        let piece = chars_of(pieces[k + 1]);
        append_chars(&mut out, piece.as_slice());
        assert(ps.take(k + 2).drop_last() =~= ps.take(k + 1));
        assert(ss.take(k + 1).drop_last() =~= ss.take(k as int));
        assert(ss.take(k + 1).last() == slots@[k as int] as int);
        assert(ps.take(k + 2).last() == pieces@[k + 1]@);
        assert(vs[slots@[k as int] as int] == values@[slots@[k as int] as int]@);
        k = k + 1;
    }
    assert(ps.take(k + 1) =~= ps);
    assert(ss.take(k as int) =~= ss);
    string_of(out.as_slice())
}


// ------------------------------------------------------------
// Unicode lower case
// ------------------------------------------------------------

/// What `str::to_lowercase` returns for `s` (its Unicode lower case, some characters
/// such as a final `Σ` depending on their context).
pub uninterp spec fn lowercase_of(s: Seq<char>) -> Seq<char>;

/// `str::to_lowercase` from std. Its result depends on `s` alone; the library states
/// nothing else of it (the Unicode tables are not written out here).
#[verifier::external_body]
pub(crate) fn to_lowercase(s: &str) -> (r: String)
    ensures
        r@ == lowercase_of(s@),
{
    s.to_lowercase()
}


// ------------------------------------------------------------
// Lines and words
// ------------------------------------------------------------

/// A line without its carriage return, when it had one before the line feed.
pub open spec fn strip_cr(l: Seq<char>) -> Seq<char> {
    if l.len() > 0 && l.last() == '\r' {
        l.drop_last()
    } else {
        l
    }
}

/// `str::lines`: the text split at line feeds, a carriage return before a line feed
/// dropped; a final line feed does not start another line.
pub open spec fn lines(s: Seq<char>) -> Seq<Seq<char>>
    decreases s.len(),
{
    if s.len() == 0 {
        seq![]
    } else {
        match find(s, seq!['\n']) {
            None => seq![s],
            Some(k) => {
                proof {
                    lemma_find_bounds(s, seq!['\n']);
                }
                seq![strip_cr(s.take(k))] + lines(s.skip(k + 1))
            },
        }
    }
}

/// The length of the word at the start of `s`.
pub open spec fn word_len(s: Seq<char>) -> nat
    decreases s.len(),
{
    if s.len() > 0 && !is_space(s[0]) {
        1 + word_len(s.drop_first())
    } else {
        0
    }
}

pub proof fn lemma_word_len_bounds(s: Seq<char>)
    ensures
        word_len(s) <= s.len(),
        s.len() > 0 && !is_space(s[0]) ==> word_len(s) >= 1,
    decreases s.len(),
{
    if s.len() > 0 && !is_space(s[0]) {
        lemma_word_len_bounds(s.drop_first());
    }
}

/// `str::split_whitespace`: the maximal runs of characters that are not white space.
pub open spec fn words(s: Seq<char>) -> Seq<Seq<char>>
    decreases s.len(),
{
    if s.len() == 0 {
        seq![]
    } else if is_space(s[0]) {
        words(s.drop_first())
    } else {
        proof {
            lemma_word_len_bounds(s);
        }
        seq![s.take(word_len(s) as int)] + words(s.skip(word_len(s) as int))
    }
}

/// `str::strip_prefix`.
pub open spec fn strip_prefix(s: Seq<char>, p: Seq<char>) -> Option<Seq<char>> {
    if starts_with(s, p) {
        Some(s.skip(p.len() as int))
    } else {
        None
    }
}

/// `str::lines` on characters.
pub fn lines_of(s: &[char]) -> (r: Vec<Vec<char>>)
    ensures
        views(r@) == lines(s@),
{
    let mut r: Vec<Vec<char>> = Vec::new();
    let mut rem: Vec<char> = slice_chars(s, 0, s.len());
    assert(rem@ =~= s@);
    let pat = vec!['\n'];
    assert(pat@ =~= seq!['\n']);
    assert(views(r@) + lines(rem@) =~= lines(s@));
    loop
        invariant
            pat@ == seq!['\n'],
            views(r@) + lines(rem@) == lines(s@),
        decreases rem@.len(),
    {
        let ghost before = views(r@);
        if rem.len() == 0 {
            assert(before + lines(rem@) =~= before);
            return r;
        }
        match find_chars(rem.as_slice(), pat.as_slice()) {
            None => {
                r.push(rem);
                assert(views(r@) =~= before.push(rem@));
                assert(before + seq![rem@] =~= before.push(rem@));
                return r;
            },
            Some(k) => {
                proof {
                    lemma_find_bounds(rem@, seq!['\n']);
                }
                let end = if k > 0 && rem[k - 1] == '\r' {
                    k - 1
                } else {
                    k
                };
                let line = slice_chars(rem.as_slice(), 0, end);
                assert(line@ =~= strip_cr(rem@.take(k as int)));
                assert(k + 1 <= rem.len());
                let next = slice_chars(rem.as_slice(), k + 1, rem.len());
                assert(next@ =~= rem@.skip(k + 1));
                r.push(line);
                assert(views(r@) =~= before.push(line@));
                assert(before + (seq![line@] + lines(next@)) =~= views(r@) + lines(next@));
                rem = next;
            },
        }
    }
}

/// `str::split_whitespace` on characters.
pub fn words_of(s: &[char]) -> (r: Vec<Vec<char>>)
    ensures
        views(r@) == words(s@),
{
    let mut r: Vec<Vec<char>> = Vec::new();
    let mut i: usize = 0;
    assert(s@.skip(0) =~= s@);
    assert(views(r@) + words(s@) =~= words(s@));
    while i < s.len()
        invariant
            i <= s@.len(),
            views(r@) + words(s@.skip(i as int)) == words(s@),
        decreases s.len() - i,
    {
        let ghost rest = s@.skip(i as int);
        let ghost before = views(r@);
        if is_space_char(s[i]) {
            assert(rest.drop_first() =~= s@.skip(i + 1));
            i = i + 1;
        } else {
            let mut j = i;
            while j < s.len() && !is_space_char(s[j])
                invariant
                    i <= j <= s@.len(),
                    word_len(rest) == (j - i) + word_len(s@.skip(j as int)),
                decreases s.len() - j,
            {
                assert(s@.skip(j as int).drop_first() =~= s@.skip(j + 1));
                j = j + 1;
            }
            assert(word_len(rest) == j - i);
            let word = slice_chars(s, i, j);
            assert(word@ =~= rest.take(word_len(rest) as int));
            assert(rest.skip(word_len(rest) as int) =~= s@.skip(j as int));
            r.push(word);
            assert(views(r@) =~= before.push(word@));
            assert(before + (seq![word@] + words(s@.skip(j as int))) =~= views(r@) + words(
                s@.skip(j as int),
            ));
            i = j;
        }
    }
    assert(s@.skip(i as int) =~= Seq::<char>::empty());
    assert(views(r@) + Seq::<Seq<char>>::empty() =~= views(r@));
    r
}

} // verus!
