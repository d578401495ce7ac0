//! Character-level views of strings and the small text operations the rest
//! of the library is specified with: searching for a separator, splitting
//! once, prefixes and suffixes, and ASCII case folding.
use vstd::prelude::*;

verus! {

// ---------------------------------------------------------------------------
// Specifications
// ---------------------------------------------------------------------------

/// `i` is the position of the first `c` in `s`.
pub open spec fn is_first(s: Seq<char>, c: char, i: int) -> bool {
    &&& 0 <= i < s.len()
    &&& s[i] == c
    &&& forall|j: int| 0 <= j < i ==> s[j] != c
}

/// `i` is the position of the last `c` in `s`.
pub open spec fn is_last(s: Seq<char>, c: char, i: int) -> bool {
    &&& 0 <= i < s.len()
    &&& s[i] == c
    &&& forall|j: int| i < j < s.len() ==> s[j] != c
}

/// `s` split around its first `c`, as `str::split_once` does.
pub open spec fn split_once(s: Seq<char>, c: char) -> Option<(Seq<char>, Seq<char>)> {
    if s.contains(c) {
        let i = choose|i: int| is_first(s, c, i);
        Some((s.take(i), s.skip(i + 1)))
    } else {
        None
    }
}

/// What precedes the first `c` in `s`, or all of `s` when it holds no `c`
/// (the first item of `str::split`).
pub open spec fn before_first(s: Seq<char>, c: char) -> Seq<char> {
    match split_once(s, c) {
        Some(parts) => parts.0,
        None => s,
    }
}

/// What follows the first `c` in `s`, or all of `s` when it holds no `c`.
pub open spec fn after_first(s: Seq<char>, c: char) -> Seq<char> {
    match split_once(s, c) {
        Some(parts) => parts.1,
        None => s,
    }
}

/// What follows the last `c` in `s`, or all of `s` when it holds no `c`
/// (the last item of `str::split`).
pub open spec fn after_last(s: Seq<char>, c: char) -> Seq<char> {
    if s.contains(c) {
        let i = choose|i: int| is_last(s, c, i);
        s.skip(i + 1)
    } else {
        s
    }
}

/// `s` ends with `t`.
pub open spec fn ends_with(s: Seq<char>, t: Seq<char>) -> bool {
    t.len() <= s.len() && s.skip(s.len() - t.len()) == t
}

/// `s` starts with `t`.
pub open spec fn starts_with(s: Seq<char>, t: Seq<char>) -> bool {
    t.len() <= s.len() && s.take(t.len() as int) == t
}

/// ASCII lower case of one character; every other character is kept.
pub open spec fn ascii_lower_char(c: char) -> char {
    if 'A' <= c <= 'Z' {
        ((c as u32) + 32) as char
    } else {
        c
    }
}

/// ASCII lower case of a string, as `str::to_ascii_lowercase` computes it.
pub open spec fn ascii_lower(s: Seq<char>) -> Seq<char> {
    s.map_values(|c: char| ascii_lower_char(c))
}

/// ASCII upper case of one character; every other character is kept.
pub open spec fn ascii_upper_char(c: char) -> char {
    if 'a' <= c <= 'z' {
        ((c as u32) - 32) as char
    } else {
        c
    }
}

/// ASCII upper case of a string, as `str::to_ascii_uppercase` computes it.
pub open spec fn ascii_upper(s: Seq<char>) -> Seq<char> {
    s.map_values(|c: char| ascii_upper_char(c))
}

/// What `str::to_lowercase` returns: the lower case of each character as
/// Unicode defines it.
pub uninterp spec fn unicode_lowercase(s: Seq<char>) -> Seq<char>;

/// Every character of `s` is ASCII.
pub open spec fn is_ascii_text(s: Seq<char>) -> bool {
    forall|i: int| 0 <= i < s.len() ==> (#[trigger] s[i] as u32) < 128
}

/// The lower case of `s`: on ASCII text the ASCII lower case, which is what
/// Unicode gives there, and the Unicode lower case otherwise.
pub open spec fn lowered(s: Seq<char>) -> Seq<char> {
    if is_ascii_text(s) {
        ascii_lower(s)
    } else {
        unicode_lowercase(s)
    }
}

// ---------------------------------------------------------------------------
// Lemmas
// ---------------------------------------------------------------------------

/// There is at most one first position of a character.
pub proof fn lemma_first_unique(s: Seq<char>, c: char, i: int, k: int)
    requires
        is_first(s, c, i),
        is_first(s, c, k),
    ensures
        i == k,
{
    if i < k {
        assert(s[i] != c);
    } else if k < i {
        assert(s[k] != c);
    }
}

/// There is at most one last position of a character.
pub proof fn lemma_last_unique(s: Seq<char>, c: char, i: int, k: int)
    requires
        is_last(s, c, i),
        is_last(s, c, k),
    ensures
        i == k,
{
    if i < k {
        assert(s[k] != c);
    } else if k < i {
        assert(s[i] != c);
    }
}

/// Once the first position of `c` is known, `split_once` is fixed by it.
pub proof fn lemma_split_once_at(s: Seq<char>, c: char, i: int)
    requires
        is_first(s, c, i),
    ensures
        s.contains(c),
        split_once(s, c) == Some((s.take(i), s.skip(i + 1))),
        before_first(s, c) == s.take(i),
        after_first(s, c) == s.skip(i + 1),
{
    assert(s[i] == c);
    let k = choose|k: int| is_first(s, c, k);
    lemma_first_unique(s, c, i, k);
}

/// A string without `c` is its own `before_first` and `after_first`.
pub proof fn lemma_split_once_none(s: Seq<char>, c: char)
    requires
        forall|j: int| 0 <= j < s.len() ==> s[j] != c,
    ensures
        !s.contains(c),
        split_once(s, c) is None,
        before_first(s, c) == s,
        after_first(s, c) == s,
        after_last(s, c) == s,
{
}

/// Once the last position of `c` is known, `after_last` is fixed by it.
pub proof fn lemma_after_last_at(s: Seq<char>, c: char, i: int)
    requires
        is_last(s, c, i),
    ensures
        s.contains(c),
        after_last(s, c) == s.skip(i + 1),
{
    assert(s[i] == c);
    let k = choose|k: int| is_last(s, c, k);
    lemma_last_unique(s, c, i, k);
}

// ---------------------------------------------------------------------------
// Standard library calls without a specification in vstd
// ---------------------------------------------------------------------------

/// `String::push`: appends one character at the end of the string.
#[verifier::external_body]
pub(crate) fn push_char(s: &mut String, c: char)
    ensures
        final(s)@ == old(s)@.push(c),
{
    s.push(c)
}

/// `str::to_lowercase`: the Unicode lower case of `s`. The contract names the
/// result, and states the one part of the Unicode mapping the callers rely
/// on: ASCII text is lowered as ASCII, `A`–`Z` to `a`–`z` and every other
/// character kept.
#[verifier::external_body]
pub(crate) fn to_lowercase(s: &str) -> (res: String)
    ensures
        res@ == unicode_lowercase(s@),
        is_ascii_text(s@) ==> res@ == ascii_lower(s@),
{
    s.to_lowercase()
}

// ---------------------------------------------------------------------------
// Executable helpers
// ---------------------------------------------------------------------------

/// The characters of `s`, in order.
pub fn chars_of(s: &str) -> (res: Vec<char>)
    ensures
        res@ == s@,
{
    broadcast use vstd::string::group_string_axioms;

    let mut res: Vec<char> = Vec::new();
    for c in it: s.chars()
        invariant
            it.seq() == s@,
            res@ == it.seq().take(it.index() as int),
    {
        res.push(c);
    }
    res
}

/// The string made of `v[from..to]`.
pub fn string_of(v: &Vec<char>, from: usize, to: usize) -> (res: String)
    requires
        from <= to <= v.len(),
    ensures
        res@ == v@.subrange(from as int, to as int),
{
    let mut res = String::new();
    let mut i = from;
    while i < to
        invariant
            from <= i <= to <= v.len(),
            res@ == v@.subrange(from as int, i as int),
        decreases to - i,
    {
        push_char(&mut res, v[i]);
        assert(v@.subrange(from as int, i + 1) == v@.subrange(from as int, i as int).push(v@[i as int]));
        i += 1;
    }
    res
}

/// A copy of `s` as an owned string.
pub fn owned(s: &str) -> (res: String)
    ensures
        res@ == s@,
{
    s.to_owned()
}

/// Whether two strings hold the same characters.
pub fn str_eq(a: &str, b: &str) -> (res: bool)
    ensures
        res == (a@ == b@),
{
    let x = a.to_owned();
    let y = b.to_owned();
    x == y
}

/// Position of the first `c` in `v`.
pub fn find_first(v: &Vec<char>, c: char) -> (res: Option<usize>)
    ensures
        match res {
            Some(i) => is_first(v@, c, i as int),
            None => !v@.contains(c),
        },
{
    let mut i: usize = 0;
    while i < v.len()
        invariant
            i <= v.len(),
            forall|j: int| 0 <= j < i ==> v@[j] != c,
        decreases v.len() - i,
    {
        if v[i] == c {
            return Some(i);
        }
        i += 1;
    }
    None
}

/// Position of the last `c` in `v`.
pub fn find_last(v: &Vec<char>, c: char) -> (res: Option<usize>)
    ensures
        match res {
            Some(i) => is_last(v@, c, i as int),
            None => !v@.contains(c),
        },
{
    let mut i: usize = v.len();
    while i > 0
        invariant
            i <= v.len(),
            forall|j: int| i <= j < v.len() ==> v@[j] != c,
        decreases i,
    {
        if v[i - 1] == c {
            return Some(i - 1);
        }
        i -= 1;
    }
    None
}

/// Whether `v` ends with `t`.
pub fn vec_ends_with(v: &Vec<char>, t: &Vec<char>) -> (res: bool)
    ensures
        res == ends_with(v@, t@),
{
    if t.len() > v.len() {
        return false;
    }
    let off = v.len() - t.len();
    let mut i: usize = 0;
    while i < t.len()
        invariant
            off == v.len() - t.len(),
            i <= t.len(),
            forall|j: int| 0 <= j < i ==> v@[off + j] == t@[j],
        decreases t.len() - i,
    {
        if v[off + i] != t[i] {
            assert(v@.skip(off as int)[i as int] != t@[i as int]);
            return false;
        }
        i += 1;
    }
    assert(v@.skip(off as int) =~= t@);
    true
}

/// Whether `v` starts with `t`.
pub fn vec_starts_with(v: &Vec<char>, t: &Vec<char>) -> (res: bool)
    ensures
        res == starts_with(v@, t@),
{
    if t.len() > v.len() {
        return false;
    }
    let mut i: usize = 0;
    while i < t.len()
        invariant
            t.len() <= v.len(),
            i <= t.len(),
            forall|j: int| 0 <= j < i ==> v@[j] == t@[j],
        decreases t.len() - i,
    {
        if v[i] != t[i] {
            assert(v@.take(t.len() as int)[i as int] != t@[i as int]);
            return false;
        }
        i += 1;
    }
    assert(v@.take(t.len() as int) =~= t@);
    true
}

/// Whether `s` ends with `t`.
pub fn str_ends_with(s: &str, t: &str) -> (res: bool)
    ensures
        res == ends_with(s@, t@),
{
    vec_ends_with(&chars_of(s), &chars_of(t))
}

/// Whether `s` starts with `t`.
pub fn str_starts_with(s: &str, t: &str) -> (res: bool)
    ensures
        res == starts_with(s@, t@),
{
    vec_starts_with(&chars_of(s), &chars_of(t))
}

/// ASCII lower case of one character.
pub fn lower_char(c: char) -> (res: char)
    ensures
        res == ascii_lower_char(c),
{
    if 'A' <= c && c <= 'Z' {
        let b: u8 = c as u8;
        ((b + 32) as char)
    } else {
        c
    }
}

/// ASCII lower case of `v[from..]`, as an owned string.
pub fn ascii_lower_from(v: &Vec<char>, from: usize) -> (res: String)
    requires
        from <= v.len(),
    ensures
        res@ == ascii_lower(v@.skip(from as int)),
{
    let mut res = String::new();
    let mut i = from;
    while i < v.len()
        invariant
            from <= i <= v.len(),
            res@ == ascii_lower(v@.subrange(from as int, i as int)),
        decreases v.len() - i,
    {
        let c = lower_char(v[i]);
        push_char(&mut res, c);
        assert(v@.subrange(from as int, i + 1) == v@.subrange(from as int, i as int).push(v@[i as int]));
        assert(ascii_lower(v@.subrange(from as int, i + 1)) =~= ascii_lower(v@.subrange(from as int, i as int)).push(c));
        i += 1;
    }
    assert(v@.subrange(from as int, v.len() as int) == v@.skip(from as int));
    res
}

/// ASCII lower case of `s` (`str::to_ascii_lowercase`).
pub fn to_ascii_lowercase(s: &str) -> (res: String)
    ensures
        res@ == ascii_lower(s@),
{
    let v = chars_of(s);
    let r = ascii_lower_from(&v, 0);
    assert(v@.skip(0) == v@);
    r
}

/// What precedes the first `c` in `s`, or all of `s` (`s.split(c).next()`).
pub fn prefix_before(s: &str, c: char) -> (res: String)
    ensures
        res@ == before_first(s@, c),
{
    let v = chars_of(s);
    match find_first(&v, c) {
        Some(i) => {
            proof { lemma_split_once_at(v@, c, i as int); }
            string_of(&v, 0, i)
        },
        None => {
            proof { lemma_split_once_none(v@, c); }
            string_of(&v, 0, v.len())
        },
    }
}

/// What follows the last `c` in `s`, or all of `s` (`s.split(c).next_back()`).
pub fn suffix_after_last(s: &str, c: char) -> (res: String)
    ensures
        res@ == after_last(s@, c),
{
    let v = chars_of(s);
    match find_last(&v, c) {
        Some(i) => {
            proof { lemma_after_last_at(v@, c, i as int); }
            assert(i < v.len());
            string_of(&v, i + 1, v.len())
        },
        None => {
            proof { lemma_split_once_none(v@, c); }
            string_of(&v, 0, v.len())
        },
    }
}

/// `s` split around its first `c` (`str::split_once`).
pub fn split_once_at(s: &str, c: char) -> (res: Option<(String, String)>)
    ensures
        match res {
            Some(parts) => split_once(s@, c) == Some((parts.0@, parts.1@)),
            None => split_once(s@, c) is None,
        },
{
    let v = chars_of(s);
    match find_first(&v, c) {
        Some(i) => {
            proof { lemma_split_once_at(v@, c, i as int); }
            Some((string_of(&v, 0, i), string_of(&v, i + 1, v.len())))
        },
        None => None,
    }
}

/// The strings of `parts` joined with `sep` between each two of them.
pub open spec fn join(parts: Seq<Seq<char>>, sep: Seq<char>) -> Seq<char>
    decreases parts.len(),
{
    if parts.len() == 0 {
        Seq::empty()
    } else if parts.len() == 1 {
        parts[0]
    } else {
        join(parts.drop_last(), sep) + sep + parts.last()
    }
}

/// The views of a sequence of strings.
pub open spec fn views(v: Seq<String>) -> Seq<Seq<char>> {
    v.map_values(|x: String| x@)
}

/// Joins `parts` with `sep` between each two of them (`[String]::join`).
pub fn join_strings(parts: &Vec<String>, sep: &str) -> (res: String)
    ensures
        res@ == join(views(parts@), sep@),
{
    let mut res = String::new();
    let ghost vs = views(parts@);
    let mut i: usize = 0;
    while i < parts.len()
        invariant
            i <= parts@.len(),
            vs == views(parts@),
            res@ == join(vs.take(i as int), sep@),
        decreases parts@.len() - i,
    {
        assert(vs.take(i + 1).drop_last() =~= vs.take(i as int));
        if i > 0 {
            res.append(sep);
        } else {
            assert(vs.take(1) =~= seq![vs[0]]);
        }
        res.append(parts[i].as_str());
        i += 1;
    }
    assert(vs.take(parts@.len() as int) =~= vs);
    res
}

/// What follows the first `c` in `s`, or all of `s`.
pub fn suffix_after_first(s: &str, c: char) -> (res: String)
    ensures
        res@ == after_first(s@, c),
{
    let v = chars_of(s);
    match find_first(&v, c) {
        Some(i) => {
            proof { lemma_split_once_at(v@, c, i as int); }
            assert(i < v.len());
            string_of(&v, i + 1, v.len())
        },
        None => {
            proof { lemma_split_once_none(v@, c); }
            string_of(&v, 0, v.len())
        },
    }
}

} // verus!
