//! Verified text helpers: substring search, line splitting and trimming
//! over `&str` values viewed as sequences of characters.
use vstd::prelude::*;

verus! {

/// The characters of `needle` occur in `hay` starting at position `i`.
pub open spec fn matches_at(hay: Seq<char>, i: int, needle: Seq<char>) -> bool {
    &&& 0 <= i
    &&& i + needle.len() <= hay.len()
    &&& forall|k: int| 0 <= k < needle.len() ==> hay[i + k] == needle[k]
}

/// `needle` occurs somewhere in `hay`.
pub open spec fn contains_seq(hay: Seq<char>, needle: Seq<char>) -> bool {
    exists|i: int| matches_at(hay, i, needle)
}

pub open spec fn starts_with_seq(hay: Seq<char>, needle: Seq<char>) -> bool {
    matches_at(hay, 0, needle)
}

pub open spec fn ends_with_seq(hay: Seq<char>, needle: Seq<char>) -> bool {
    &&& needle.len() <= hay.len()
    &&& matches_at(hay, hay.len() - needle.len(), needle)
}

/// Whether the characters of `needle` stand at position `i` of `hay`.
pub fn match_at(hay: &str, i: usize, needle: &str) -> (r: bool)
    requires
        i + needle@.len() <= hay@.len(),
        hay@.len() <= usize::MAX,
    ensures
        r == matches_at(hay@, i as int, needle@),
{
    let n = needle.unicode_len();
    let mut k: usize = 0;
    while k < n
        invariant
            n == needle@.len(),
            i + n <= hay@.len(),
            hay@.len() <= usize::MAX,
            k <= n,
            forall|j: int| 0 <= j < k ==> hay@[i + j] == needle@[j],
        decreases n - k,
    {
        if hay.get_char(i + k) != needle.get_char(k) {
            assert(hay@[i + k as int] != needle@[k as int]);
            return false;
        }
        k += 1;
    }
    true
}

/// Whether `needle` occurs anywhere in `hay`.
pub fn contains_substr(hay: &str, needle: &str) -> (r: bool)
    ensures
        r == contains_seq(hay@, needle@),
{
    let h = hay.unicode_len();
    let n = needle.unicode_len();
    if n > h {
        assert(forall|i: int| !matches_at(hay@, i, needle@));
        return false;
    }
    let end = h - n;
    let mut i: usize = 0;
    while i <= end
        invariant
            h == hay@.len(),
            n == needle@.len(),
            n <= h,
            end == h - n,
            i <= end + 1,
            forall|j: int| 0 <= j < i ==> !matches_at(hay@, j, needle@),
        decreases end + 1 - i,
    {
        if match_at(hay, i, needle) {
            return true;
        }
        i += 1;
    }
    assert(forall|j: int| matches_at(hay@, j, needle@) ==> 0 <= j <= end);
    false
}

/// Whether `hay` starts with `needle`.
pub fn starts_with(hay: &str, needle: &str) -> (r: bool)
    ensures
        r == starts_with_seq(hay@, needle@),
{
    let h = hay.unicode_len();
    let n = needle.unicode_len();
    if n > h {
        return false;
    }
    match_at(hay, 0, needle)
}

/// Whether `hay` ends with `needle`.
pub fn ends_with(hay: &str, needle: &str) -> (r: bool)
    ensures
        r == ends_with_seq(hay@, needle@),
{
    let h = hay.unicode_len();
    let n = needle.unicode_len();
    if n > h {
        return false;
    }
    match_at(hay, h - n, needle)
}

/// The index of the first newline in `s`, or `s.len()` when there is none.
pub open spec fn first_nl(s: Seq<char>) -> int
    decreases s.len(),
{
    if s.len() == 0 {
        0
    } else if s[0] == '\n' {
        0
    } else {
        1 + first_nl(s.drop_first())
    }
}

/// A position before which no newline stands, and at which one stands (or
/// the text ends), is the first newline position.
pub proof fn lemma_first_nl_determined(s: Seq<char>, k: int)
    requires
        0 <= k <= s.len(),
        forall|j: int| 0 <= j < k ==> s[j] != '\n',
        k < s.len() ==> s[k] == '\n',
    ensures
        first_nl(s) == k,
    decreases s.len(),
{
    if s.len() == 0 {
    } else if s[0] == '\n' {
        assert(k == 0);
    } else {
        assert(k >= 1);
        assert forall|j: int| 0 <= j < k - 1 implies s.drop_first()[j] != '\n' by {
            assert(s.drop_first()[j] == s[j + 1]);
        }
        if k - 1 < s.drop_first().len() {
            assert(s.drop_first()[k - 1] == s[k]);
        }
        lemma_first_nl_determined(s.drop_first(), k - 1);
    }
}

/// A line with its trailing carriage return, if any, removed.
pub open spec fn strip_cr(line: Seq<char>) -> Seq<char> {
    if line.len() > 0 && line[line.len() - 1] == '\r' {
        line.drop_last()
    } else {
        line
    }
}

/// The lines of `s`: split at newlines, a carriage return before a newline
/// is dropped, and a final line without a newline terminator counts too.
pub open spec fn spec_lines(s: Seq<char>) -> Seq<Seq<char>>
    decreases s.len(),
{
    if s.len() == 0 {
        Seq::empty()
    } else {
        let i = first_nl(s);
        if i < 0 || i >= s.len() {
            seq![s]
        } else {
            seq![strip_cr(s.subrange(0, i))] + spec_lines(
                s.subrange(i + 1, s.len() as int),
            )
        }
    }
}

/// Splits text into its lines, as `spec_lines` describes.
pub fn split_lines(s: &str) -> (r: Vec<String>)
    ensures
        r@.map_values(|l: String| l@) == spec_lines(s@),
{
    let len = s.unicode_len();
    let mut r: Vec<String> = Vec::new();
    let mut p: usize = 0;
    proof {
        assert(s@.subrange(0, len as int) =~= s@);
        assert(r@.map_values(|l: String| l@) =~= Seq::<Seq<char>>::empty());
        assert(Seq::<Seq<char>>::empty() + spec_lines(s@) =~= spec_lines(s@));
    }
    while p < len
        invariant
            len == s@.len(),
            p <= len,
            spec_lines(s@) == r@.map_values(|l: String| l@) + spec_lines(
                s@.subrange(p as int, len as int),
            ),
        decreases len - p,
    {
        let ghost tail = s@.subrange(p as int, len as int);
        let mut i: usize = p;
        loop
            invariant
                p <= i <= len,
                len == s@.len(),
                forall|j: int| p <= j < i ==> s@[j] != '\n',
            ensures
                p <= i <= len,
                forall|j: int| p <= j < i ==> s@[j] != '\n',
                i < len ==> s@[i as int] == '\n',
            decreases len - i,
        {
            if i >= len {
                break ;
            }
            if s.get_char(i) == '\n' {
                break ;
            }
            i += 1;
        }
        proof {
            assert forall|j: int| 0 <= j < i - p implies tail[j] != '\n' by {
                assert(tail[j] == s@[p + j]);
            }
            if (i - p) < tail.len() {
                assert(tail[i - p] == s@[i as int]);
            }
            lemma_first_nl_determined(tail, i - p);
        }
        if i < len {
            let line = if i > p && s.get_char(i - 1) == '\r' {
                s.substring_char(p, i - 1)
            } else {
                s.substring_char(p, i)
            };
            let owned = line.to_owned();
            proof {
                assert(tail.subrange(0, i - p) =~= s@.subrange(p as int, i as int));
                if i > p && s@[i - 1] == '\r' {
                    assert(tail.subrange(0, i - p).drop_last() =~= s@.subrange(
                        p as int,
                        i - 1,
                    ));
                }
                assert(strip_cr(tail.subrange(0, i - p)) == owned@);
                assert(tail.subrange(i - p + 1, tail.len() as int) =~= s@.subrange(
                    i + 1,
                    len as int,
                ));
                assert(spec_lines(tail) == seq![owned@] + spec_lines(
                    s@.subrange(i + 1, len as int),
                ));
            }
            r.push(owned);
            proof {
                assert(r@.map_values(|l: String| l@) =~= r@.drop_last().map_values(
                    |l: String| l@,
                ).push(owned@));
                assert(r@.drop_last().map_values(|l: String| l@) + (seq![owned@]
                    + spec_lines(s@.subrange(i + 1, len as int))) =~= r@.map_values(
                    |l: String| l@,
                ) + spec_lines(s@.subrange(i + 1, len as int)));
            }
            p = i + 1;
        } else {
            let line = s.substring_char(p, len);
            let owned = line.to_owned();
            proof {
                assert(tail.len() > 0);
                assert(first_nl(tail) == tail.len());
                assert(spec_lines(tail) == seq![tail]);
                assert(owned@ == tail);
            }
            r.push(owned);
            proof {
                assert(r@.map_values(|l: String| l@) =~= r@.drop_last().map_values(
                    |l: String| l@,
                ).push(owned@));
                assert(s@.subrange(len as int, len as int) =~= Seq::<char>::empty());
                assert(r@.drop_last().map_values(|l: String| l@) + seq![tail]
                    =~= r@.map_values(|l: String| l@) + spec_lines(
                    s@.subrange(len as int, len as int),
                ));
            }
            p = len;
        }
    }
    proof {
        assert(s@.subrange(len as int, len as int) =~= Seq::<char>::empty());
        assert(r@.map_values(|l: String| l@) + Seq::<Seq<char>>::empty() =~= r@.map_values(
            |l: String| l@,
        ));
    }
    r
}

/// The whitespace characters, as the toolchain's own trimming knows them.
pub open spec fn is_ws(c: char) -> bool {
    ||| c == ' '
    ||| c == '\t'
    ||| c == '\n'
    ||| c == '\u{0b}'
    ||| c == '\u{0c}'
    ||| c == '\r'
    ||| c == '\u{85}'
    ||| c == '\u{a0}'
    ||| c == '\u{1680}'
    ||| c == '\u{2000}'
    ||| c == '\u{2001}'
    ||| c == '\u{2002}'
    ||| c == '\u{2003}'
    ||| c == '\u{2004}'
    ||| c == '\u{2005}'
    ||| c == '\u{2006}'
    ||| c == '\u{2007}'
    ||| c == '\u{2008}'
    ||| c == '\u{2009}'
    ||| c == '\u{200a}'
    ||| c == '\u{2028}'
    ||| c == '\u{2029}'
    ||| c == '\u{202f}'
    ||| c == '\u{205f}'
    ||| c == '\u{3000}'
}

/// Whether `c` is a whitespace character.
pub fn is_ws_char(c: char) -> (r: bool)
    ensures
        r == is_ws(c),
{
    c == ' ' || c == '\t' || c == '\n' || c == '\u{0b}' || c == '\u{0c}' || c == '\r'
        || c == '\u{85}' || c == '\u{a0}' || c == '\u{1680}' || c == '\u{2000}'
        || c == '\u{2001}' || c == '\u{2002}' || c == '\u{2003}' || c == '\u{2004}'
        || c == '\u{2005}' || c == '\u{2006}' || c == '\u{2007}' || c == '\u{2008}'
        || c == '\u{2009}' || c == '\u{200a}' || c == '\u{2028}' || c == '\u{2029}'
        || c == '\u{202f}' || c == '\u{205f}' || c == '\u{3000}'
}

pub open spec fn trim_front(s: Seq<char>) -> Seq<char>
    decreases s.len(),
{
    if s.len() > 0 && is_ws(s[0]) {
        trim_front(s.drop_first())
    } else {
        s
    }
}

pub open spec fn trim_back(s: Seq<char>) -> Seq<char>
    decreases s.len(),
{
    if s.len() > 0 && is_ws(s[s.len() - 1]) {
        trim_back(s.drop_last())
    } else {
        s
    }
}

/// `s` with leading and trailing whitespace removed.
pub open spec fn spec_trim(s: Seq<char>) -> Seq<char> {
    trim_back(trim_front(s))
}

pub proof fn lemma_trim_front_idx(s: Seq<char>, a: int)
    requires
        0 <= a <= s.len(),
        forall|j: int| 0 <= j < a ==> is_ws(s[j]),
        a < s.len() ==> !is_ws(s[a]),
    ensures
        trim_front(s) == s.subrange(a, s.len() as int),
    decreases s.len(),
{
    if a == 0 {
        if s.len() > 0 && is_ws(s[0]) {
            assert(false);
        }
        assert(s.subrange(0, s.len() as int) =~= s);
    } else {
        assert(is_ws(s[0]));
        assert forall|j: int| 0 <= j < a - 1 implies is_ws(s.drop_first()[j]) by {
            assert(s.drop_first()[j] == s[j + 1]);
        }
        if a - 1 < s.drop_first().len() {
            assert(s.drop_first()[a - 1] == s[a]);
        }
        lemma_trim_front_idx(s.drop_first(), a - 1);
        assert(s.drop_first().subrange(a - 1, s.drop_first().len() as int) =~= s.subrange(
            a,
            s.len() as int,
        ));
    }
}

pub proof fn lemma_trim_back_idx(s: Seq<char>, b: int)
    requires
        0 <= b <= s.len(),
        forall|j: int| b <= j < s.len() ==> is_ws(s[j]),
        b > 0 ==> !is_ws(s[b - 1]),
    ensures
        trim_back(s) == s.subrange(0, b),
    decreases s.len(),
{
    if b == s.len() {
        if s.len() > 0 && is_ws(s[s.len() - 1]) {
            assert(false);
        }
        assert(s.subrange(0, s.len() as int) =~= s);
    } else {
        assert(is_ws(s[s.len() - 1]));
        assert forall|j: int| b <= j < s.drop_last().len() implies is_ws(s.drop_last()[j]) by {
            assert(s.drop_last()[j] == s[j]);
        }
        if b > 0 {
            assert(s.drop_last()[b - 1] == s[b - 1]);
        }
        lemma_trim_back_idx(s.drop_last(), b);
        assert(s.drop_last().subrange(0, b) =~= s.subrange(0, b));
    }
}

/// Removes leading and trailing whitespace.
pub fn trim<'a>(s: &'a str) -> (r: &'a str)
    ensures
        r@ == spec_trim(s@),
{
    let len = s.unicode_len();
    let mut a: usize = 0;
    loop
        invariant
            len == s@.len(),
            a <= len,
            forall|j: int| 0 <= j < a ==> is_ws(s@[j]),
        ensures
            a <= len,
            forall|j: int| 0 <= j < a ==> is_ws(s@[j]),
            a < len ==> !is_ws(s@[a as int]),
        decreases len - a,
    {
        if a >= len {
            break ;
        }
        if !is_ws_char(s.get_char(a)) {
            break ;
        }
        a += 1;
    }
    proof {
        lemma_trim_front_idx(s@, a as int);
    }
    if a == len {
        let r = s.substring_char(len, len);
        proof {
            assert(trim_front(s@).len() == 0);
            assert(trim_back(trim_front(s@)) =~= trim_front(s@));
            assert(r@ =~= spec_trim(s@));
        }
        return r;
    }
    let mut b: usize = len;
    loop
        invariant
            len == s@.len(),
            a < len,
            !is_ws(s@[a as int]),
            a < b <= len,
            forall|j: int| b <= j < len ==> is_ws(s@[j]),
        ensures
            a < b <= len,
            forall|j: int| b <= j < len ==> is_ws(s@[j]),
            !is_ws(s@[b - 1]),
        decreases b,
    {
        if !is_ws_char(s.get_char(b - 1)) {
            break ;
        }
        if b - 1 == a {
            assert(false);
        }
        b -= 1;
    }
    let r = s.substring_char(a, b);
    proof {
        let t = trim_front(s@);
        assert(t == s@.subrange(a as int, len as int));
        assert forall|j: int| b - a <= j < t.len() implies is_ws(t[j]) by {
            assert(t[j] == s@[a + j]);
        }
        assert(t[b - a - 1] == s@[b - 1]);
        lemma_trim_back_idx(t, b - a);
        assert(t.subrange(0, b - a) =~= s@.subrange(a as int, b as int));
    }
    r
}

/// The sentinel separator embedded in the synthetic file-name template.
pub open spec fn sep_seq() -> Seq<char> {
    seq!['_', '_', '_']
}

/// The index of the first occurrence of `needle` in `hay` at or after `i`,
/// or a negative value when there is none.
pub open spec fn first_match_from(hay: Seq<char>, needle: Seq<char>, i: int) -> int
    decreases hay.len() - i,
{
    if i < 0 || i + needle.len() > hay.len() {
        -1
    } else if matches_at(hay, i, needle) {
        i
    } else {
        first_match_from(hay, needle, i + 1)
    }
}

pub proof fn lemma_first_match_from(hay: Seq<char>, needle: Seq<char>, i: int)
    requires
        0 <= i,
    ensures
        first_match_from(hay, needle, i) >= 0 ==> matches_at(
            hay,
            first_match_from(hay, needle, i),
            needle,
        ) && i <= first_match_from(hay, needle, i),
        first_match_from(hay, needle, i) < 0 ==> forall|j: int|
            i <= j ==> !matches_at(hay, j, needle),
    decreases hay.len() - i,
{
    if i + needle.len() > hay.len() {
        assert forall|j: int| i <= j implies !matches_at(hay, j, needle) by {
            assert(j + needle.len() > hay.len());
        }
    } else if matches_at(hay, i, needle) {
    } else {
        lemma_first_match_from(hay, needle, i + 1);
    }
}

/// A position with a match, before which no match stands, is the first
/// match position.
pub proof fn lemma_first_match_determined(hay: Seq<char>, needle: Seq<char>, k: int)
    requires
        0 <= k,
        matches_at(hay, k, needle),
        forall|j: int| 0 <= j < k ==> !matches_at(hay, j, needle),
    ensures
        first_match_from(hay, needle, 0) == k,
{
    lemma_first_match_determined_from(hay, needle, k, 0);
}

proof fn lemma_first_match_determined_from(hay: Seq<char>, needle: Seq<char>, k: int, i: int)
    requires
        0 <= i <= k,
        matches_at(hay, k, needle),
        forall|j: int| i <= j < k ==> !matches_at(hay, j, needle),
    ensures
        first_match_from(hay, needle, i) == k,
    decreases k - i,
{
    if i < k {
        lemma_first_match_determined_from(hay, needle, k, i + 1);
    }
}

/// The first occurrence of `needle` in `hay`, if there is one.
pub fn find_first(hay: &str, needle: &str) -> (r: Option<usize>)
    ensures
        match r {
            Some(i) => first_match_from(hay@, needle@, 0) == i,
            None => first_match_from(hay@, needle@, 0) < 0,
        },
{
    let h = hay.unicode_len();
    let n = needle.unicode_len();
    if n > h {
        return None;
    }
    let end = h - n;
    let mut i: usize = 0;
    while i <= end
        invariant
            h == hay@.len(),
            n == needle@.len(),
            n <= h,
            end == h - n,
            i <= end + 1,
            first_match_from(hay@, needle@, 0) == first_match_from(hay@, needle@, i as int),
        decreases end + 1 - i,
    {
        if match_at(hay, i, needle) {
            return Some(i);
        }
        i += 1;
    }
    None
}

/// The outcome of splitting a (trimmed) probe line on the sentinel
/// separator: the text before the first occurrence and the text between the
/// first and the second, or nothing when no separator stands in the line.
pub open spec fn split2(t: Seq<char>) -> Option<(Seq<char>, Seq<char>)> {
    let i = first_match_from(t, sep_seq(), 0);
    if i < 0 {
        None
    } else {
        let rest = t.subrange(i + 3, t.len() as int);
        let j = first_match_from(rest, sep_seq(), 0);
        let suffix = if j < 0 {
            rest
        } else {
            rest.subrange(0, j)
        };
        Some((t.subrange(0, i), suffix))
    }
}

/// Trims `line` and splits it on the sentinel separator into a prefix and a
/// suffix, as `split2` describes.
pub fn split_line(line: &str) -> (r: Option<(String, String)>)
    ensures
        match r {
            Some(p) => split2(spec_trim(line@)) == Some((p.0@, p.1@)),
            None => split2(spec_trim(line@)) is None,
        },
{
    let sep = "___";
    proof {
        reveal_strlit("___");
        assert(sep@ =~= sep_seq());
    }
    let t = trim(line);
    let tlen = t.unicode_len();
    match find_first(t, sep) {
        None => None,
        Some(i) => {
            proof {
                lemma_first_match_from(t@, sep_seq(), 0);
            }
            let prefix = t.substring_char(0, i);
            let rest = t.substring_char(i + 3, tlen);
            let suffix = match find_first(rest, sep) {
                None => rest.to_owned(),
                Some(j) => {
                    proof {
                        lemma_first_match_from(rest@, sep_seq(), 0);
                    }
                    rest.substring_char(0, j).to_owned()
                },
            };
            Some((prefix.to_owned(), suffix))
        },
    }
}

/// Whether the two strings hold the same characters.
pub fn str_eq(a: &str, b: &str) -> (r: bool)
    ensures
        r == (a@ == b@),
{
    let an = a.unicode_len();
    let bn = b.unicode_len();
    if an != bn {
        return false;
    }
    let mut i: usize = 0;
    while i < an
        invariant
            an == a@.len(),
            bn == b@.len(),
            an == bn,
            i <= an,
            forall|j: int| 0 <= j < i ==> a@[j] == b@[j],
        decreases an - i,
    {
        if a.get_char(i) != b.get_char(i) {
            assert(a@[i as int] != b@[i as int]);
            return false;
        }
        i += 1;
    }
    proof {
        assert(a@ =~= b@);
    }
    true
}

} // verus!
