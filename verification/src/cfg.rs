//! Configuration flags reported by the toolchain for a target: a bare name
//! (`unix`) or a name with a quoted value (`target_os="linux"`), one per
//! line of the toolchain's configuration listing.
use vstd::prelude::*;

verus! {

/// A toolchain-reported conditional-compilation predicate.
#[derive(Clone, Debug, PartialEq, Eq)]
pub enum Cfg {
    /// A bare predicate name.
    Name(String),
    /// A predicate name with a quoted value.
    KeyPair(String, String),
}

/// The mathematical shape of a configuration flag.
pub enum CfgV {
    Name(Seq<char>),
    KeyPair(Seq<char>, Seq<char>),
}

impl View for Cfg {
    type V = CfgV;

    open spec fn view(&self) -> CfgV {
        match self {
            Cfg::Name(n) => CfgV::Name(n@),
            Cfg::KeyPair(k, v) => CfgV::KeyPair(k@, v@),
        }
    }
}

pub open spec fn is_ident_start(c: char) -> bool {
    ||| c == '_'
    ||| 'a' <= c && c <= 'z'
    ||| 'A' <= c && c <= 'Z'
}

pub open spec fn is_ident_rest(c: char) -> bool {
    ||| is_ident_start(c)
    ||| '0' <= c && c <= '9'
}

/// The index of the first character of `s` that cannot stand in a
/// predicate name, or `s.len()` when every character can.
pub open spec fn ident_end(s: Seq<char>) -> int
    decreases s.len(),
{
    if s.len() == 0 {
        0
    } else if !is_ident_rest(s[0]) {
        0
    } else {
        1 + ident_end(s.drop_first())
    }
}

pub proof fn lemma_ident_end_determined(s: Seq<char>, k: int)
    requires
        0 <= k <= s.len(),
        forall|j: int| 0 <= j < k ==> is_ident_rest(s[j]),
        k < s.len() ==> !is_ident_rest(s[k]),
    ensures
        ident_end(s) == k,
    decreases s.len(),
{
    if s.len() == 0 {
    } else if !is_ident_rest(s[0]) {
        assert(k == 0);
    } else {
        assert(k >= 1);
        assert forall|j: int| 0 <= j < k - 1 implies is_ident_rest(s.drop_first()[j]) by {
            assert(s.drop_first()[j] == s[j + 1]);
        }
        if k - 1 < s.drop_first().len() {
            assert(s.drop_first()[k - 1] == s[k]);
        }
        lemma_ident_end_determined(s.drop_first(), k - 1);
    }
}

/// The configuration flag a line denotes: a bare well-formed name, or a
/// well-formed name followed by `=` and a double-quoted value holding no
/// quote itself.  Anything else is malformed.
pub open spec fn spec_parse_cfg(s: Seq<char>) -> Option<CfgV> {
    let i = ident_end(s);
    if i == 0 || !is_ident_start(s[0]) {
        None
    } else if i == s.len() {
        Some(CfgV::Name(s))
    } else if s[i] == '=' && i + 3 <= s.len() && s[i + 1] == '"' && s[s.len() - 1] == '"'
        && (forall|j: int| i + 2 <= j < s.len() - 1 ==> s[j] != '"') {
        Some(CfgV::KeyPair(s.subrange(0, i), s.subrange(i + 2, s.len() - 1)))
    } else {
        None
    }
}

/// Whether `c` can start a predicate name.
pub fn ident_start_char(c: char) -> (r: bool)
    ensures
        r == is_ident_start(c),
{
    c == '_' || ('a' <= c && c <= 'z') || ('A' <= c && c <= 'Z')
}

/// Whether `c` can stand inside a predicate name.
pub fn ident_rest_char(c: char) -> (r: bool)
    ensures
        r == is_ident_rest(c),
{
    ident_start_char(c) || ('0' <= c && c <= '9')
}

/// Parses one configuration-flag line, as `spec_parse_cfg` describes.
pub fn parse_cfg(line: &str) -> (r: Option<Cfg>)
    ensures
        match r {
            Some(c) => spec_parse_cfg(line@) == Some(c@),
            None => spec_parse_cfg(line@) is None,
        },
{
    let len = line.unicode_len();
    let mut i: usize = 0;
    loop
        invariant
            len == line@.len(),
            i <= len,
            forall|j: int| 0 <= j < i ==> is_ident_rest(line@[j]),
        ensures
            i <= len,
            forall|j: int| 0 <= j < i ==> is_ident_rest(line@[j]),
            i < len ==> !is_ident_rest(line@[i as int]),
        decreases len - i,
    {
        if i >= len {
            break ;
        }
        if !ident_rest_char(line.get_char(i)) {
            break ;
        }
        i += 1;
    }
    proof {
        lemma_ident_end_determined(line@, i as int);
    }
    if i == 0 {
        return None;
    }
    if !ident_start_char(line.get_char(0)) {
        return None;
    }
    if i == len {
        return Some(Cfg::Name(line.to_owned()));
    }
    if !(line.get_char(i) == '=' && len - i >= 3 && line.get_char(i + 1) == '"'
        && line.get_char(len - 1) == '"') {
        return None;
    }
    let mut j: usize = i + 2;
    while j < len - 1
        invariant
            len == line@.len(),
            ident_end(line@) == i as int,
            is_ident_start(line@[0]),
            0 < i < len,
            i + 3 <= len,
            i + 2 <= j <= len - 1,
            forall|k: int| i + 2 <= k < j ==> line@[k] != '"',
        decreases len - 1 - j,
    {
        if line.get_char(j) == '"' {
            assert(line@[j as int] == '"');
            return None;
        }
        j += 1;
    }
    let name = line.substring_char(0, i).to_owned();
    let value = line.substring_char(i + 2, len - 1).to_owned();
    Some(Cfg::KeyPair(name, value))
}

} // verus!
