//! Parsing of toolchain probe output: per-output-kind file-name lines from
//! stdout, unsupported-kind markers from stderr, and (for a combined
//! probe) the sysroot line and the configuration-flag lines.
use vstd::prelude::*;

use crate::cfg::Cfg;
use crate::text::{
    contains_seq, contains_substr, spec_lines, spec_trim, split2, split_line, split_lines,
};

verus! {

/// A fatal failure while reading probe output.
#[derive(Debug)]
pub enum ProbeError {
    /// A file-name line for this output kind was expected and none was
    /// present.
    MissingCrateTypeLine { crate_type: String },
    /// A file-name line lacked the sentinel separator.
    SeparatorMissing,
    /// The sysroot line of a combined probe was missing.
    MissingSysrootLine,
    /// A configuration-flag line could not be parsed.
    MalformedCfg { line: String },
}

/// The mathematical shape of a probe failure.
pub enum ProbeErrorV {
    MissingCrateTypeLine { crate_type: Seq<char> },
    SeparatorMissing,
    MissingSysrootLine,
    MalformedCfg { line: Seq<char> },
}

impl View for ProbeError {
    type V = ProbeErrorV;

    open spec fn view(&self) -> ProbeErrorV {
        match self {
            ProbeError::MissingCrateTypeLine { crate_type } => ProbeErrorV::MissingCrateTypeLine {
                crate_type: crate_type@,
            },
            ProbeError::SeparatorMissing => ProbeErrorV::SeparatorMissing,
            ProbeError::MissingSysrootLine => ProbeErrorV::MissingSysrootLine,
            ProbeError::MalformedCfg { line } => ProbeErrorV::MalformedCfg { line: line@ },
        }
    }
}

impl ProbeError {
    /// A human-readable description of the failure.
    pub fn message(&self) -> (r: String)
        ensures
            match self {
                ProbeError::MissingCrateTypeLine { crate_type } => r@
                    == "malformed output when learning about crate-type "@ + crate_type@
                    + " information"@,
                ProbeError::SeparatorMissing => r@
                    == "output of --print=file-names has changed in the compiler, cannot parse"@,
                ProbeError::MissingSysrootLine => r@
                    == "output of --print=sysroot missing when learning about target-specific information from rustc"@,
                ProbeError::MalformedCfg { line } => r@ == "failed to parse the cfg line `"@
                    + line@ + "`"@,
            },
    {
        match self {
            ProbeError::MissingCrateTypeLine { crate_type } => {
                let m = "malformed output when learning about crate-type ".to_owned();
                let m = m.concat(crate_type.as_str());
                m.concat(" information")
            },
            ProbeError::SeparatorMissing => {
                "output of --print=file-names has changed in the compiler, cannot parse".to_owned()
            },
            ProbeError::MissingSysrootLine => {
                "output of --print=sysroot missing when learning about target-specific information from rustc".to_owned()
            },
            ProbeError::MalformedCfg { line } => {
                let m = "failed to parse the cfg line `".to_owned();
                let m = m.concat(line.as_str());
                m.concat("`")
            },
        }
    }
}

/// The character sequences of a list of owned lines.
pub open spec fn views_of(v: Seq<String>) -> Seq<Seq<char>> {
    v.map_values(|s: String| s@)
}

/// The naming pair of an output kind as character sequences.
pub open spec fn naming_view(v: Option<(String, String)>) -> Option<(Seq<char>, Seq<char>)> {
    match v {
        None => None,
        Some(p) => Some((p.0@, p.1@)),
    }
}

/// Whether one stderr line reports `ct` as an unsupported output kind.
pub open spec fn marks_unsupported(line: Seq<char>, ct: Seq<char>) -> bool {
    &&& contains_seq(line, "unsupported crate type"@) || contains_seq(
        line,
        "unknown crate type"@,
    )
    &&& contains_seq(line, ct)
}

/// Whether any stderr line reports `ct` as an unsupported output kind.
pub open spec fn kind_unsupported(err_lines: Seq<Seq<char>>, ct: Seq<char>) -> bool {
    exists|i: int| 0 <= i < err_lines.len() && marks_unsupported(err_lines[i], ct)
}

/// The outcome of reading one output kind's result: an unsupported kind
/// consumes no stdout line and resolves to nothing; otherwise the next
/// stdout line is consumed and split on the sentinel separator.
pub open spec fn spec_parse_crate_type(
    ct: Seq<char>,
    err_lines: Seq<Seq<char>>,
    out_lines: Seq<Seq<char>>,
    pos: int,
) -> Result<(Option<(Seq<char>, Seq<char>)>, int), ProbeErrorV> {
    if kind_unsupported(err_lines, ct) {
        Ok((None, pos))
    } else if pos >= out_lines.len() {
        Err(ProbeErrorV::MissingCrateTypeLine { crate_type: ct })
    } else {
        match split2(spec_trim(out_lines[pos])) {
            None => Err(ProbeErrorV::SeparatorMissing),
            Some(p) => Ok((Some(p), pos + 1)),
        }
    }
}

/// Reads the result for one output kind from probe output, consuming the
/// stdout line at `*pos` exactly when the kind is not reported
/// unsupported, as `spec_parse_crate_type` describes.
pub fn parse_crate_type(
    crate_type: &str,
    err_lines: &Vec<String>,
    out_lines: &Vec<String>,
    pos: &mut usize,
) -> (r: Result<Option<(String, String)>, ProbeError>)
    ensures
        match r {
            Ok(v) => spec_parse_crate_type(
                crate_type@,
                views_of(err_lines@),
                views_of(out_lines@),
                *old(pos) as int,
            ) == Result::<(Option<(Seq<char>, Seq<char>)>, int), ProbeErrorV>::Ok(
                (naming_view(v), *final(pos) as int),
            ),
            Err(e) => {
                &&& spec_parse_crate_type(
                    crate_type@,
                    views_of(err_lines@),
                    views_of(out_lines@),
                    *old(pos) as int,
                ) == Result::<(Option<(Seq<char>, Seq<char>)>, int), ProbeErrorV>::Err(e@)
                &&& *final(pos) == *old(pos)
            },
        },
{
    let ghost errs = views_of(err_lines@);
    let n = err_lines.len();
    let mut i: usize = 0;
    while i < n
        invariant
            n == err_lines@.len(),
            errs == views_of(err_lines@),
            i <= n,
            forall|j: int| 0 <= j < i ==> !marks_unsupported(errs[j], crate_type@),
        decreases n - i,
    {
        let line = &err_lines[i];
        let unsupported = contains_substr(line.as_str(), "unsupported crate type")
            || contains_substr(line.as_str(), "unknown crate type");
        if unsupported && contains_substr(line.as_str(), crate_type) {
            proof {
                assert(errs[i as int] == line@);
                assert(marks_unsupported(errs[i as int], crate_type@));
            }
            return Ok(None);
        }
        proof {
            assert(errs[i as int] == line@);
        }
        i += 1;
    }
    proof {
        assert(!kind_unsupported(errs, crate_type@));
    }
    if *pos >= out_lines.len() {
        return Err(ProbeError::MissingCrateTypeLine { crate_type: crate_type.to_owned() });
    }
    let line = &out_lines[*pos];
    proof {
        assert(views_of(out_lines@)[*pos as int] == line@);
    }
    match split_line(line.as_str()) {
        None => Err(ProbeError::SeparatorMissing),
        Some(p) => {
            *pos += 1;
            Ok(Some(p))
        },
    }
}

/// Whether a probe asks about the build host or a cross-compilation
/// target.
#[derive(Copy, Clone, PartialEq, Eq, Debug, Structural)]
pub enum Kind {
    Host,
    Target,
}

/// The fixed vocabulary of output kinds probed at construction time, in
/// request order.
pub open spec fn known_crate_types() -> Seq<Seq<char>> {
    seq!["bin"@, "rlib"@, "dylib"@, "cdylib"@, "staticlib"@, "proc-macro"@]
}

/// The stdout line index at which the result of the `k`-th requested kind
/// stands: one line per earlier kind that was not reported unsupported.
pub open spec fn line_index_of(kinds: Seq<Seq<char>>, err_lines: Seq<Seq<char>>, k: int) -> int
    decreases k,
{
    if k <= 0 {
        0
    } else {
        line_index_of(kinds, err_lines, k - 1) + (if kind_unsupported(err_lines, kinds[k - 1]) {
            0int
        } else {
            1int
        })
    }
}

/// Whether the `k`-th requested kind parses without a fatal error.
pub open spec fn kind_ok(
    kinds: Seq<Seq<char>>,
    err_lines: Seq<Seq<char>>,
    out_lines: Seq<Seq<char>>,
    k: int,
) -> bool {
    ||| kind_unsupported(err_lines, kinds[k])
    ||| {
        &&& line_index_of(kinds, err_lines, k) < out_lines.len()
        &&& split2(spec_trim(out_lines[line_index_of(kinds, err_lines, k)])) is Some
    }
}

pub open spec fn all_kinds_ok(
    kinds: Seq<Seq<char>>,
    err_lines: Seq<Seq<char>>,
    out_lines: Seq<Seq<char>>,
) -> bool {
    forall|k: int| 0 <= k < kinds.len() ==> kind_ok(kinds, err_lines, out_lines, k)
}

/// The naming the `k`-th requested kind resolves to, when `kind_ok`.
pub open spec fn kind_naming(
    kinds: Seq<Seq<char>>,
    err_lines: Seq<Seq<char>>,
    out_lines: Seq<Seq<char>>,
    k: int,
) -> Option<(Seq<char>, Seq<char>)> {
    if kind_unsupported(err_lines, kinds[k]) {
        None
    } else {
        split2(spec_trim(out_lines[line_index_of(kinds, err_lines, k)]))
    }
}

/// The cache contents after a batch probe of `kinds`: one entry per
/// requested kind, in request order.
pub open spec fn namings_of(
    kinds: Seq<Seq<char>>,
    err_lines: Seq<Seq<char>>,
    out_lines: Seq<Seq<char>>,
) -> Seq<(Seq<char>, Option<(Seq<char>, Seq<char>)>)> {
    Seq::new(kinds.len(), |k: int| (kinds[k], kind_naming(kinds, err_lines, out_lines, k)))
}

/// The first requested kind whose parse fails, or `kinds.len()`.
pub open spec fn first_bad_kind_from(
    kinds: Seq<Seq<char>>,
    err_lines: Seq<Seq<char>>,
    out_lines: Seq<Seq<char>>,
    k: int,
) -> int
    decreases kinds.len() - k,
{
    if k < 0 || k >= kinds.len() {
        kinds.len() as int
    } else if !kind_ok(kinds, err_lines, out_lines, k) {
        k
    } else {
        first_bad_kind_from(kinds, err_lines, out_lines, k + 1)
    }
}

/// The components of the sysroot library directory, ready to be joined
/// into a path: for the host, the toolchain's own runtime/binary
/// directory; for a cross target, the per-target library directory nested
/// under the target triple.
pub open spec fn spec_sysroot_libdir(
    sysroot: Seq<char>,
    kind: Kind,
    triple: Seq<char>,
    host_is_windows: bool,
) -> Seq<Seq<char>> {
    if kind == Kind::Host {
        seq![sysroot, if host_is_windows { "bin"@ } else { "lib"@ }]
    } else {
        seq![sysroot, "lib"@, "rustlib"@, triple, "lib"@]
    }
}

/// A cache lookup in insertion order: the stored naming for `k`, or
/// nothing when `k` was never resolved.
pub open spec fn cache_find(
    entries: Seq<(Seq<char>, Option<(Seq<char>, Seq<char>)>)>,
    k: Seq<char>,
) -> Option<Option<(Seq<char>, Seq<char>)>>
    decreases entries.len(),
{
    if entries.len() == 0 {
        None
    } else if entries[0].0 == k {
        Some(entries[0].1)
    } else {
        cache_find(entries.drop_first(), k)
    }
}

/// What resolving kind `k` does to the cache: a cached kind returns its
/// stored value and leaves the cache unchanged, an uncached one stores and
/// returns whatever the focused probe produced.
pub open spec fn spec_resolve(
    entries: Seq<(Seq<char>, Option<(Seq<char>, Seq<char>)>)>,
    k: Seq<char>,
    probed: Option<(Seq<char>, Seq<char>)>,
) -> (Option<(Seq<char>, Seq<char>)>, Seq<(Seq<char>, Option<(Seq<char>, Seq<char>)>)>) {
    match cache_find(entries, k) {
        Some(v) => (v, entries),
        None => (probed, entries.push((k, probed))),
    }
}

pub open spec fn entry_view(e: (String, Option<(String, String)>)) -> (
    Seq<char>,
    Option<(Seq<char>, Seq<char>)>,
) {
    (e.0@, naming_view(e.1))
}

/// Target-specific information learned from the toolchain: per-output-kind
/// file naming, the active configuration flags, and the sysroot library
/// directory.
#[derive(Debug)]
pub struct TargetInfo {
    /// Resolved naming info per output kind, in resolution order.
    pub crate_types: Vec<(String, Option<(String, String)>)>,
    /// The configuration flags of the combined probe, absent when the
    /// probe fell back to file names only.
    pub cfg: Option<Vec<Cfg>>,
    /// The sysroot library directory as path components to be joined,
    /// absent when the probe fell back to file names only.
    pub sysroot_libdir: Option<Vec<String>>,
}

/// Whether every configuration-flag line from `start` on parses.
pub open spec fn cfg_lines_ok(out_lines: Seq<Seq<char>>, start: int) -> bool {
    forall|j: int|
        start <= j < out_lines.len() ==> crate::cfg::spec_parse_cfg(out_lines[j]) is Some
}

/// The first configuration-flag line from `start` on that does not parse,
/// or `out_lines.len()`.
pub open spec fn first_bad_cfg_from(out_lines: Seq<Seq<char>>, j: int) -> int
    decreases out_lines.len() - j,
{
    if j < 0 || j >= out_lines.len() {
        out_lines.len() as int
    } else if crate::cfg::spec_parse_cfg(out_lines[j]) is None {
        j
    } else {
        first_bad_cfg_from(out_lines, j + 1)
    }
}

proof fn lemma_first_bad_cfg_determined(out_lines: Seq<Seq<char>>, start: int, j: int)
    requires
        0 <= start <= j < out_lines.len(),
        forall|j2: int| start <= j2 < j ==> crate::cfg::spec_parse_cfg(out_lines[j2]) is Some,
        crate::cfg::spec_parse_cfg(out_lines[j]) is None,
    ensures
        first_bad_cfg_from(out_lines, start) == j,
    decreases j - start,
{
    if start < j {
        lemma_first_bad_cfg_determined(out_lines, start + 1, j);
    }
}

proof fn lemma_first_bad_kind_determined(
    kinds: Seq<Seq<char>>,
    err_lines: Seq<Seq<char>>,
    out_lines: Seq<Seq<char>>,
    start: int,
    k: int,
)
    requires
        0 <= start <= k < kinds.len(),
        forall|j: int| start <= j < k ==> kind_ok(kinds, err_lines, out_lines, j),
        !kind_ok(kinds, err_lines, out_lines, k),
    ensures
        first_bad_kind_from(kinds, err_lines, out_lines, start) == k,
    decreases k - start,
{
    if start < k {
        lemma_first_bad_kind_determined(kinds, err_lines, out_lines, start + 1, k);
    }
}

proof fn lemma_cache_find_step(
    entries: Seq<(Seq<char>, Option<(Seq<char>, Seq<char>)>)>,
    k: Seq<char>,
    i: int,
)
    requires
        0 <= i < entries.len(),
        entries[i].0 != k,
        cache_find(entries, k) == cache_find(entries.skip(i), k),
    ensures
        cache_find(entries, k) == cache_find(entries.skip(i + 1), k),
{
    assert(entries.skip(i).len() > 0);
    assert(entries.skip(i)[0] == entries[i]);
    assert(entries.skip(i).drop_first() =~= entries.skip(i + 1));
}

/// The fixed vocabulary of output kinds, as owned strings in request
/// order.
pub fn known_crate_types_list() -> (r: Vec<String>)
    ensures
        views_of(r@) == known_crate_types(),
{
    let mut r: Vec<String> = Vec::new();
    r.push("bin".to_owned());
    r.push("rlib".to_owned());
    r.push("dylib".to_owned());
    r.push("cdylib".to_owned());
    r.push("staticlib".to_owned());
    r.push("proc-macro".to_owned());
    proof {
        assert(views_of(r@) =~= known_crate_types());
    }
    r
}

fn clone_naming(v: &Option<(String, String)>) -> (r: Option<(String, String)>)
    ensures
        naming_view(r) == naming_view(*v),
{
    match v {
        None => None,
        Some(p) => Some((p.0.clone(), p.1.clone())),
    }
}

impl TargetInfo {
    /// The cache contents as character sequences.
    pub open spec fn cache(&self) -> Seq<(Seq<char>, Option<(Seq<char>, Seq<char>)>)> {
        self.crate_types@.map_values(|e: (String, Option<(String, String)>)| entry_view(e))
    }

    pub open spec fn cfg_view(&self) -> Option<Seq<crate::cfg::CfgV>> {
        match self.cfg {
            None => None,
            Some(v) => Some(v@.map_values(|c: Cfg| c@)),
        }
    }

    pub open spec fn sysroot_view(&self) -> Option<Seq<Seq<char>>> {
        match self.sysroot_libdir {
            None => None,
            Some(v) => Some(views_of(v@)),
        }
    }

    /// The cached naming info for `crate_type`, or nothing when that kind
    /// was not resolved yet and a focused probe is needed.
    pub fn try_get(&self, crate_type: &str) -> (r: Option<Option<(String, String)>>)
        ensures
            match r {
                Some(v) => cache_find(self.cache(), crate_type@) == Some(naming_view(v)),
                None => cache_find(self.cache(), crate_type@) is None,
            },
    {
        let n = self.crate_types.len();
        let mut i: usize = 0;
        proof {
            assert(self.cache().skip(0) =~= self.cache());
        }
        while i < n
            invariant
                n == self.crate_types@.len(),
                cache_find(self.cache(), crate_type@) == cache_find(
                    self.cache().skip(i as int),
                    crate_type@,
                ),
                i <= n,
            decreases n - i,
        {
            let e = &self.crate_types[i];
            proof {
                assert(self.cache()[i as int] == entry_view(self.crate_types@[i as int]));
                assert(self.cache().skip(i as int)[0] == self.cache()[i as int]);
            }
            if crate::text::str_eq(e.0.as_str(), crate_type) {
                return Some(clone_naming(&e.1));
            }
            proof {
                lemma_cache_find_step(self.cache(), crate_type@, i as int);
            }
            i += 1;
        }
        proof {
            assert(self.cache().skip(n as int)
                =~= Seq::<(Seq<char>, Option<(Seq<char>, Seq<char>)>)>::empty());
        }
        None
    }

    /// Resolves `crate_type`, handing in the captured output of a focused
    /// probe for it: a cached kind returns its stored value without
    /// reading the probe output, an uncached one parses the output and
    /// stores the result, as `spec_resolve` describes.
    pub fn resolve_probed(&mut self, crate_type: &str, stdout: &str, stderr: &str) -> (r: Result<
        Option<(String, String)>,
        ProbeError,
    >)
        ensures
            match cache_find(old(self).cache(), crate_type@) {
                Some(v0) => {
                    &&& *final(self) == *old(self)
                    &&& r matches Ok(v) && naming_view(v) == v0
                },
                None => match spec_parse_crate_type(
                    crate_type@,
                    spec_lines(stderr@),
                    spec_lines(stdout@),
                    0,
                ) {
                    Ok(pr) => {
                        &&& r matches Ok(v) && naming_view(v) == pr.0
                        &&& final(self).cache() == spec_resolve(
                            old(self).cache(),
                            crate_type@,
                            pr.0,
                        ).1
                        &&& final(self).cfg == old(self).cfg
                        &&& final(self).sysroot_libdir == old(self).sysroot_libdir
                    },
                    Err(e0) => {
                        &&& *final(self) == *old(self)
                        &&& r matches Err(e) && e@ == e0
                    },
                },
            },
    {
        match self.try_get(crate_type) {
            Some(v) => Ok(v),
            None => {
                let out_lines = split_lines(stdout);
                let err_lines = split_lines(stderr);
                proof {
                    assert(views_of(out_lines@) =~= spec_lines(stdout@));
                    assert(views_of(err_lines@) =~= spec_lines(stderr@));
                }
                let mut pos: usize = 0;
                match parse_crate_type(crate_type, &err_lines, &out_lines, &mut pos) {
                    Err(e) => Err(e),
                    Ok(v) => {
                        let stored = clone_naming(&v);
                        let ghost old_cache = self.cache();
                        self.crate_types.push((crate_type.to_owned(), stored));
                        proof {
                            assert(self.cache() =~= old_cache.push(
                                (crate_type@, naming_view(v)),
                            ));
                        }
                        Ok(v)
                    },
                }
            },
        }
    }

    /// Builds the resolver from the captured output of the
    /// construction-time batch probe over every known output kind.
    /// `has_cfg_and_sysroot` says whether the combined probe (with the
    /// extra sysroot and configuration prints) ran; when the probe fell
    /// back to file names only, configuration flags and sysroot stay
    /// permanently absent.  One stdout line is consumed per kind not
    /// reported unsupported on stderr, in request order; then, for a
    /// combined probe, the sysroot line and one configuration flag per
    /// remaining line.
    pub fn from_probe_output(
        stdout: &str,
        stderr: &str,
        has_cfg_and_sysroot: bool,
        kind: Kind,
        target_triple: &str,
        host_is_windows: bool,
    ) -> (r: Result<TargetInfo, ProbeError>)
        ensures
            ({
                let kinds = known_crate_types();
                let errs = spec_lines(stderr@);
                let outs = spec_lines(stdout@);
                let n = line_index_of(kinds, errs, kinds.len() as int);
                &&& (!all_kinds_ok(kinds, errs, outs) ==> {
                    let k = first_bad_kind_from(kinds, errs, outs, 0);
                    &&& r matches Err(e)
                    &&& (if line_index_of(kinds, errs, k) >= outs.len() {
                        e@ == (ProbeErrorV::MissingCrateTypeLine { crate_type: kinds[k] })
                    } else {
                        e@ == ProbeErrorV::SeparatorMissing
                    })
                })
                &&& (all_kinds_ok(kinds, errs, outs) && !has_cfg_and_sysroot ==> {
                    &&& r matches Ok(ti)
                    &&& ti.cache() == namings_of(kinds, errs, outs)
                    &&& ti.cfg_view() is None
                    &&& ti.sysroot_view() is None
                })
                &&& (all_kinds_ok(kinds, errs, outs) && has_cfg_and_sysroot && n >= outs.len()
                    ==> (r matches Err(e) && e@ == ProbeErrorV::MissingSysrootLine))
                &&& (all_kinds_ok(kinds, errs, outs) && has_cfg_and_sysroot && n < outs.len()
                    && !cfg_lines_ok(outs, n + 1) ==> {
                    let j = first_bad_cfg_from(outs, n + 1);
                    &&& r matches Err(e)
                    &&& e@ == (ProbeErrorV::MalformedCfg { line: outs[j] })
                })
                &&& (all_kinds_ok(kinds, errs, outs) && has_cfg_and_sysroot && n < outs.len()
                    && cfg_lines_ok(outs, n + 1) ==> {
                    &&& r matches Ok(ti)
                    &&& ti.cache() == namings_of(kinds, errs, outs)
                    &&& ti.sysroot_view() == Some(
                        spec_sysroot_libdir(outs[n], kind, target_triple@, host_is_windows),
                    )
                    &&& ti.cfg_view() == Some(
                        Seq::new(
                            (outs.len() - (n + 1)) as nat,
                            |j: int| crate::cfg::spec_parse_cfg(outs[n + 1 + j]).unwrap(),
                        ),
                    )
                })
            }),
    {
        let ghost kinds = known_crate_types();
        let ghost errs = spec_lines(stderr@);
        let ghost outs = spec_lines(stdout@);
        let out_lines = split_lines(stdout);
        let err_lines = split_lines(stderr);
        proof {
            assert(views_of(out_lines@) =~= outs);
            assert(views_of(err_lines@) =~= errs);
        }
        let kind_names = known_crate_types_list();
        let n_kinds = kind_names.len();
        let mut map: Vec<(String, Option<(String, String)>)> = Vec::new();
        let mut pos: usize = 0;
        let mut ki: usize = 0;
        while ki < n_kinds
            invariant
                n_kinds == kinds.len(),
                kinds == known_crate_types(),
                errs == spec_lines(stderr@),
                outs == spec_lines(stdout@),
                errs == views_of(err_lines@),
                outs == views_of(out_lines@),
                views_of(kind_names@) == kinds,
                ki <= n_kinds,
                pos <= out_lines@.len(),
                pos == line_index_of(kinds, errs, ki as int),
                forall|k: int| 0 <= k < ki ==> kind_ok(kinds, errs, outs, k),
                map@.map_values(|e: (String, Option<(String, String)>)| entry_view(e))
                    =~= Seq::new(
                    ki as nat,
                    |k: int| (kinds[k], kind_naming(kinds, errs, outs, k)),
                ),
            decreases n_kinds - ki,
        {
            let name = &kind_names[ki];
            proof {
                assert(views_of(kind_names@)[ki as int] == name@);
            }
            match parse_crate_type(name.as_str(), &err_lines, &out_lines, &mut pos) {
                Err(e) => {
                    proof {
                        assert(!kind_unsupported(errs, kinds[ki as int]));
                        assert(!kind_ok(kinds, errs, outs, ki as int));
                        assert(!all_kinds_ok(kinds, errs, outs));
                        lemma_first_bad_kind_determined(kinds, errs, outs, 0, ki as int);
                    }
                    return Err(e);
                },
                Ok(v) => {
                    let ghost old_map = map@;
                    map.push((name.clone(), clone_naming(&v)));
                    proof {
                        if kind_unsupported(errs, kinds[ki as int]) {
                            assert(kind_naming(kinds, errs, outs, ki as int) == naming_view(v));
                        } else {
                            assert(line_index_of(kinds, errs, ki as int) < outs.len());
                            assert(kind_naming(kinds, errs, outs, ki as int) == naming_view(v));
                        }
                        assert(map@.map_values(
                            |e: (String, Option<(String, String)>)| entry_view(e),
                        ) =~= old_map.map_values(
                            |e: (String, Option<(String, String)>)| entry_view(e),
                        ).push((kinds[ki as int], kind_naming(kinds, errs, outs, ki as int))));
                        assert(map@.map_values(
                            |e: (String, Option<(String, String)>)| entry_view(e),
                        ) =~= Seq::new(
                            (ki + 1) as nat,
                            |k: int| (kinds[k], kind_naming(kinds, errs, outs, k)),
                        ));
                    }
                    ki += 1;
                },
            }
        }
        proof {
            assert(map@.map_values(|e: (String, Option<(String, String)>)| entry_view(e))
                =~= namings_of(kinds, errs, outs));
        }
        if !has_cfg_and_sysroot {
            return Ok(TargetInfo { crate_types: map, cfg: None, sysroot_libdir: None });
        }
        if pos >= out_lines.len() {
            return Err(ProbeError::MissingSysrootLine);
        }
        let sysroot_line = &out_lines[pos];
        proof {
            assert(outs[pos as int] == sysroot_line@);
        }
        let mut comps: Vec<String> = Vec::new();
        comps.push(sysroot_line.clone());
        if kind == Kind::Host {
            if host_is_windows {
                comps.push("bin".to_owned());
            } else {
                comps.push("lib".to_owned());
            }
        } else {
            comps.push("lib".to_owned());
            comps.push("rustlib".to_owned());
            comps.push(target_triple.to_owned());
            comps.push("lib".to_owned());
        }
        proof {
            assert(views_of(comps@) =~= spec_sysroot_libdir(
                outs[pos as int],
                kind,
                target_triple@,
                host_is_windows,
            ));
        }
        let ghost n = pos as int;
        pos += 1;
        let mut cfgs: Vec<Cfg> = Vec::new();
        let out_len = out_lines.len();
        while pos < out_len
            invariant
                kinds == known_crate_types(),
                errs == spec_lines(stderr@),
                outs == spec_lines(stdout@),
                all_kinds_ok(kinds, errs, outs),
                has_cfg_and_sysroot,
                n == line_index_of(kinds, errs, kinds.len() as int),
                0 <= n < outs.len(),
                out_len == out_lines@.len(),
                outs == views_of(out_lines@),
                n + 1 <= pos <= out_len,
                forall|j: int|
                    n + 1 <= j < pos ==> crate::cfg::spec_parse_cfg(outs[j]) is Some,
                cfgs@.map_values(|c: Cfg| c@) =~= Seq::new(
                    (pos - (n + 1)) as nat,
                    |j: int| crate::cfg::spec_parse_cfg(outs[n + 1 + j]).unwrap(),
                ),
            decreases out_len - pos,
        {
            let line = &out_lines[pos];
            proof {
                assert(outs[pos as int] == line@);
            }
            match crate::cfg::parse_cfg(line.as_str()) {
                None => {
                    proof {
                        lemma_first_bad_cfg_determined(outs, n + 1, pos as int);
                    }
                    return Err(ProbeError::MalformedCfg { line: line.clone() });
                },
                Some(c) => {
                    let ghost old_cfgs = cfgs@;
                    cfgs.push(c);
                    proof {
                        assert(cfgs@.map_values(|c2: Cfg| c2@) =~= old_cfgs.map_values(
                            |c2: Cfg| c2@,
                        ).push(c@));
                        assert(cfgs@.map_values(|c2: Cfg| c2@) =~= Seq::new(
                            (pos + 1 - (n + 1)) as nat,
                            |j: int| crate::cfg::spec_parse_cfg(outs[n + 1 + j]).unwrap(),
                        ));
                    }
                    pos += 1;
                },
            }
        }
        Ok(TargetInfo { crate_types: map, cfg: Some(cfgs), sysroot_libdir: Some(comps) })
    }

    /// The configuration flags of the target, or nothing when the
    /// combined probe's extra prints were unsupported.
    pub fn cfg(&self) -> (r: Option<&[Cfg]>)
        ensures
            match self.cfg {
                Some(v) => r matches Some(s) && s@ == v@,
                None => r is None,
            },
    {
        match &self.cfg {
            Some(v) => Some(v.as_slice()),
            None => None,
        }
    }

    /// The ordered descriptor list for `crate_type`'s artifacts: nothing
    /// at all when the kind is not cached yet (a focused probe and
    /// `resolve_probed` must run first), an inner nothing when the
    /// toolchain does not support the kind, and otherwise the full list as
    /// `spec_plan` describes.
    pub fn file_types(
        &self,
        crate_type: &str,
        file_type: crate::files::TargetFileType,
        kind: &crate::files::TargetKind,
        target_triple: &str,
    ) -> (r: Option<Option<Vec<crate::files::FileType>>>)
        ensures
            match cache_find(self.cache(), crate_type@) {
                None => r is None,
                Some(None) => r matches Some(v) && v is None,
                Some(Some(ps)) => r matches Some(v) && v matches Some(list)
                    && list@.map_values(|f: crate::files::FileType| f@) == crate::files::spec_plan(
                    ps.0,
                    ps.1,
                    crate_type@,
                    file_type,
                    *kind,
                    target_triple@,
                ),
            },
    {
        match self.try_get(crate_type) {
            None => None,
            Some(None) => Some(None),
            Some(Some(p)) => Some(
                Some(
                    crate::files::plan_file_types(
                        p.0.as_str(),
                        p.1.as_str(),
                        crate_type,
                        file_type,
                        kind,
                        target_triple,
                    ),
                ),
            ),
        }
    }
}

} // verus!
