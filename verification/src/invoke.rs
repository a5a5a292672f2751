//! The exact argument lists for probing the toolchain: a shared base
//! prefix (synthetic unnamed input, sentinel crate name, file-names
//! print, the caller's extra flags, and the target triple for a cross
//! probe), extended per probe mode.  The caller only executes these
//! lists; their content is fixed here.
use vstd::prelude::*;

use crate::probe::{views_of, Kind};

verus! {

/// The argument prefix shared by every probe for one target.
pub open spec fn spec_base_args(
    rustflags: Seq<Seq<char>>,
    kind: Kind,
    triple: Seq<char>,
) -> Seq<Seq<char>> {
    let head = seq!["-"@, "--crate-name"@, "___"@, "--print=file-names"@];
    let tail = if kind == Kind::Target {
        seq!["--target"@, triple]
    } else {
        Seq::empty()
    };
    head + rustflags + tail
}

/// The base extended with one file-name request per known output kind, in
/// request order.
pub open spec fn spec_file_names_args(base: Seq<Seq<char>>) -> Seq<Seq<char>> {
    base + seq![
        "--crate-type"@,
        "bin"@,
        "--crate-type"@,
        "rlib"@,
        "--crate-type"@,
        "dylib"@,
        "--crate-type"@,
        "cdylib"@,
        "--crate-type"@,
        "staticlib"@,
        "--crate-type"@,
        "proc-macro"@,
    ]
}

/// The combined probe: the batched file-name requests plus the sysroot
/// and configuration prints.
pub open spec fn spec_combined_args(base: Seq<Seq<char>>) -> Seq<Seq<char>> {
    spec_file_names_args(base) + seq!["--print=sysroot"@, "--print=cfg"@]
}

/// A focused probe: the base plus a single kind's file-name request.
pub open spec fn spec_focused_args(base: Seq<Seq<char>>, crate_type: Seq<char>) -> Seq<
    Seq<char>,
> {
    base + seq!["--crate-type"@, crate_type]
}

fn clone_strings(v: &Vec<String>) -> (r: Vec<String>)
    ensures
        views_of(r@) == views_of(v@),
{
    let mut r: Vec<String> = Vec::new();
    let n = v.len();
    let mut i: usize = 0;
    while i < n
        invariant
            n == v@.len(),
            i <= n,
            views_of(r@) =~= views_of(v@).take(i as int),
        decreases n - i,
    {
        proof {
            assert(views_of(r@).len() == i as int);
            assert(r@.len() == i as int);
        }
        r.push(v[i].clone());
        proof {
            assert(r@[i as int] == v@[i as int]);
            assert(views_of(r@) =~= views_of(v@).take(i + 1));
        }
        i += 1;
    }
    proof {
        assert(views_of(v@).take(n as int) =~= views_of(v@));
    }
    r
}

/// Builds the shared argument prefix, as `spec_base_args` describes.
pub fn base_probe_args(rustflags: &Vec<String>, kind: Kind, target_triple: &str) -> (r: Vec<
    String,
>)
    ensures
        views_of(r@) == spec_base_args(views_of(rustflags@), kind, target_triple@),
{
    let mut r: Vec<String> = Vec::new();
    r.push("-".to_owned());
    r.push("--crate-name".to_owned());
    r.push("___".to_owned());
    r.push("--print=file-names".to_owned());
    let n = rustflags.len();
    let mut i: usize = 0;
    proof {
        assert(views_of(r@) =~= seq!["-"@, "--crate-name"@, "___"@, "--print=file-names"@]
            + views_of(rustflags@).take(0));
    }
    while i < n
        invariant
            n == rustflags@.len(),
            i <= n,
            views_of(r@) =~= seq!["-"@, "--crate-name"@, "___"@, "--print=file-names"@]
                + views_of(rustflags@).take(i as int),
        decreases n - i,
    {
        proof {
            assert(views_of(rustflags@).len() == rustflags@.len());
            assert(views_of(r@).len() == 4 + i);
            assert(r@.len() == 4 + i);
        }
        let ghost old_r = r@;
        r.push(rustflags[i].clone());
        proof {
            assert(r@ == old_r.push(rustflags@[i as int]));
            assert(views_of(r@) =~= views_of(old_r).push(rustflags@[i as int]@));
            assert(views_of(rustflags@).take(i + 1) =~= views_of(rustflags@).take(
                i as int,
            ).push(rustflags@[i as int]@));
            assert(views_of(r@) =~= seq!["-"@, "--crate-name"@, "___"@, "--print=file-names"@]
                + views_of(rustflags@).take(i + 1));
        }
        i += 1;
    }
    if kind == Kind::Target {
        r.push("--target".to_owned());
        r.push(target_triple.to_owned());
    }
    proof {
        assert(views_of(rustflags@).take(n as int) =~= views_of(rustflags@));
        assert(views_of(r@) =~= spec_base_args(views_of(rustflags@), kind, target_triple@));
    }
    r
}

/// Builds the fallback probe's arguments, as `spec_file_names_args`
/// describes.
pub fn file_names_probe_args(base: &Vec<String>) -> (r: Vec<String>)
    ensures
        views_of(r@) == spec_file_names_args(views_of(base@)),
{
    let mut r = clone_strings(base);
    r.push("--crate-type".to_owned());
    r.push("bin".to_owned());
    r.push("--crate-type".to_owned());
    r.push("rlib".to_owned());
    r.push("--crate-type".to_owned());
    r.push("dylib".to_owned());
    r.push("--crate-type".to_owned());
    r.push("cdylib".to_owned());
    r.push("--crate-type".to_owned());
    r.push("staticlib".to_owned());
    r.push("--crate-type".to_owned());
    r.push("proc-macro".to_owned());
    proof {
        assert(views_of(r@) =~= spec_file_names_args(views_of(base@)));
    }
    r
}

/// Builds the combined probe's arguments, as `spec_combined_args`
/// describes.
pub fn combined_probe_args(base: &Vec<String>) -> (r: Vec<String>)
    ensures
        views_of(r@) == spec_combined_args(views_of(base@)),
{
    let mut r = file_names_probe_args(base);
    r.push("--print=sysroot".to_owned());
    r.push("--print=cfg".to_owned());
    proof {
        assert(views_of(r@) =~= spec_combined_args(views_of(base@)));
    }
    r
}

/// Builds a focused probe's arguments, as `spec_focused_args` describes.
pub fn focused_probe_args(base: &Vec<String>, crate_type: &str) -> (r: Vec<String>)
    ensures
        views_of(r@) == spec_focused_args(views_of(base@), crate_type@),
{
    let mut r = clone_strings(base);
    r.push("--crate-type".to_owned());
    r.push(crate_type.to_owned());
    proof {
        assert(views_of(r@) =~= spec_focused_args(views_of(base@), crate_type@));
    }
    r
}

} // verus!
