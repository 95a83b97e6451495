//! The path of one file relative to a folder.
use vstd::prelude::*;
use crate::text::{chars_of, same};

verus! {

/// Relies on `Path::components`: the components of `s`, each through `as_os_str`.
/// How a path splits depends on the platform, so nothing is stated of the result.
#[verifier::external_body]
fn components_of(s: &str) -> (r: Vec<String>) {
    std::path::Path::new(s).components().map(|c| c.as_os_str().to_string_lossy().into_owned()).collect()
}

/// Relies on `PathBuf`'s `FromIterator` and `Path::to_str`: the components pushed in
/// order. How they join depends on the platform, so nothing is stated of the result.
#[verifier::external_body]
fn join_components(parts: &Vec<String>) -> (r: Option<String>) {
    parts.iter().collect::<std::path::PathBuf>().to_str().map(String::from)
}

/// The number of leading components, from the `k`-th on, that `a` and `b` share.
pub open spec fn common_len(a: Seq<Seq<char>>, b: Seq<Seq<char>>, k: int) -> int
    decreases a.len() - k,
{
    if 0 <= k < a.len() && k < b.len() && a[k] == b[k] {
        common_len(a, b, k + 1)
    } else {
        k
    }
}

/// One `..` for each component of `from` past the shared ones, then the components of
/// `to` past the shared ones.
pub open spec fn relative_parts(from: Seq<Seq<char>>, to: Seq<Seq<char>>) -> Seq<Seq<char>> {
    let c = common_len(from, to, 0);
    Seq::new((from.len() - c) as nat, |i: int| ".."@) + to.subrange(c, to.len() as int)
}

pub open spec fn texts(v: Seq<String>) -> Seq<Seq<char>> {
    v.map_values(|x: String| x@)
}

/// The components that lead from the folder whose components are `from` to the path
/// whose components are `to`.
pub fn relative_components(from: &Vec<String>, to: &Vec<String>) -> (r: Vec<String>)
    ensures
        texts(r@) == relative_parts(texts(from@), texts(to@)),
{
    let ghost fv = texts(from@);
    let ghost tv = texts(to@);
    let mut c: usize = 0;
    while c < from.len() && c < to.len() && same(&chars_of(from[c].as_str()), &chars_of(to[c].as_str()))
        invariant
            c <= from.len(),
            c <= to.len(),
            fv == texts(from@),
            tv == texts(to@),
            common_len(fv, tv, 0) == common_len(fv, tv, c as int),
        decreases from.len() - c,
    {
        assert(fv[c as int] == from@[c as int]@ && tv[c as int] == to@[c as int]@);
        c = c + 1;
    }
    proof {
        if c < from.len() && c < to.len() {
            assert(fv[c as int] == from@[c as int]@ && tv[c as int] == to@[c as int]@);
        }
    }
    let mut parts: Vec<String> = Vec::new();
    let mut k: usize = c;
    while k < from.len()
        invariant
            c <= k <= from.len(),
            c <= to.len(),
            texts(parts@) == Seq::new((k - c) as nat, |i: int| ".."@),
        decreases from.len() - k,
    {
        let ghost before = texts(parts@);
        let up = String::from_str("..");
        parts.push(up);
        assert(texts(parts@) =~= before.push(".."@));
        assert(before.push(".."@) =~= Seq::new((k + 1 - c) as nat, |i: int| ".."@));
        k = k + 1;
    }
    let ghost ups = texts(parts@);
    assert(ups + tv.subrange(c as int, c as int) =~= ups);
    let mut j: usize = c;
    while j < to.len()
        invariant
            c <= j <= to.len(),
            c <= from.len(),
            tv == texts(to@),
            texts(parts@) == ups + tv.subrange(c as int, j as int),
        decreases to.len() - j,
    {
        let ghost before = texts(parts@);
        let piece = to[j].clone();
        parts.push(piece);
        assert(tv[j as int] == to@[j as int]@);
        assert(texts(parts@) =~= before.push(tv[j as int]));
        assert(ups + tv.subrange(c as int, j + 1) =~= (ups + tv.subrange(c as int, j as int)).push(
            tv[j as int],
        ));
        j = j + 1;
    }
    assert(texts(parts@) =~= relative_parts(fv, tv));
    parts
}

/// The path of `to_pathstr` as seen from the folder `from_pathstr`: the platform splits
/// both into components, `relative_components` relates them, and the platform joins
/// the result.
pub fn get_relative_path(from_pathstr: &str, to_pathstr: &str) -> (r: Option<String>) {
    let from = components_of(from_pathstr);
    let to = components_of(to_pathstr);
    join_components(&relative_components(&from, &to))
}

} // verus!
