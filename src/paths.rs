//! Paths as text: joining, decimal numbers in names, relative paths.
use vstd::prelude::*;
use vstd::string::*;

verus! {

/// The ten decimal digits, in order.
pub open spec fn digit_char(d: nat) -> char {
    seq!['0', '1', '2', '3', '4', '5', '6', '7', '8', '9'][d as int]
}

/// The decimal text of `n`, without leading zeros.
pub open spec fn decimal(n: nat) -> Seq<char>
    decreases n,
{
    if n < 10 {
        seq![digit_char(n)]
    } else {
        decimal(n / 10) + seq![digit_char(n % 10)]
    }
}

/// `rel` placed under `base`: an absolute `rel` stands alone, an empty `base`
/// adds nothing, and one separator goes between the two.
pub open spec fn join(base: Seq<char>, rel: Seq<char>) -> Seq<char> {
    if rel.len() > 0 && rel[0] == '/' {
        rel
    } else if base.len() == 0 {
        rel
    } else if base.last() == '/' {
        base + rel
    } else {
        base + seq!['/'] + rel
    }
}

fn digit_text(d: usize) -> (r: &'static str)
    requires
        d < 10,
    ensures
        r@ == seq![digit_char(d as nat)],
{
    let digits: &'static str = "0123456789";
    proof {
        reveal_strlit("0123456789");
    }
    let r = digits.substring_char(d, d + 1);
    assert(r@ =~= seq![digit_char(d as nat)]);
    r
}

/// The decimal text of `n`.
pub fn decimal_string(n: usize) -> (r: String)
    ensures
        r@ == decimal(n as nat),
    decreases n,
{
    if n < 10 {
        digit_text(n).to_owned()
    } else {
        let mut r = decimal_string(n / 10);
        r.append(digit_text(n % 10));
        r
    }
}

/// `rel` placed under `base`, as [`join`] describes.
pub fn join_path(base: &str, rel: &str) -> (r: String)
    ensures
        r@ == join(base@, rel@),
{
    let rl = rel.unicode_len();
    let bl = base.unicode_len();
    if rl > 0 && rel.get_char(0) == '/' {
        return rel.to_owned();
    }
    if bl == 0 {
        return rel.to_owned();
    }
    let mut r = base.to_owned();
    if base.get_char(bl - 1) != '/' {
        proof {
            reveal_strlit("/");
        }
        r.append("/");
    }
    r.append(rel);
    r
}

/// The path that leads from `base` to `path`, where there is one.
pub uninterp spec fn path_diff(path: Seq<char>, base: Seq<char>) -> Option<Seq<char>>;

/// Relies on `pathdiff::diff_paths`: the path that leads from `base` to
/// `path`, worked out from the two paths' text alone.
#[verifier::external_body]
pub(crate) fn relative_path(path: &str, base: &str) -> (r: Option<String>)
    ensures
        r is None <==> path_diff(path@, base@) is None,
        r matches Some(s) ==> path_diff(path@, base@) == Some(s@),
{
    match pathdiff::diff_paths(path, base) {
        Some(p) => Some(p.to_string_lossy().into_owned()),
        None => None,
    }
}

/// The paths of a list of files, as text.
pub open spec fn texts(v: Seq<String>) -> Seq<Seq<char>> {
    v.map_values(|s: String| s@)
}

/// Whether `s` is one of `v`.
pub fn contains_text(v: &Vec<String>, s: &String) -> (r: bool)
    ensures
        r == texts(v@).contains(s@),
{
    let mut i: usize = 0;
    while i < v.len()
        invariant
            i <= v@.len(),
            forall|j: int| 0 <= j < i ==> v@[j]@ != s@,
        decreases v@.len() - i,
    {
        if v[i] == *s {
            assert(texts(v@)[i as int] == s@);
            return true;
        }
        i = i + 1;
    }
    proof {
        if texts(v@).contains(s@) {
            let j = choose|j: int| 0 <= j < texts(v@).len() && texts(v@)[j] == s@;
            assert(v@[j]@ == s@);
        }
    }
    false
}

/// The pending directories after taking the next one to enumerate, and
/// that directory: the last pending one that is not on the ignore list;
/// ignored ones met on the way are dropped.
pub open spec fn pop_unignored(p: Seq<Seq<char>>, ignored: Seq<Seq<char>>) -> (Seq<Seq<char>>, Option<Seq<char>>)
    decreases p.len(),
{
    if p.len() == 0 {
        (p, None)
    } else if ignored.contains(p.last()) {
        pop_unignored(p.drop_last(), ignored)
    } else {
        (p.drop_last(), Some(p.last()))
    }
}

/// One step of expanding a directory tree: takes the next directory to
/// enumerate off `pending`, skipping those on `ignored_dirs`. The caller
/// enumerates it and pushes its subdirectories onto `pending`.
pub fn next_directory(pending: &mut Vec<String>, ignored_dirs: &Vec<String>) -> (r: Option<String>)
    ensures
        texts(final(pending)@) == pop_unignored(texts(old(pending)@), texts(ignored_dirs@)).0,
        r is None <==> pop_unignored(texts(old(pending)@), texts(ignored_dirs@)).1 is None,
        r matches Some(d) ==> pop_unignored(texts(old(pending)@), texts(ignored_dirs@)).1 == Some(d@),
{
    let ghost ign = texts(ignored_dirs@);
    loop
        invariant
            ign == texts(ignored_dirs@),
            pop_unignored(texts(pending@), ign) == pop_unignored(texts(old(pending)@), ign),
        decreases pending@.len(),
    {
        let ghost before = pending@;
        match pending.pop() {
            None => {
                return None;
            },
            Some(d) => {
                assert(texts(pending@) =~= texts(before).drop_last());
                assert(texts(before).last() == d@);
                if !contains_text(ignored_dirs, &d) {
                    return Some(d);
                }
            },
        }
    }
}

} // verus!
