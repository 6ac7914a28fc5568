//! The ordered search of the storage roots for a requested file.
//!
//! The search is a step function: it names the next path to test, and the
//! caller, which owns the file system, reports whether that path exists.
use vstd::prelude::*;
use crate::grammar::{
    all_hash_chars, file_spec, lemma_asset_parts, platform_head, FileRef, FileView, Kind, Platform,
    HASH_LEN, PREFIX_LEN,
};

verus! {

/// `base` with `part` added as a further path component.
pub open spec fn join(base: Seq<char>, part: Seq<char>) -> Seq<char> {
    if base.len() == 0 || base.last() == '/' {
        base + part
    } else {
        base + seq!['/'] + part
    }
}

/// Where the file `f` lies under `root`.
pub open spec fn candidate(root: Seq<char>, f: FileView) -> Seq<char> {
    join(join(root, f.dir), f.file)
}

pub fn join_path(base: &str, part: &str) -> (r: String)
    ensures
        r@ == join(base@, part@),
{
    let n = base.unicode_len();
    let head = String::from_str(base);
    if n == 0 || base.get_char(n - 1) == '/' {
        head.concat(part)
    } else {
        proof {
            reveal_strlit("/");
        }
        head.concat("/").concat(part)
    }
}

pub fn candidate_path(root: &str, f: &FileRef) -> (r: String)
    ensures
        r@ == candidate(root@, f@),
{
    let dir = join_path(root, f.dir.as_str());
    join_path(dir.as_str(), f.file.as_str())
}

/// What the caller of the search does next.
pub enum Action {
    /// Test whether `path`, the file under root number `root`, exists.
    Check { root: usize, path: String },
    /// Read `path` and serve it.
    Read { path: String },
    /// No root holds the file.
    Unresolved,
}

pub ghost enum ActionView {
    Check(int, Seq<char>),
    Read(Seq<char>),
    Unresolved,
}

impl View for Action {
    type V = ActionView;

    open spec fn view(&self) -> ActionView {
        match self {
            Action::Check { root, path } => ActionView::Check(*root as int, path@),
            Action::Read { path } => ActionView::Read(path@),
            Action::Unresolved => ActionView::Unresolved,
        }
    }
}

/// The search starts at the first root.
pub open spec fn first_step(roots: Seq<Seq<char>>, f: FileView) -> ActionView {
    if roots.len() == 0 {
        ActionView::Unresolved
    } else {
        ActionView::Check(0, candidate(roots[0], f))
    }
}

/// After the test of root `i`: a hit ends the search, a miss moves to the next
/// root, and a miss at the last root leaves the file unresolved.
pub open spec fn next_step(roots: Seq<Seq<char>>, f: FileView, i: int, exists: bool) -> ActionView {
    if exists {
        ActionView::Read(candidate(roots[i], f))
    } else if i + 1 < roots.len() {
        ActionView::Check(i + 1, candidate(roots[i + 1], f))
    } else {
        ActionView::Unresolved
    }
}

pub fn begin_search(roots: &Vec<String>, f: &FileRef) -> (a: Action)
    ensures
        a@ == first_step(roots.deep_view(), f@),
{
    if roots.len() == 0 {
        Action::Unresolved
    } else {
        Action::Check { root: 0, path: candidate_path(roots[0].as_str(), f) }
    }
}

pub fn after_check(roots: &Vec<String>, f: &FileRef, root: usize, exists: bool) -> (a: Action)
    requires
        root < roots.len(),
    ensures
        a@ == next_step(roots.deep_view(), f@, root as int, exists),
{
    if exists {
        Action::Read { path: candidate_path(roots[root].as_str(), f) }
    } else if root + 1 < roots.len() {
        Action::Check { root: root + 1, path: candidate_path(roots[root + 1].as_str(), f) }
    } else {
        Action::Unresolved
    }
}


/// The paths that a search tests, and the action it ends in, when the caller
/// answers the test of root `i` with `present[i]`; from action `a`, for at most
/// `fuel` further tests.
pub open spec fn drive(
    roots: Seq<Seq<char>>,
    f: FileView,
    present: Seq<bool>,
    a: ActionView,
    fuel: nat,
) -> (Seq<Seq<char>>, ActionView)
    decreases fuel,
{
    match a {
        ActionView::Check(i, p) => if fuel == 0 {
            (Seq::empty(), a)
        } else {
            let rest = drive(roots, f, present, next_step(roots, f, i, present[i]), (fuel - 1) as nat);
            (seq![p] + rest.0, rest.1)
        },
        _ => (Seq::empty(), a),
    }
}

/// A whole search, from the first root on.
pub open spec fn search_trace(roots: Seq<Seq<char>>, f: FileView, present: Seq<bool>) -> (
    Seq<Seq<char>>,
    ActionView,
) {
    drive(roots, f, present, first_step(roots, f), roots.len())
}

proof fn lemma_drive_to_hit(
    roots: Seq<Seq<char>>,
    f: FileView,
    present: Seq<bool>,
    k: int,
    i: int,
    fuel: nat,
)
    requires
        present.len() == roots.len(),
        1 <= k <= roots.len(),
        present[k - 1],
        forall|j: int| 0 <= j < k - 1 ==> !present[j],
        0 <= i < k,
        fuel >= k - i,
    ensures
        drive(roots, f, present, ActionView::Check(i, candidate(roots[i], f)), fuel) == (
            Seq::new((k - i) as nat, |j: int| candidate(roots[i + j], f)),
            ActionView::Read(candidate(roots[k - 1], f)),
        ),
    decreases k - i,
{
    let a = ActionView::Check(i, candidate(roots[i], f));
    let rest = drive(roots, f, present, next_step(roots, f, i, present[i]), (fuel - 1) as nat);
    if i == k - 1 {
        assert(rest == (Seq::<Seq<char>>::empty(), ActionView::Read(candidate(roots[k - 1], f))));
        assert(seq![candidate(roots[i], f)] + rest.0 =~= Seq::new(
            (k - i) as nat,
            |j: int| candidate(roots[i + j], f),
        ));
    } else {
        lemma_drive_to_hit(roots, f, present, k, i + 1, (fuel - 1) as nat);
        assert(seq![candidate(roots[i], f)] + rest.0 =~= Seq::new(
            (k - i) as nat,
            |j: int| candidate(roots[i + j], f),
        ));
    }
}

/// Where root number `k` (counting from 1) is the first that holds the file,
/// the search tests exactly the first `k` roots, in their configured order, and
/// then reads the file under root `k`.
pub proof fn lemma_search_stops_at_first_hit(
    roots: Seq<Seq<char>>,
    f: FileView,
    present: Seq<bool>,
    k: int,
)
    requires
        present.len() == roots.len(),
        1 <= k <= roots.len(),
        present[k - 1],
        forall|j: int| 0 <= j < k - 1 ==> !present[j],
    ensures
        search_trace(roots, f, present) == (
            Seq::new(k as nat, |j: int| candidate(roots[j], f)),
            ActionView::Read(candidate(roots[k - 1], f)),
        ),
{
    lemma_drive_to_hit(roots, f, present, k, 0, roots.len());
    assert(Seq::new(k as nat, |j: int| candidate(roots[0 + j], f)) =~= Seq::new(
        k as nat,
        |j: int| candidate(roots[j], f),
    ));
}

proof fn lemma_drive_to_miss(
    roots: Seq<Seq<char>>,
    f: FileView,
    present: Seq<bool>,
    i: int,
    fuel: nat,
)
    requires
        present.len() == roots.len(),
        forall|j: int| 0 <= j < roots.len() ==> !present[j],
        0 <= i < roots.len(),
        fuel >= roots.len() - i,
    ensures
        drive(roots, f, present, ActionView::Check(i, candidate(roots[i], f)), fuel) == (
            Seq::new((roots.len() - i) as nat, |j: int| candidate(roots[i + j], f)),
            ActionView::Unresolved,
        ),
    decreases roots.len() - i,
{
    let rest = drive(roots, f, present, next_step(roots, f, i, present[i]), (fuel - 1) as nat);
    if i + 1 < roots.len() {
        lemma_drive_to_miss(roots, f, present, i + 1, (fuel - 1) as nat);
    }
    assert(seq![candidate(roots[i], f)] + rest.0 =~= Seq::new(
        (roots.len() - i) as nat,
        |j: int| candidate(roots[i + j], f),
    ));
}

/// Where no root holds the file, the search tests every root once, in order,
/// and ends unresolved.
pub proof fn lemma_search_misses_everywhere(
    roots: Seq<Seq<char>>,
    f: FileView,
    present: Seq<bool>,
)
    requires
        present.len() == roots.len(),
        forall|j: int| 0 <= j < roots.len() ==> !present[j],
    ensures
        search_trace(roots, f, present) == (
            Seq::new(roots.len(), |j: int| candidate(roots[j], f)),
            ActionView::Unresolved,
        ),
{
    if roots.len() == 0 {
        assert(Seq::new(roots.len(), |j: int| candidate(roots[j], f)) =~= Seq::empty());
    } else {
        lemma_drive_to_miss(roots, f, present, 0, roots.len());
        assert(Seq::new(roots.len(), |j: int| candidate(roots[0 + j], f)) =~= Seq::new(
            roots.len(),
            |j: int| candidate(roots[j], f),
        ));
    }
}


/// Round trip: with `root` as the only asset root, where that root holds the
/// file, a request for `<platform>/<middle>/<prefix><hash>` tests and then
/// reads exactly `root/<prefix>/<hash>`.
pub proof fn lemma_sole_root_round_trip(
    root: Seq<char>,
    p: Platform,
    middle: Seq<char>,
    prefix: Seq<char>,
    hash: Seq<char>,
)
    requires
        middle.len() > 0,
        prefix.len() == PREFIX_LEN,
        hash.len() == HASH_LEN,
        all_hash_chars(prefix + hash),
    ensures
        ({
            let f = file_spec(Kind::Asset, platform_head(p) + (middle + seq!['/'] + (prefix + hash)));
            &&& f == Some(FileView { dir: prefix, file: hash })
            &&& search_trace(seq![root], f->0, seq![true]) == (
                seq![join(join(root, prefix), hash)],
                ActionView::Read(join(join(root, prefix), hash)),
            )
        }),
{
    lemma_asset_parts(p, middle, prefix, hash);
    let f = FileView { dir: prefix, file: hash };
    lemma_search_stops_at_first_hit(seq![root], f, seq![true], 1);
    assert(Seq::new(1, |j: int| candidate(seq![root][j], f)) =~= seq![join(join(root, prefix), hash)]);
}

} // verus!
