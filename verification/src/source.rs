//! Source resolution: from a source spec to the ordered list of image paths.
//!
//! A directory range lists a directory, sorts the entries by raw name
//! order and keeps the contiguous run between the two bound names,
//! inclusive.  An explicit list is used verbatim.  A stream source
//! resolves to nothing.

use vstd::prelude::*;
use crate::names::{name_le, name_le_exec, lemma_name_le_total, lemma_name_le_trans,
    lemma_name_le_antisym};
use crate::errors::{RuntimeError, ErrorModel};

verus! {

/// How the source images of a run are specified.
pub enum SourceSpec {
    /// Files of `dir` whose name lies between `start` and `end`, inclusive.
    DirectoryRange { dir: String, start: String, end: String },
    /// Exactly these paths, in this order.
    ExplicitList { paths: Vec<String> },
    /// Source images are not supplied by this component.
    Stream,
}

impl SourceSpec {
    /// The directory of a directory-range spec.
    pub open spec fn spec_dir(self) -> Seq<char> {
        match self {
            SourceSpec::DirectoryRange { dir, .. } => dir@,
            _ => Seq::empty(),
        }
    }

    /// The lower bound name of a directory-range spec.
    pub open spec fn spec_start(self) -> Seq<char> {
        match self {
            SourceSpec::DirectoryRange { start, .. } => start@,
            _ => Seq::empty(),
        }
    }

    /// The upper bound name of a directory-range spec.
    pub open spec fn spec_end(self) -> Seq<char> {
        match self {
            SourceSpec::DirectoryRange { end, .. } => end@,
            _ => Seq::empty(),
        }
    }
}

/// The views of a sequence of strings.
pub open spec fn views_of(s: Seq<String>) -> Seq<Seq<char>> {
    s.map_values(|x: String| x@)
}

/// Whether `n` lies between the bound names, inclusive.
pub open spec fn in_range(n: Seq<char>, start: Seq<char>, end: Seq<char>) -> bool {
    name_le(start, n) && name_le(n, end)
}

/// Insertion of a name into a sorted run of names: `x` goes right before
/// the first name it is `<=` to.
pub open spec fn insert_name(x: Seq<char>, s: Seq<Seq<char>>) -> Seq<Seq<char>>
    decreases s.len(),
{
    if s.len() == 0 {
        seq![x]
    } else if name_le(x, s[0]) {
        seq![x] + s
    } else {
        seq![s[0]] + insert_name(x, s.skip(1))
    }
}

/// Insertion sort of names, in ascending raw-name order.
pub open spec fn sort_names(s: Seq<Seq<char>>) -> Seq<Seq<char>>
    decreases s.len(),
{
    if s.len() == 0 {
        Seq::empty()
    } else {
        insert_name(s.last(), sort_names(s.drop_last()))
    }
}

/// The in-range test as a function value, for `filter`.
pub open spec fn range_pred(start: Seq<char>, end: Seq<char>) -> spec_fn(Seq<char>) -> bool {
    |n: Seq<char>| in_range(n, start, end)
}

/// The names of `entries`, sorted, restricted to the inclusive range.
pub open spec fn range_selection(entries: Seq<Seq<char>>, start: Seq<char>, end: Seq<char>) -> Seq<
    Seq<char>,
> {
    sort_names(entries).filter(range_pred(start, end))
}

/// A directory entry name turned into a full path.
pub open spec fn join_path(dir: Seq<char>, name: Seq<char>) -> Seq<char> {
    if dir.len() == 0 {
        name
    } else if dir.last() == '/' {
        dir + name
    } else {
        dir + seq!['/'] + name
    }
}

/// Path joining under a fixed directory, as a function value, for `map_values`.
pub open spec fn join_fn(dir: Seq<char>) -> spec_fn(Seq<char>) -> Seq<char> {
    |n: Seq<char>| join_path(dir, n)
}

/// What a directory-range spec resolves to, given the listed entry names.
pub open spec fn resolved_range(
    entries: Seq<Seq<char>>,
    dir: Seq<char>,
    start: Seq<char>,
    end: Seq<char>,
) -> Seq<Seq<char>> {
    range_selection(entries, start, end).map_values(join_fn(dir))
}

/// The view of a directory-listing outcome.
pub open spec fn listing_model(listing: Result<Vec<String>, ()>) -> Result<Seq<Seq<char>>, ()> {
    match listing {
        Ok(v) => Ok(views_of(v@)),
        Err(e) => Err(e),
    }
}

/// The view of a resolution outcome.
pub open spec fn paths_model(r: Result<Vec<String>, RuntimeError>) -> Result<
    Seq<Seq<char>>,
    ErrorModel,
> {
    match r {
        Ok(v) => Ok(views_of(v@)),
        Err(e) => Err(e@),
    }
}

/// What resolution returns for every spec and every listing outcome.
pub open spec fn resolve_model(source: SourceSpec, listing: Result<Seq<Seq<char>>, ()>) -> Result<
    Seq<Seq<char>>,
    ErrorModel,
> {
    match source {
        SourceSpec::DirectoryRange { dir, start, end } => match listing {
            Ok(entries) => Ok(resolved_range(entries, dir@, start@, end@)),
            Err(_) => Err(ErrorModel::DirectoryNotFound(dir@)),
        },
        SourceSpec::ExplicitList { paths } => Ok(views_of(paths@)),
        SourceSpec::Stream => Ok(Seq::empty()),
    }
}

/// Indexing the views of a string sequence is viewing the string there.
pub broadcast proof fn lemma_views_index(s: Seq<String>, i: int)
    requires
        0 <= i < s.len(),
    ensures
        #[trigger] views_of(s)[i] == s[i]@,
{
}

/// Taking views commutes with appending one string.
proof fn lemma_views_push(s: Seq<String>, x: String)
    ensures
        views_of(s.push(x)) == views_of(s).push(x@),
{
    assert forall|k: int| 0 <= k < s.len() + 1 implies #[trigger] views_of(s.push(x))[k]
        == views_of(s).push(x@)[k] by {
        if k < s.len() {
            assert(s.push(x)[k] == s[k]);
        } else {
            assert(s.push(x)[k] == x);
        }
    }
    assert(views_of(s.push(x)) =~= views_of(s).push(x@));
}

/// Finds where `x` belongs in `out`: the first index whose name is not
/// strictly below `x`.
fn insertion_point(out: &Vec<String>, x: &String) -> (j: usize)
    ensures
        j <= out@.len(),
        forall|k: int| 0 <= k < j ==> !name_le(x@, #[trigger] views_of(out@)[k]),
        j < out@.len() ==> name_le(x@, views_of(out@)[j as int]),
{
    let mut j: usize = 0;
    while j < out.len()
        invariant
            j <= out@.len(),
            forall|k: int| 0 <= k < j ==> !name_le(x@, #[trigger] views_of(out@)[k]),
        decreases out@.len() - j,
    {
        if name_le_exec(x.as_str(), out[j].as_str()) {
            return j;
        }
        j = j + 1;
    }
    j
}

/// `insert_name` at the position the scan found is an ordinary insertion.
proof fn lemma_insert_name_at(x: Seq<char>, s: Seq<Seq<char>>, j: int)
    requires
        0 <= j <= s.len(),
        forall|k: int| 0 <= k < j ==> !name_le(x, #[trigger] s[k]),
        j < s.len() ==> name_le(x, s[j]),
    ensures
        insert_name(x, s) == s.insert(j, x),
    decreases j,
{
    if j == 0 {
        if s.len() == 0 {
            assert(insert_name(x, s) =~= s.insert(0, x));
        } else {
            assert(insert_name(x, s) == seq![x] + s);
            assert(seq![x] + s =~= s.insert(0, x));
        }
    } else {
        assert(!name_le(x, s[0]));
        let rest = s.skip(1);
        assert forall|k: int| 0 <= k < j - 1 implies !name_le(x, #[trigger] rest[k]) by {
            assert(rest[k] == s[k + 1]);
        }
        if j - 1 < rest.len() {
            assert(rest[j - 1] == s[j]);
        }
        lemma_insert_name_at(x, rest, j - 1);
        assert(insert_name(x, s) == seq![s[0]] + rest.insert(j - 1, x));
        assert(seq![s[0]] + rest.insert(j - 1, x) =~= s.insert(j, x)) by {
            s.insert_ensures(j, x);
            rest.insert_ensures(j - 1, x);
        }
    }
}

/// Inserts `x` into the sorted vector `out`, keeping it sorted.
fn insert_sorted(out: &mut Vec<String>, x: String)
    ensures
        views_of(final(out)@) == insert_name(x@, views_of(old(out)@)),
{
    let j = insertion_point(out, &x);
    proof {
        lemma_insert_name_at(x@, views_of(out@), j as int);
    }
    let ghost before = out@;
    out.insert(j, x);
    proof {
        assert(views_of(out@) =~= views_of(before).insert(j as int, x@)) by {
            before.insert_ensures(j as int, x);
            views_of(before).insert_ensures(j as int, x@);
        }
    }
}

/// Sorts the entry names in ascending raw-name order.
fn sort_by_name(entries: &Vec<String>) -> (r: Vec<String>)
    ensures
        views_of(r@) == sort_names(views_of(entries@)),
{
    let mut out: Vec<String> = Vec::new();
    let mut i: usize = 0;
    assert(views_of(out@) =~= sort_names(views_of(entries@).take(0)));
    while i < entries.len()
        invariant
            i <= entries@.len(),
            views_of(out@) == sort_names(views_of(entries@).take(i as int)),
        decreases entries@.len() - i,
    {
        let ghost vs = views_of(entries@);
        let x = entries[i].clone();
        insert_sorted(&mut out, x);
        proof {
            assert(vs.take(i + 1).last() == vs[i as int]);
            assert(vs.take(i + 1).drop_last() =~= vs.take(i as int));
            assert(sort_names(vs.take(i + 1)) == insert_name(vs[i as int], sort_names(vs.take(i as int))));
        }
        i = i + 1;
    }
    proof {
        assert(views_of(entries@).take(entries@.len() as int) =~= views_of(entries@));
    }
    out
}

/// Keeps, in order, the names that lie in the inclusive range.
fn select_in_range(sorted: &Vec<String>, start: &str, end: &str) -> (r: Vec<String>)
    ensures
        views_of(r@) == views_of(sorted@).filter(range_pred(start@, end@)),
{
    let ghost pred = range_pred(start@, end@);
    let mut out: Vec<String> = Vec::new();
    let mut i: usize = 0;
    assert(views_of(out@) =~= views_of(sorted@).take(0).filter(pred));
    while i < sorted.len()
        invariant
            pred == range_pred(start@, end@),
            i <= sorted@.len(),
            views_of(out@) == views_of(sorted@).take(i as int).filter(pred),
        decreases sorted@.len() - i,
    {
        let ghost vs = views_of(sorted@);
        let keep = name_le_exec(start, sorted[i].as_str()) && name_le_exec(
            sorted[i].as_str(),
            end,
        );
        let ghost before = out@;
        if keep {
            let x = sorted[i].clone();
            let ghost gx = x;
            out.push(x);
            proof {
                lemma_views_push(before, gx);
            }
        }
        proof {
            broadcast use lemma_views_index;

            assert(vs[i as int] == sorted@[i as int]@);
            assert(pred(vs[i as int]) == in_range(vs[i as int], start@, end@));
            assert(keep == pred(vs[i as int]));
            reveal_with_fuel(Seq::filter, 2);
            let t = vs.take(i + 1);
            assert(t.len() == i + 1);
            assert(t.last() == vs[i as int]);
            assert(t.drop_last() =~= vs.take(i as int));
            assert(t.filter(pred) == if pred(t.last()) {
                t.drop_last().filter(pred).push(t.last())
            } else {
                t.drop_last().filter(pred)
            });
            assert(views_of(out@) =~= t.filter(pred));
        }
        i = i + 1;
    }
    proof {
        assert(views_of(sorted@).take(sorted@.len() as int) =~= views_of(sorted@));
    }
    out
}

/// Builds the full path of one directory entry.
fn join_path_exec(dir: &str, name: &String) -> (r: String)
    ensures
        r@ == join_path(dir@, name@),
{
    let n = dir.unicode_len();
    if n == 0 {
        return name.clone();
    }
    let last = dir.get_char(n - 1);
    let base = String::from_str(dir);
    if last == '/' {
        base.concat(name.as_str())
    } else {
        proof {
            reveal_strlit("/");
            assert("/"@ =~= seq!['/']);
        }
        base.concat("/").concat(name.as_str())
    }
}

/// Prefixes every selected name with the directory.
fn prefix_dir(dir: &str, names: &Vec<String>) -> (r: Vec<String>)
    ensures
        views_of(r@) == views_of(names@).map_values(join_fn(dir@)),
{
    let ghost f = join_fn(dir@);
    let mut out: Vec<String> = Vec::new();
    let mut i: usize = 0;
    while i < names.len()
        invariant
            f == join_fn(dir@),
            i <= names@.len(),
            views_of(out@) =~= views_of(names@).take(i as int).map_values(f),
        decreases names@.len() - i,
    {
        let p = join_path_exec(dir, &names[i]);
        let ghost gp = p;
        let ghost before = out@;
        out.push(p);
        proof {
            broadcast use lemma_views_index;

            lemma_views_push(before, gp);
            assert(views_of(names@)[i as int] == names@[i as int]@);
            assert(f(views_of(names@)[i as int]) == join_path(dir@, views_of(names@)[i as int]));
            assert(gp@ == f(views_of(names@)[i as int]));
            assert(views_of(out@) =~= views_of(names@).take(i + 1).map_values(f));
        }
        i = i + 1;
    }
    proof {
        assert(views_of(names@).take(names@.len() as int) =~= views_of(names@));
        assert(views_of(out@) == views_of(names@).map_values(f));
    }
    out
}

/// Copies an explicit path list verbatim.
fn copy_paths(paths: &Vec<String>) -> (r: Vec<String>)
    ensures
        views_of(r@) == views_of(paths@),
{
    let mut out: Vec<String> = Vec::new();
    let mut i: usize = 0;
    while i < paths.len()
        invariant
            i <= paths@.len(),
            views_of(out@) =~= views_of(paths@).take(i as int),
        decreases paths@.len() - i,
    {
        let x = paths[i].clone();
        let ghost gx = x;
        let ghost before = out@;
        out.push(x);
        proof {
            lemma_views_push(before, gx);
            assert(views_of(out@) =~= views_of(paths@).take(i + 1));
        }
        i = i + 1;
    }
    proof {
        assert(views_of(paths@).take(paths@.len() as int) =~= views_of(paths@));
        assert(views_of(out@) == views_of(paths@));
    }
    out
}

/// Resolves a source spec against the outcome of listing its directory.
///
/// Only a directory-range spec reads the listing; for it, a failed
/// listing is the one fatal case.  An explicit list is returned exactly
/// as given, and a stream source resolves to the empty list.
pub fn resolve(source: &SourceSpec, listing: Result<Vec<String>, ()>) -> (r: Result<
    Vec<String>,
    RuntimeError,
>)
    ensures
        paths_model(r) == resolve_model(*source, listing_model(listing)),
{
    match source {
        SourceSpec::DirectoryRange { dir, start, end } => match listing {
            Ok(entries) => {
                let sorted = sort_by_name(&entries);
                let selected = select_in_range(&sorted, start.as_str(), end.as_str());
                let full = prefix_dir(dir.as_str(), &selected);
                Ok(full)
            },
            Err(_) => Err(RuntimeError::DirectoryNotFound { dir: dir.clone() }),
        },
        SourceSpec::ExplicitList { paths } => Ok(copy_paths(paths)),
        SourceSpec::Stream => {
            let out: Vec<String> = Vec::new();
            proof {
                assert(views_of(out@) =~= Seq::<Seq<char>>::empty());
            }
            Ok(out)
        },
    }
}


/// Ascending raw-name order over a whole sequence of names.
pub open spec fn sorted_names(s: Seq<Seq<char>>) -> bool {
    forall|i: int, j: int| 0 <= i < j < s.len() ==> name_le(#[trigger] s[i], #[trigger] s[j])
}

/// Inserting a name adds exactly that name to the contents.
proof fn lemma_insert_name_multiset(x: Seq<char>, s: Seq<Seq<char>>)
    ensures
        insert_name(x, s).to_multiset() == s.to_multiset().insert(x),
    decreases s.len(),
{
    broadcast use vstd::seq_lib::group_to_multiset_ensures;
    broadcast use vstd::multiset::group_multiset_axioms;

    if s.len() == 0 {
        assert(insert_name(x, s) =~= Seq::empty().push(x));
        assert(Seq::<Seq<char>>::empty().to_multiset() =~= s.to_multiset());
    } else if name_le(x, s[0]) {
        assert(seq![x] + s =~= s.insert(0, x));
    } else {
        let sk = s.skip(1);
        lemma_insert_name_multiset(x, sk);
        assert(seq![s[0]] + insert_name(x, sk) =~= (insert_name(x, sk)).insert(0, s[0]));
        assert(seq![s[0]] + sk =~= sk.insert(0, s[0]));
        assert(s =~= seq![s[0]] + sk);
        assert(insert_name(x, s).to_multiset() =~= s.to_multiset().insert(x));
    }
}

/// Inserting into a sorted run keeps it sorted.
proof fn lemma_insert_name_sorted(x: Seq<char>, s: Seq<Seq<char>>)
    requires
        sorted_names(s),
    ensures
        sorted_names(insert_name(x, s)),
    decreases s.len(),
{
    broadcast use vstd::seq_lib::group_to_multiset_ensures;
    broadcast use vstd::multiset::group_multiset_axioms;

    if s.len() == 0 {
    } else if name_le(x, s[0]) {
        let r = seq![x] + s;
        assert forall|i: int, j: int| 0 <= i < j < r.len() implies name_le(
            #[trigger] r[i],
            #[trigger] r[j],
        ) by {
            if i == 0 {
                if j > 1 {
                    lemma_name_le_trans(x, s[0], s[j - 1]);
                }
            }
        }
    } else {
        lemma_name_le_total(x, s[0]);
        let sk = s.skip(1);
        assert forall|i: int, j: int| 0 <= i < j < sk.len() implies name_le(
            #[trigger] sk[i],
            #[trigger] sk[j],
        ) by {
            assert(sk[i] == s[i + 1]);
            assert(sk[j] == s[j + 1]);
        }
        lemma_insert_name_sorted(x, sk);
        lemma_insert_name_multiset(x, sk);
        let ins = insert_name(x, sk);
        let r = seq![s[0]] + ins;
        assert forall|i: int, j: int| 0 <= i < j < r.len() implies name_le(
            #[trigger] r[i],
            #[trigger] r[j],
        ) by {
            if i == 0 {
                let e = ins[j - 1];
                assert(ins.contains(e));
                assert(ins.to_multiset().count(e) > 0);
                if e == x {
                    assert(name_le(s[0], x));
                } else {
                    assert(sk.to_multiset().count(e) > 0);
                    assert(sk.contains(e));
                    let k = choose|k: int| 0 <= k < sk.len() && sk[k] == e;
                    assert(sk[k] == s[k + 1]);
                    assert(name_le(s[0], s[k + 1]));
                }
            } else {
                assert(r[i] == ins[i - 1]);
                assert(r[j] == ins[j - 1]);
            }
        }
    }
}

/// Sorting the names neither adds nor drops any, and sorts them.
pub proof fn lemma_sort_names_exact(s: Seq<Seq<char>>)
    ensures
        sorted_names(sort_names(s)),
        sort_names(s).to_multiset() == s.to_multiset(),
    decreases s.len(),
{
    broadcast use vstd::seq_lib::group_to_multiset_ensures;

    if s.len() == 0 {
    } else {
        lemma_sort_names_exact(s.drop_last());
        lemma_insert_name_sorted(s.last(), sort_names(s.drop_last()));
        lemma_insert_name_multiset(s.last(), sort_names(s.drop_last()));
        assert(s =~= s.drop_last().push(s.last()));
    }
}

/// Filtering after inserting a name keeps the filtered contents, plus
/// the name itself when it passes the test.
proof fn lemma_insert_name_filter(x: Seq<char>, s: Seq<Seq<char>>, p: spec_fn(Seq<char>) -> bool)
    ensures
        insert_name(x, s).filter(p).to_multiset() == if p(x) {
            s.filter(p).to_multiset().insert(x)
        } else {
            s.filter(p).to_multiset()
        },
    decreases s.len(),
{
    broadcast use vstd::seq_lib::group_to_multiset_ensures;
    broadcast use vstd::multiset::group_multiset_axioms;
    broadcast use Seq::filter_distributes_over_add;
    broadcast use vstd::seq_lib::lemma_multiset_commutative;

    reveal_with_fuel(Seq::filter, 3);
    let single = seq![x];
    assert(single =~= Seq::empty().push(x));
    if s.len() == 0 {
        assert(insert_name(x, s) == single);
        assert(s.filter(p) =~= Seq::empty());
    } else if name_le(x, s[0]) {
        assert(insert_name(x, s) == single + s);
        assert((single + s).filter(p) == single.filter(p) + s.filter(p));
        if p(x) {
            assert(single.filter(p) =~= Seq::empty().push(x));
            assert((single.filter(p) + s.filter(p)).to_multiset() =~= s.filter(
                p,
            ).to_multiset().insert(x));
        } else {
            assert(single.filter(p) =~= Seq::<Seq<char>>::empty());
            assert(single.filter(p) + s.filter(p) =~= s.filter(p));
        }
    } else {
        let head = seq![s[0]];
        assert(head =~= Seq::empty().push(s[0]));
        let sk = s.skip(1);
        lemma_insert_name_filter(x, sk, p);
        assert(insert_name(x, s) == head + insert_name(x, sk));
        assert((head + insert_name(x, sk)).filter(p) == head.filter(p) + insert_name(
            x,
            sk,
        ).filter(p));
        assert(s =~= head + sk);
        assert(s.filter(p) == head.filter(p) + sk.filter(p));
        if p(s[0]) {
            assert(head.filter(p) =~= Seq::empty().push(s[0]));
        } else {
            assert(head.filter(p) =~= Seq::<Seq<char>>::empty());
        }
        assert(insert_name(x, s).filter(p).to_multiset() =~= if p(x) {
            s.filter(p).to_multiset().insert(x)
        } else {
            s.filter(p).to_multiset()
        });
    }
}

/// Sorting first does not change what a filter keeps.
proof fn lemma_sort_then_filter(s: Seq<Seq<char>>, p: spec_fn(Seq<char>) -> bool)
    ensures
        sort_names(s).filter(p).to_multiset() == s.filter(p).to_multiset(),
    decreases s.len(),
{
    broadcast use vstd::seq_lib::group_to_multiset_ensures;

    reveal_with_fuel(Seq::filter, 2);
    if s.len() == 0 {
    } else {
        let d = s.drop_last();
        lemma_sort_then_filter(d, p);
        lemma_insert_name_filter(s.last(), sort_names(d), p);
        assert(s.filter(p) == if p(s.last()) {
            d.filter(p).push(s.last())
        } else {
            d.filter(p)
        });
    }
}

/// Every element a filter keeps was in the sequence.
proof fn lemma_filter_sub(s: Seq<Seq<char>>, p: spec_fn(Seq<char>) -> bool)
    ensures
        forall|i: int| 0 <= i < s.filter(p).len() ==> s.contains(#[trigger] s.filter(p)[i]),
    decreases s.len(),
{
    reveal_with_fuel(Seq::filter, 2);
    if s.len() == 0 {
    } else {
        let d = s.drop_last();
        lemma_filter_sub(d, p);
        assert forall|i: int| 0 <= i < s.filter(p).len() implies s.contains(
            #[trigger] s.filter(p)[i],
        ) by {
            if i < d.filter(p).len() {
                assert(d.contains(d.filter(p)[i]));
                let k = choose|k: int| 0 <= k < d.len() && d[k] == d.filter(p)[i];
                assert(s[k] == d[k]);
            } else {
                assert(s.filter(p)[i] == s.last());
            }
        }
    }
}

/// Filtering a sorted run of names leaves a sorted run.
proof fn lemma_filter_sorted(s: Seq<Seq<char>>, p: spec_fn(Seq<char>) -> bool)
    requires
        sorted_names(s),
    ensures
        sorted_names(s.filter(p)),
    decreases s.len(),
{
    reveal_with_fuel(Seq::filter, 2);
    if s.len() == 0 {
    } else {
        let d = s.drop_last();
        assert forall|i: int, j: int| 0 <= i < j < d.len() implies name_le(
            #[trigger] d[i],
            #[trigger] d[j],
        ) by {
            assert(d[i] == s[i]);
            assert(d[j] == s[j]);
        }
        lemma_filter_sorted(d, p);
        lemma_filter_sub(d, p);
        let f = s.filter(p);
        assert forall|i: int, j: int| 0 <= i < j < f.len() implies name_le(
            #[trigger] f[i],
            #[trigger] f[j],
        ) by {
            if p(s.last()) && j == f.len() - 1 && f[j] == s.last() && i < d.filter(p).len() {
                assert(d.contains(d.filter(p)[i]));
                let k = choose|k: int| 0 <= k < d.len() && d[k] == d.filter(p)[i];
                assert(name_le(s[k], s[s.len() - 1]));
            }
        }
    }
}

/// Nothing survives a filter that holds of no element.
proof fn lemma_filter_none(s: Seq<Seq<char>>, p: spec_fn(Seq<char>) -> bool)
    requires
        forall|i: int| 0 <= i < s.len() ==> !p(#[trigger] s[i]),
    ensures
        s.filter(p) == Seq::<Seq<char>>::empty(),
    decreases s.len(),
{
    reveal_with_fuel(Seq::filter, 2);
    if s.len() == 0 {
        assert(s.filter(p) =~= Seq::<Seq<char>>::empty());
    } else {
        let d = s.drop_last();
        assert forall|i: int| 0 <= i < d.len() implies !p(#[trigger] d[i]) by {
            assert(d[i] == s[i]);
        }
        lemma_filter_none(d, p);
        assert(!p(s.last()));
    }
}

/// What directory-range selection is: exactly the entries whose name
/// lies in the inclusive range, in ascending raw-name order; and empty,
/// not an error, when the bounds are crossed.
pub proof fn lemma_range_selection_exact(
    entries: Seq<Seq<char>>,
    start: Seq<char>,
    end: Seq<char>,
)
    ensures
        sorted_names(range_selection(entries, start, end)),
        forall|i: int| 0 <= i < range_selection(entries, start, end).len() ==> in_range(
            #[trigger] range_selection(entries, start, end)[i],
            start,
            end,
        ),
        range_selection(entries, start, end).to_multiset() == entries.filter(
            range_pred(start, end),
        ).to_multiset(),
        !name_le(start, end) ==> range_selection(entries, start, end) == Seq::<Seq<char>>::empty(),
{
    broadcast use vstd::seq_lib::group_filter_ensures;

    let p = range_pred(start, end);
    let sorted = sort_names(entries);
    lemma_sort_names_exact(entries);
    lemma_filter_sorted(sorted, p);
    lemma_sort_then_filter(entries, p);
    assert forall|i: int| 0 <= i < range_selection(entries, start, end).len() implies in_range(
        #[trigger] range_selection(entries, start, end)[i],
        start,
        end,
    ) by {
        assert(p(sorted.filter(p)[i]));
    }
    if !name_le(start, end) {
        assert forall|i: int| 0 <= i < sorted.len() implies !p(#[trigger] sorted[i]) by {
            if p(sorted[i]) {
                lemma_name_le_trans(start, sorted[i], end);
            }
        }
        lemma_filter_none(sorted, p);
    }
}

/// Resolution is a function of the spec and the listed entries alone:
/// resolving the same spec against an unchanged directory twice yields
/// the identical ordered output.
pub proof fn lemma_resolve_deterministic(
    source: SourceSpec,
    listing: Result<Seq<Seq<char>>, ()>,
    r1: Result<Seq<Seq<char>>, ErrorModel>,
    r2: Result<Seq<Seq<char>>, ErrorModel>,
)
    requires
        r1 == resolve_model(source, listing),
        r2 == resolve_model(source, listing),
    ensures
        r1 == r2,
{
}


/// Two sorted runs with the same contents are the same run.
proof fn lemma_sorted_names_unique(a: Seq<Seq<char>>, b: Seq<Seq<char>>)
    requires
        sorted_names(a),
        sorted_names(b),
        a.to_multiset() == b.to_multiset(),
    ensures
        a == b,
    decreases a.len(),
{
    broadcast use vstd::seq_lib::group_to_multiset_ensures;
    broadcast use vstd::multiset::group_multiset_axioms;

    if a.len() == 0 {
        assert(a.to_multiset().len() == a.len());
        assert(b.to_multiset().len() == b.len());
        assert(b.len() == 0);
        assert(a =~= b);
    } else {
        assert(a.to_multiset().len() == a.len());
        assert(b.to_multiset().len() == b.len());
        assert(b.len() == a.len());
        assert(a.contains(a[0]));
        assert(b.to_multiset().count(a[0]) > 0);
        assert(b.contains(a[0]));
        assert(b.contains(b[0]));
        assert(a.to_multiset().count(b[0]) > 0);
        assert(a.contains(b[0]));
        if a[0] != b[0] {
            let j = choose|j: int| 0 <= j < b.len() && b[j] == a[0];
            assert(j != 0);
            assert(name_le(b[0], b[j]));
            let i = choose|i: int| 0 <= i < a.len() && a[i] == b[0];
            assert(i != 0);
            assert(name_le(a[0], a[i]));
            lemma_name_le_antisym(a[0], b[0]);
        }
        let a1 = a.skip(1);
        let b1 = b.skip(1);
        assert forall|i: int, j: int| 0 <= i < j < a1.len() implies name_le(
            #[trigger] a1[i],
            #[trigger] a1[j],
        ) by {
            assert(a1[i] == a[i + 1]);
            assert(a1[j] == a[j + 1]);
        }
        assert forall|i: int, j: int| 0 <= i < j < b1.len() implies name_le(
            #[trigger] b1[i],
            #[trigger] b1[j],
        ) by {
            assert(b1[i] == b[i + 1]);
            assert(b1[j] == b[j + 1]);
        }
        assert(a =~= a1.insert(0, a[0]));
        assert(b =~= b1.insert(0, b[0]));
        assert(a.to_multiset() == a1.to_multiset().insert(a[0]));
        assert(b.to_multiset() == b1.to_multiset().insert(b[0]));
        assert(a1.to_multiset() =~= b1.to_multiset()) by {
            assert forall|e: Seq<char>| a1.to_multiset().count(e) == b1.to_multiset().count(
                e,
            ) by {
                assert(a1.to_multiset().insert(a[0]).count(e) == b1.to_multiset().insert(
                    b[0],
                ).count(e));
            }
        }
        lemma_sorted_names_unique(a1, b1);
        assert(a =~= b);
    }
}

/// The resolved list of a directory range does not depend on the order
/// in which the listing handed the entry names over: two listings with
/// the same names resolve to the identical ordered output.
pub proof fn lemma_resolved_range_listing_order_irrelevant(
    e1: Seq<Seq<char>>,
    e2: Seq<Seq<char>>,
    dir: Seq<char>,
    start: Seq<char>,
    end: Seq<char>,
)
    requires
        e1.to_multiset() == e2.to_multiset(),
    ensures
        resolved_range(e1, dir, start, end) == resolved_range(e2, dir, start, end),
{
    lemma_sort_names_exact(e1);
    lemma_sort_names_exact(e2);
    lemma_sorted_names_unique(sort_names(e1), sort_names(e2));
}

} // verus!
