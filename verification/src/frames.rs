//! Frame loading: from file paths to decoded frames.
//!
//! Each path is handed to the decoder; a path that fails to decode is
//! dropped silently, and the frames that remain keep the order of the
//! paths they came from.

use vstd::prelude::*;

verus! {

#[verifier::external_type_specification]
#[verifier::external_body]
pub struct ExImage(engiffen::Image);

/// Relies on `engiffen::load_image`: reads the file at `path` and
/// decodes it into a frame; any read or decode failure becomes `None`.
/// Whether it succeeds, and with what frame, depends on what is on disk.
#[verifier::external_body]
fn decode_frame(path: &String) -> (r: Option<engiffen::Image>) {
    engiffen::load_image(path.as_str()).ok()
}

/// The payloads of the `Some` entries, in order.
pub open spec fn somes_of<T>(s: Seq<Option<T>>) -> Seq<T>
    decreases s.len(),
{
    if s.len() == 0 {
        Seq::empty()
    } else {
        let rest = somes_of(s.drop_last());
        match s.last() {
            Some(x) => rest.push(x),
            None => rest,
        }
    }
}

/// There are never more `Some` payloads than entries.
pub proof fn lemma_somes_of_len<T>(s: Seq<Option<T>>)
    ensures
        somes_of(s).len() <= s.len(),
    decreases s.len(),
{
    if s.len() > 0 {
        lemma_somes_of_len(s.drop_last());
    }
}

/// Keeps, in order, the frames of the decode attempts that succeeded;
/// failed attempts are dropped without any error.
pub fn collect_frames(results: Vec<Option<engiffen::Image>>) -> (r: Vec<engiffen::Image>)
    ensures
        r@ == somes_of(results@),
{
    let ghost orig = results@;
    let mut rest = results;
    let mut out: Vec<engiffen::Image> = Vec::new();
    let mut k: usize = 0;
    let total = rest.len();
    proof {
        assert(orig.len() == total);
    }
    assert(rest@ =~= orig.skip(0));
    assert(out@ =~= somes_of(orig.take(0)));
    while rest.len() > 0
        invariant
            orig.len() <= usize::MAX,
            k <= orig.len(),
            rest@ =~= orig.skip(k as int),
            out@ == somes_of(orig.take(k as int)),
        decreases rest@.len(),
    {
        proof {
            assert(orig.skip(k as int).len() == orig.len() - k);
            assert(k < orig.len());
        }
        let x = rest.remove(0);
        proof {
            assert(orig.skip(k as int)[0] == orig[k as int]);
        }
        match x {
            Some(img) => out.push(img),
            None => {},
        }
        proof {
            let t = orig.take(k + 1);
            assert(t.len() == k + 1);
            assert(t.last() == orig[k as int]);
            assert(t.drop_last() =~= orig.take(k as int));
            assert(out@ =~= somes_of(t));
            assert(rest@ =~= orig.skip(k + 1));
        }
        k = k + 1;
    }
    proof {
        assert(orig.take(orig.len() as int) =~= orig);
    }
    out
}

/// Decodes every path in order and keeps the frames that decoded.
///
/// Which paths decode depends on the files behind them; the selection
/// itself is the contract of `collect_frames`.
pub fn load_images(paths: &Vec<String>) -> (r: Vec<engiffen::Image>)
    ensures
        r@.len() <= paths@.len(),
        exists|outcomes: Seq<Option<engiffen::Image>>|
            outcomes.len() == paths@.len() && r@ == somes_of(outcomes),
{
    let mut results: Vec<Option<engiffen::Image>> = Vec::new();
    let mut i: usize = 0;
    while i < paths.len()
        invariant
            i <= paths@.len(),
            results@.len() == i,
        decreases paths@.len() - i,
    {
        results.push(decode_frame(&paths[i]));
        i = i + 1;
    }
    proof {
        lemma_somes_of_len(results@);
    }
    let ghost outcomes = results@;
    let r = collect_frames(results);
    proof {
        assert(outcomes.len() == paths@.len() && r@ == somes_of(outcomes));
    }
    r
}

} // verus!
