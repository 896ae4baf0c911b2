use vstd::prelude::*;
use crate::media::StreamVariant;

verus! {

/// The requested rendition quality: one of the two sentinels, or an exact
/// pixel size matched by height.
#[derive(Clone, Copy, Debug, PartialEq, Eq, Structural)]
pub enum ResolutionTarget {
    Best,
    Worst,
    Exact { width: u64, height: u64 },
}

/// The variant a "best" request selects: the widest one, and the earliest in
/// manifest order among equally wide ones.
pub open spec fn best_of(vs: Seq<StreamVariant>) -> Option<StreamVariant>
    decreases vs.len(),
{
    if vs.len() == 0 {
        None
    } else {
        match best_of(vs.drop_last()) {
            None => Some(vs.last()),
            Some(b) => if vs.last().width > b.width {
                Some(vs.last())
            } else {
                Some(b)
            },
        }
    }
}

/// The variant a "worst" request selects: the narrowest one, and the latest in
/// manifest order among equally narrow ones.
pub open spec fn worst_of(vs: Seq<StreamVariant>) -> Option<StreamVariant>
    decreases vs.len(),
{
    if vs.len() == 0 {
        None
    } else {
        match worst_of(vs.drop_last()) {
            None => Some(vs.last()),
            Some(w) => if vs.last().width <= w.width {
                Some(vs.last())
            } else {
                Some(w)
            },
        }
    }
}

/// The variant an exact request selects: among the variants whose height
/// matches, the widest, and the earliest in manifest order among equally wide
/// ones. This equals walking the variants sorted descending by width (ties in
/// manifest order) and taking the first height match.
pub open spec fn exact_of(vs: Seq<StreamVariant>, height: u64) -> Option<StreamVariant>
    decreases vs.len(),
{
    if vs.len() == 0 {
        None
    } else {
        let rest = exact_of(vs.drop_last(), height);
        if vs.last().height != height {
            rest
        } else {
            match rest {
                None => Some(vs.last()),
                Some(b) => if vs.last().width > b.width {
                    Some(vs.last())
                } else {
                    Some(b)
                },
            }
        }
    }
}

/// The selection rule over all three request kinds. `None` means the request
/// cannot be satisfied from these variants, which callers treat as a hard
/// abort.
pub open spec fn spec_select(vs: Seq<StreamVariant>, target: ResolutionTarget) -> Option<
    StreamVariant,
> {
    match target {
        ResolutionTarget::Best => best_of(vs),
        ResolutionTarget::Worst => worst_of(vs),
        ResolutionTarget::Exact { width: _, height } => exact_of(vs, height),
    }
}

/// Selects at most one stream variant for the requested resolution.
pub fn select_stream(variants: &Vec<StreamVariant>, target: &ResolutionTarget) -> (r: Option<
    StreamVariant,
>)
    ensures
        r == spec_select(variants@, *target),
{
    let n = variants.len();
    if n == 0 {
        return None;
    }
    match *target {
        ResolutionTarget::Best => {
            let mut best_i: usize = 0;
            let mut i: usize = 1;
            proof {
                assert(variants@.take(1).drop_last() =~= Seq::<StreamVariant>::empty());
                assert(best_of(Seq::<StreamVariant>::empty()) is None);
                assert(variants@.take(1).last() == variants@[0]);
                assert(best_of(variants@.take(1)) == Some(variants@[0]));
            }
            while i < n
                invariant
                    1 <= i <= n == variants@.len(),
                    best_i < i,
                    best_of(variants@.take(i as int)) == Some(variants@[best_i as int]),
                decreases n - i,
            {
                assert(variants@.take(i + 1).drop_last() =~= variants@.take(i as int));
                assert(variants@.take(i + 1).last() == variants@[i as int]);
                if variants[i].width > variants[best_i].width {
                    best_i = i;
                }
                i += 1;
            }
            assert(variants@.take(n as int) =~= variants@);
            Some(variants[best_i].clone())
        },
        ResolutionTarget::Worst => {
            let mut worst_i: usize = 0;
            let mut i: usize = 1;
            proof {
                assert(variants@.take(1).drop_last() =~= Seq::<StreamVariant>::empty());
                assert(worst_of(Seq::<StreamVariant>::empty()) is None);
                assert(variants@.take(1).last() == variants@[0]);
                assert(worst_of(variants@.take(1)) == Some(variants@[0]));
            }
            while i < n
                invariant
                    1 <= i <= n == variants@.len(),
                    worst_i < i,
                    worst_of(variants@.take(i as int)) == Some(variants@[worst_i as int]),
                decreases n - i,
            {
                assert(variants@.take(i + 1).drop_last() =~= variants@.take(i as int));
                assert(variants@.take(i + 1).last() == variants@[i as int]);
                if variants[i].width <= variants[worst_i].width {
                    worst_i = i;
                }
                i += 1;
            }
            assert(variants@.take(n as int) =~= variants@);
            Some(variants[worst_i].clone())
        },
        ResolutionTarget::Exact { width: _, height } => {
            let mut found: bool = false;
            let mut sel: usize = 0;
            let mut i: usize = 0;
            assert(variants@.take(0).len() == 0);
            while i < n
                invariant
                    i <= n == variants@.len(),
                    !found ==> exact_of(variants@.take(i as int), height) is None,
                    found ==> sel < i && exact_of(variants@.take(i as int), height) == Some(
                        variants@[sel as int],
                    ),
                decreases n - i,
            {
                assert(variants@.take(i + 1).drop_last() =~= variants@.take(i as int));
                assert(variants@.take(i + 1).last() == variants@[i as int]);
                if variants[i].height == height {
                    if !found {
                        found = true;
                        sel = i;
                    } else if variants[i].width > variants[sel].width {
                        sel = i;
                    }
                }
                i += 1;
            }
            assert(variants@.take(n as int) =~= variants@);
            if found {
                Some(variants[sel].clone())
            } else {
                None
            }
        },
    }
}

/// The "best" choice is a listed variant of maximal width, and only an empty
/// manifest has none.
pub proof fn lemma_best_of_is_widest(vs: Seq<StreamVariant>)
    ensures
        vs.len() == 0 <==> best_of(vs) is None,
        best_of(vs) matches Some(b) ==> vs.contains(b) && (forall|i: int|
            0 <= i < vs.len() ==> vs[i].width <= b.width),
    decreases vs.len(),
{
    if vs.len() > 0 {
        let pre = vs.drop_last();
        lemma_best_of_is_widest(pre);
        let b = best_of(vs)->0;
        assert(vs[vs.len() - 1] == vs.last());
        if pre.len() > 0 {
            let pb = best_of(pre)->0;
            if pre.contains(pb) {
                let i = choose|i: int| 0 <= i < pre.len() && pre[i] == pb;
                assert(vs[i] == pb);
                assert(vs.contains(pb));
            }
        }
        assert(vs.contains(b));
        assert forall|i: int| 0 <= i < vs.len() implies vs[i].width <= b.width by {
            if i < vs.len() - 1 {
                assert(vs[i] == pre[i]);
            }
        }
    }
}

/// The "worst" choice is a listed variant of minimal width, and only an
/// empty manifest has none.
pub proof fn lemma_worst_of_is_narrowest(vs: Seq<StreamVariant>)
    ensures
        vs.len() == 0 <==> worst_of(vs) is None,
        worst_of(vs) matches Some(w) ==> vs.contains(w) && (forall|i: int|
            0 <= i < vs.len() ==> vs[i].width >= w.width),
    decreases vs.len(),
{
    if vs.len() > 0 {
        let pre = vs.drop_last();
        lemma_worst_of_is_narrowest(pre);
        let w = worst_of(vs)->0;
        assert(vs[vs.len() - 1] == vs.last());
        if pre.len() > 0 {
            let pw = worst_of(pre)->0;
            if pre.contains(pw) {
                let i = choose|i: int| 0 <= i < pre.len() && pre[i] == pw;
                assert(vs[i] == pw);
                assert(vs.contains(pw));
            }
        }
        assert(vs.contains(w));
        assert forall|i: int| 0 <= i < vs.len() implies vs[i].width >= w.width by {
            if i < vs.len() - 1 {
                assert(vs[i] == pre[i]);
            }
        }
    }
}

/// An exact request is answered by a listed variant of the requested height,
/// the widest among them, and is unanswerable exactly when no variant has
/// that height: the hard-abort condition.
pub proof fn lemma_exact_of_matches_height(vs: Seq<StreamVariant>, height: u64)
    ensures
        exact_of(vs, height) is None <==> (forall|i: int|
            0 <= i < vs.len() ==> vs[i].height != height),
        exact_of(vs, height) matches Some(b) ==> vs.contains(b) && b.height == height && (
        forall|i: int| 0 <= i < vs.len() && vs[i].height == height ==> vs[i].width <= b.width),
    decreases vs.len(),
{
    if vs.len() > 0 {
        let pre = vs.drop_last();
        lemma_exact_of_matches_height(pre, height);
        assert(vs[vs.len() - 1] == vs.last());
        assert forall|i: int| 0 <= i < pre.len() implies vs[i] == pre[i] by {}
        if exact_of(vs, height) is Some {
            let b = exact_of(vs, height)->0;
            if pre.len() > 0 && exact_of(pre, height) is Some {
                let pb = exact_of(pre, height)->0;
                if pre.contains(pb) {
                    let i = choose|i: int| 0 <= i < pre.len() && pre[i] == pb;
                    assert(vs[i] == pb);
                    assert(vs.contains(pb));
                }
            }
            assert(vs.contains(b));
        }
    }
}

} // verus!
