//! Which directory entries become candidates, and where the scan starts.
//!
//! The surrounding program reads one level of entries under the base path
//! and tags each with its kind; entries whose kind it cannot determine it
//! skips. The choice of which tagged entries to probe is made here:
//! directories and symbolic links are candidates — a symlinked checkout is
//! followed — and everything else is not.
use vstd::prelude::*;

verus! {

/// What kind of filesystem entry a listed child is.
#[derive(Clone, Copy, PartialEq, Eq, Structural, Debug)]
pub enum EntryKind {
    Directory,
    Symlink,
    File,
    Other,
}

/// One immediate child of the base path, as the lister saw it.
pub struct Candidate {
    pub path: String,
    pub kind: EntryKind,
}

/// The model of a [`Candidate`].
#[verifier::ext_equal]
pub ghost struct CandModel {
    pub path: Seq<char>,
    pub kind: EntryKind,
}

impl View for Candidate {
    type V = CandModel;

    open spec fn view(&self) -> CandModel {
        CandModel { path: self.path@, kind: self.kind }
    }
}

/// The models of a sequence of candidates.
pub open spec fn cand_models(s: Seq<Candidate>) -> Seq<CandModel> {
    s.map_values(|c: Candidate| c@)
}

/// Whether an entry of this kind is probed: directories and symbolic links
/// are, files and anything else are not.
pub open spec fn is_candidate_kind(k: EntryKind) -> bool {
    k == EntryKind::Directory || k == EntryKind::Symlink
}

/// The paths of the entries that are probed, in listing order.
pub open spec fn candidate_paths(s: Seq<CandModel>) -> Seq<Seq<char>>
    decreases s.len(),
{
    if s.len() == 0 {
        Seq::empty()
    } else if is_candidate_kind(s.first().kind) {
        seq![s.first().path] + candidate_paths(s.drop_first())
    } else {
        candidate_paths(s.drop_first())
    }
}

/// Whether one listed entry is probed.
pub fn keep_entry(kind: EntryKind) -> (r: bool)
    ensures
        r == is_candidate_kind(kind),
{
    kind == EntryKind::Directory || kind == EntryKind::Symlink
}

/// Appending one entry appends its path, if it is kept.
proof fn lemma_candidate_paths_push(s: Seq<CandModel>, c: CandModel)
    ensures
        candidate_paths(s.push(c)) == candidate_paths(s) + (if is_candidate_kind(c.kind) {
            seq![c.path]
        } else {
            Seq::<Seq<char>>::empty()
        }),
    decreases s.len(),
{
    let tail = (if is_candidate_kind(c.kind) {
        seq![c.path]
    } else {
        Seq::<Seq<char>>::empty()
    });
    if s.len() == 0 {
        assert(s.push(c)[0] == c);
        assert(s.push(c).first() == c);
        assert(s.push(c).drop_first() =~= Seq::<CandModel>::empty());
        assert(candidate_paths(Seq::<CandModel>::empty()) == Seq::<Seq<char>>::empty());
        assert(candidate_paths(s) == Seq::<Seq<char>>::empty());
        assert(candidate_paths(s.push(c)) =~= candidate_paths(s) + tail);
    } else {
        assert(s.push(c)[0] == s[0]);
        assert(s.push(c).first() == s.first());
        assert(s.push(c).drop_first() =~= s.drop_first().push(c));
        lemma_candidate_paths_push(s.drop_first(), c);
        assert(candidate_paths(s.push(c)) =~= candidate_paths(s) + tail);
    }
}

/// Keep the paths of the directories and symbolic links among the listed
/// entries, in listing order.
pub fn filter_candidates(entries: Vec<Candidate>) -> (r: Vec<String>)
    ensures
        r@.map_values(|p: String| p@) == candidate_paths(cand_models(entries@)),
{
    let ghost all = entries@;
    let mut rest = entries;
    let mut kept: Vec<String> = Vec::new();
    proof {
        assert(rest@ =~= all.skip(0));
        assert(cand_models(all.take(0)) =~= Seq::<CandModel>::empty());
        assert(kept@.map_values(|p: String| p@) =~= candidate_paths(cand_models(all.take(0))));
    }
    while rest.len() != 0
        invariant
            rest@.len() <= all.len(),
            rest@ == all.skip(all.len() - rest@.len()),
            kept@.map_values(|p: String| p@) == candidate_paths(
                cand_models(all.take(all.len() - rest@.len())),
            ),
        decreases rest@.len(),
    {
        let ghost k = all.len() - rest@.len();
        proof {
            assert(0 <= k < all.len());
            assert(all.skip(k)[0] == all[k]);
        }
        let c = rest.remove(0);
        proof {
            assert(c == all[k]);
            assert(rest@ =~= all.skip(k + 1));
            assert(cand_models(all.take(k + 1)) =~= cand_models(all.take(k)).push(all[k]@));
            lemma_candidate_paths_push(cand_models(all.take(k)), all[k]@);
        }
        if keep_entry(c.kind) {
            kept.push(c.path);
        }
        proof {
            assert(kept@.map_values(|p: String| p@) =~= candidate_paths(
                cand_models(all.take(k + 1)),
            ));
        }
    }
    proof {
        assert(all.take(all.len() as int) =~= all);
    }
    kept
}

/// The base directory of a scan: the first command-line argument when one is
/// given, the current directory otherwise.
pub fn choose_base_dir(args: &Vec<String>) -> (r: String)
    ensures
        args@.len() >= 2 ==> r@ == args@[1]@,
        args@.len() < 2 ==> r@ == "."@,
{
    if args.len() >= 2 {
        args[1].clone()
    } else {
        ".".to_owned()
    }
}

} // verus!
