use vstd::prelude::*;

use crate::path::{extension, extension_of};
use crate::text::{lemma_text_le_total, lemma_text_le_transitive, same_text, text_le, text_le_exec};

verus! {

/// Whether a path names an extracted frame: its extension is exactly `jpg`.
pub open spec fn is_frame_file(path: Seq<char>) -> bool {
    extension_of(path) == Some(seq!['j', 'p', 'g'])
}

/// Each text comes before or equals every later one.
pub open spec fn sorted_texts(s: Seq<Seq<char>>) -> bool {
    forall|i: int, j: int| 0 <= i < j < s.len() ==> text_le(#[trigger] s[i], #[trigger] s[j])
}

/// Tests `is_frame_file`.
pub fn is_frame_path(path: &str) -> (r: bool)
    ensures
        r == is_frame_file(path@),
{
    proof {
        reveal_strlit("jpg");
    }
    assert("jpg"@ =~= seq!['j', 'p', 'g']);
    match extension(path) {
        Some(ext) => same_text(ext, "jpg"),
        None => false,
    }
}

/// The frame files among the entries of the frame directory, in sorted
/// order: the order of their numbers, which all have the same width.
pub fn select_frames(paths: &Vec<String>) -> (r: Vec<String>)
    ensures
        sorted_texts(r.deep_view()),
        r.deep_view().to_multiset() == paths.deep_view().filter(
            |p: Seq<char>| is_frame_file(p),
        ).to_multiset(),
{
    let ghost pred = |p: Seq<char>| is_frame_file(p);
    let mut out: Vec<String> = Vec::new();
    let n = paths.len();
    assert(paths.deep_view().take(0).filter(pred) =~= Seq::<Seq<char>>::empty()) by {
        paths.deep_view().take(0).lemma_filter_len(pred);
    }
    assert(out.deep_view() =~= Seq::<Seq<char>>::empty());
    for i in 0..n
        invariant
            n == paths.len(),
            pred == (|p: Seq<char>| is_frame_file(p)),
            sorted_texts(out.deep_view()),
            out.deep_view().to_multiset() == paths.deep_view().take(i as int).filter(
                pred,
            ).to_multiset(),
    {
        let ghost before = out.deep_view();
        let p = &paths[i];
        assert(paths.deep_view().take(i + 1) =~= paths.deep_view().take(i as int).push(p@));
        proof {
            paths.deep_view().take(i as int).lemma_filter_push(p@, pred);
        }
        if is_frame_path(p.as_str()) {
            let mut j: usize = 0;
            while j < out.len() && text_le_exec(out[j].as_str(), p.as_str())
                invariant
                    j <= out.len(),
                    out.deep_view() == before,
                    is_frame_file(p@),
                    forall|k: int| 0 <= k < j ==> text_le(#[trigger] before[k], p@),
                decreases out.len() - j,
            {
                j = j + 1;
            }
            proof {
                if j < before.len() {
                    lemma_text_le_total(before[j as int], p@);
                    assert forall|k: int| j <= k < before.len() implies text_le(
                        p@,
                        #[trigger] before[k],
                    ) by {
                        if k > j {
                            assert(text_le(before[j as int], before[k]));
                            lemma_text_le_transitive(p@, before[j as int], before[k]);
                        }
                    }
                }
            }
            out.insert(j, p.clone());
            let ghost after = out.deep_view();
            assert(after =~= before.insert(j as int, p@));
            proof {
                before.insert_ensures(j as int, p@);
                assert forall|a: int, b: int| 0 <= a < b < after.len() implies text_le(
                    #[trigger] after[a],
                    #[trigger] after[b],
                ) by {
                    if b < j {
                        assert(text_le(before[a], before[b]));
                    } else if b == j {
                        assert(after[a] == before[a]);
                    } else if a < j {
                        assert(after[b] == before[b - 1]);
                        assert(text_le(before[a], p@));
                        assert(text_le(p@, before[b - 1]));
                        lemma_text_le_transitive(before[a], p@, before[b - 1]);
                    } else if a == j {
                        assert(after[b] == before[b - 1]);
                    } else {
                        assert(after[a] == before[a - 1]);
                        assert(after[b] == before[b - 1]);
                        assert(text_le(before[a - 1], before[b - 1]));
                    }
                }
                after.to_multiset_ensures();
                assert(after.remove(j as int) =~= before);
                assert(after[j as int] == p@);
                assert(after.to_multiset() =~= before.to_multiset().insert(p@));
                before.to_multiset_ensures();
                assert(pred(p@));
                assert(paths.deep_view().take(i + 1).filter(pred) == paths.deep_view().take(
                    i as int,
                ).filter(pred).push(p@));
                let prev = paths.deep_view().take(i as int).filter(pred);
                prev.to_multiset_ensures();
                assert(prev.push(p@).to_multiset() =~= prev.to_multiset().insert(p@));
                assert(before.to_multiset() == prev.to_multiset());
                assert(out.deep_view().to_multiset() == paths.deep_view().take(i + 1).filter(
                    pred,
                ).to_multiset());
            }
        } else {
            assert(!pred(p@));
            assert(paths.deep_view().take(i + 1).filter(pred) == paths.deep_view().take(
                i as int,
            ).filter(pred));
        }
    }
    assert(paths.deep_view().take(n as int) =~= paths.deep_view());
    out
}

} // verus!
