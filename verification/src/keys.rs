use vstd::prelude::*;

verus! {

/// The indices of the keys pressed in the current frame but not in the
/// previous one, in increasing order: the release-to-press edges, each the
/// occasion for exactly one audio cue.
pub open spec fn spec_edges(prev: Seq<bool>, cur: Seq<bool>) -> Seq<usize>
    decreases cur.len(),
{
    if cur.len() == 0 {
        Seq::empty()
    } else {
        let rest = spec_edges(prev, cur.drop_last());
        if cur.last() && !prev[cur.len() - 1] {
            rest.push((cur.len() - 1) as usize)
        } else {
            rest
        }
    }
}

/// The previous frame's key states, kept so that a press can be told from a
/// key merely remaining held.
pub struct KeyTracker {
    pub down: Vec<bool>,
}

impl KeyTracker {
    /// Before the first frame no key is down, so every key reported down in
    /// the first frame counts as newly pressed.
    pub fn new(n: usize) -> (t: KeyTracker)
        ensures
            t.down@.len() == n,
            forall|i: int| 0 <= i < n ==> !t.down@[i],
    {
        let mut down: Vec<bool> = Vec::new();
        let mut i: usize = 0;
        while i < n
            invariant
                i <= n,
                down@.len() == i,
                forall|j: int| 0 <= j < i ==> !down@[j],
            decreases n - i,
        {
            down.push(false);
            i = i + 1;
        }
        KeyTracker { down }
    }

    /// Record one frame's key states and hand back the newly pressed keys, in
    /// increasing index order; a key already down in the previous frame is
    /// not among them, however long it stays held.
    pub fn observe(&mut self, current: &Vec<bool>) -> (pressed: Vec<usize>)
        requires
            current@.len() == old(self).down@.len(),
        ensures
            final(self).down@ == current@,
            pressed@ == spec_edges(old(self).down@, current@),
    {
        let mut pressed: Vec<usize> = Vec::new();
        let mut i: usize = 0;
        while i < current.len()
            invariant
                i <= current@.len(),
                current@.len() == self.down@.len(),
                self.down@ == old(self).down@,
                pressed@ == spec_edges(self.down@, current@.take(i as int)),
            decreases current@.len() - i,
        {
            if current[i] && !self.down[i] {
                pressed.push(i);
            }
            i = i + 1;
            assert(current@.take(i as int).drop_last() =~= current@.take(i - 1));
        }
        assert(current@.take(current@.len() as int) =~= current@);
        let mut now: Vec<bool> = Vec::new();
        let mut j: usize = 0;
        while j < current.len()
            invariant
                j <= current@.len(),
                now@ == current@.take(j as int),
            decreases current@.len() - j,
        {
            now.push(current[j]);
            j = j + 1;
            assert(current@.take(j as int) =~= current@.take(j - 1).push(current@[j - 1]));
        }
        assert(current@.take(current@.len() as int) =~= current@);
        self.down = now;
        pressed
    }
}

/// Every element of the edge sequence is a release-to-press transition and
/// every such transition is an element: cues and edges are the same events.
pub proof fn lemma_edges_exactly(prev: Seq<bool>, cur: Seq<bool>)
    requires
        cur.len() <= prev.len(),
        prev.len() <= usize::MAX,
    ensures
        forall|k: usize|
            #[trigger] spec_edges(prev, cur).contains(k) <==> (k < cur.len() && cur[k as int]
                && !prev[k as int]),
    decreases cur.len(),
{
    if cur.len() == 0 {
    } else {
        let sub = cur.drop_last();
        lemma_edges_exactly(prev, sub);
        let rest = spec_edges(prev, sub);
        let whole = spec_edges(prev, cur);
        let lastidx = (cur.len() - 1) as usize;
        let edge_at_last = cur.last() && !prev[cur.len() - 1];
        assert forall|k: usize|
            whole.contains(k) <==> (k < cur.len() && cur[k as int] && !prev[k as int]) by {
            if whole.contains(k) {
                let w = choose|w: int| 0 <= w < whole.len() && whole[w] == k;
                if edge_at_last {
                    assert(whole == rest.push(lastidx));
                    if w < rest.len() {
                        assert(rest[w] == k);
                        assert(rest.contains(k));
                        assert(k < sub.len() && sub[k as int] && !prev[k as int]);
                        assert(cur[k as int] == sub[k as int]);
                    } else {
                        assert(k == lastidx);
                    }
                } else {
                    assert(whole == rest);
                    assert(rest.contains(k));
                    assert(k < sub.len() && sub[k as int] && !prev[k as int]);
                    assert(cur[k as int] == sub[k as int]);
                }
            }
            if k < cur.len() && cur[k as int] && !prev[k as int] {
                if k == lastidx {
                    assert(cur[k as int] == cur.last());
                    assert(edge_at_last);
                    assert(whole == rest.push(lastidx));
                    assert(whole[rest.len() as int] == lastidx);
                    assert(whole.contains(k));
                } else {
                    assert(k < sub.len());
                    assert(sub[k as int] == cur[k as int]);
                    assert(rest.contains(k));
                    let w = choose|w: int| 0 <= w < rest.len() && rest[w] == k;
                    if edge_at_last {
                        assert(whole == rest.push(lastidx));
                        assert(whole[w] == k);
                    } else {
                        assert(whole == rest);
                    }
                    assert(whole.contains(k));
                }
            }
        }
    }
}

/// The edge sequence is strictly increasing, so no key is counted twice in
/// one frame: as many cues as distinct newly pressed keys.
pub proof fn lemma_edges_sorted(prev: Seq<bool>, cur: Seq<bool>)
    requires
        cur.len() <= usize::MAX,
    ensures
        forall|a: int, b: int|
            0 <= a < b < spec_edges(prev, cur).len() ==> spec_edges(prev, cur)[a]
                < spec_edges(prev, cur)[b],
        forall|a: int|
            0 <= a < spec_edges(prev, cur).len() ==> spec_edges(prev, cur)[a] < cur.len(),
    decreases cur.len(),
{
    if cur.len() == 0 {
    } else {
        let sub = cur.drop_last();
        lemma_edges_sorted(prev, sub);
        let rest = spec_edges(prev, sub);
        let whole = spec_edges(prev, cur);
        if cur.last() && !prev[cur.len() - 1] {
            let lastidx = (cur.len() - 1) as usize;
            assert(whole == rest.push(lastidx));
            assert forall|a: int| 0 <= a < whole.len() implies whole[a] < cur.len() by {
                if a < rest.len() {
                    assert(whole[a] == rest[a]);
                    assert(rest[a] < sub.len());
                } else {
                    assert(whole[a] == lastidx);
                }
            }
            assert forall|a: int, b: int| 0 <= a < b < whole.len() implies whole[a] < whole[b] by {
                if b < rest.len() {
                    assert(whole[a] == rest[a] && whole[b] == rest[b]);
                } else {
                    assert(whole[b] == lastidx);
                    assert(whole[a] == rest[a] && rest[a] < sub.len());
                }
            }
        } else {
            assert(whole == rest);
            assert forall|a: int| 0 <= a < whole.len() implies whole[a] < cur.len() by {
                assert(whole[a] == rest[a]);
                assert(rest[a] < sub.len());
            }
        }
    }
}

/// In any one frame the number of cues equals the number of distinct keys
/// whose state went from released to pressed, not the number of keys down.
pub proof fn lemma_frame_cue_count(prev: Seq<bool>, cur: Seq<bool>)
    requires
        cur.len() <= prev.len(),
        prev.len() <= usize::MAX,
    ensures
        spec_edges(prev, cur).len() == Set::new(
            |k: usize| k < cur.len() && cur[k as int] && !prev[k as int],
        ).len(),
{
    broadcast use vstd::set::group_set_axioms;

    let edges = spec_edges(prev, cur);
    lemma_edges_exactly(prev, cur);
    lemma_edges_sorted(prev, cur);
    assert forall|a: int, b: int|
        0 <= a < edges.len() && 0 <= b < edges.len() && a != b implies edges[a] != edges[b] by {
        if a < b {
            assert(edges[a] < edges[b]);
        } else {
            assert(edges[b] < edges[a]);
        }
    }
    edges.unique_seq_to_set();
    assert(edges.to_set() =~= Set::new(
        |k: usize| k < cur.len() && cur[k as int] && !prev[k as int],
    ));
}

/// How many cues key `k` earns over a whole run of frames that starts from
/// key state `init`: one for each frame whose edge sequence lists `k`.
pub open spec fn cues_for_key(init: Seq<bool>, frames: Seq<Seq<bool>>, k: usize) -> nat
    decreases frames.len(),
{
    if frames.len() == 0 {
        0
    } else {
        (if spec_edges(init, frames.first()).contains(k) {
            1nat
        } else {
            0nat
        }) + cues_for_key(frames.first(), frames.drop_first(), k)
    }
}

/// How often key `k` actually goes from released to pressed over the run:
/// one for each frame that reports it down when the state before did not.
pub open spec fn presses_of_key(init: Seq<bool>, frames: Seq<Seq<bool>>, k: usize) -> nat
    decreases frames.len(),
{
    if frames.len() == 0 {
        0
    } else {
        (if frames.first()[k as int] && !init[k as int] {
            1nat
        } else {
            0nat
        }) + presses_of_key(frames.first(), frames.drop_first(), k)
    }
}

/// For every run of key-press events, a key is cued exactly as often as it
/// goes from released to pressed — not once per frame it remains held.
pub proof fn lemma_cues_equal_presses(init: Seq<bool>, frames: Seq<Seq<bool>>, k: usize)
    requires
        init.len() <= usize::MAX,
        k < init.len(),
        forall|t: int| 0 <= t < frames.len() ==> (#[trigger] frames[t]).len() == init.len(),
    ensures
        cues_for_key(init, frames, k) == presses_of_key(init, frames, k),
    decreases frames.len(),
{
    if frames.len() == 0 {
    } else {
        let f0 = frames.first();
        assert(frames[0] == f0);
        lemma_edges_exactly(init, f0);
        assert(spec_edges(init, f0).contains(k) <==> (f0[k as int] && !init[k as int]));
        assert forall|t: int| 0 <= t < frames.drop_first().len() implies (#[trigger] frames.drop_first()[t]).len()
            == f0.len() by {
            assert(frames.drop_first()[t] == frames[t + 1]);
        }
        lemma_cues_equal_presses(f0, frames.drop_first(), k);
    }
}

/// A key that is down in every frame of a run, having been up before it,
/// is cued exactly once, however long the run holds it.
pub proof fn lemma_held_key_cues_once(init: Seq<bool>, frames: Seq<Seq<bool>>, k: usize)
    requires
        init.len() <= usize::MAX,
        k < init.len(),
        !init[k as int],
        frames.len() > 0,
        forall|t: int| 0 <= t < frames.len() ==> (#[trigger] frames[t]).len() == init.len(),
        forall|t: int| 0 <= t < frames.len() ==> (#[trigger] frames[t])[k as int],
    ensures
        cues_for_key(init, frames, k) == 1,
    decreases frames.len(),
{
    lemma_cues_equal_presses(init, frames, k);
    lemma_held_presses_once(init, frames, k);
}

/// A key down throughout a run, up before it, records exactly one
/// release-to-press transition.
proof fn lemma_held_presses_once(init: Seq<bool>, frames: Seq<Seq<bool>>, k: usize)
    requires
        k < init.len(),
        !init[k as int],
        frames.len() > 0,
        forall|t: int| 0 <= t < frames.len() ==> (#[trigger] frames[t]).len() == init.len(),
        forall|t: int| 0 <= t < frames.len() ==> (#[trigger] frames[t])[k as int],
    ensures
        presses_of_key(init, frames, k) == 1,
{
    let f0 = frames.first();
    assert(frames[0] == f0);
    assert(f0[k as int] && !init[k as int]);
    assert forall|t: int| 0 <= t < frames.drop_first().len() implies (#[trigger] frames.drop_first()[t]).len()
        == f0.len() by {
        assert(frames.drop_first()[t] == frames[t + 1]);
    }
    assert forall|t: int| 0 <= t < frames.drop_first().len() implies (#[trigger] frames.drop_first()[t])[k as int] by {
        assert(frames.drop_first()[t] == frames[t + 1]);
    }
    lemma_held_down_no_presses(f0, frames.drop_first(), k);
    assert(presses_of_key(init, frames, k) == 1 + presses_of_key(f0, frames.drop_first(), k));
}

/// While a key stays down from one frame to every next, no further
/// release-to-press transition of it is recorded.
proof fn lemma_held_down_no_presses(init: Seq<bool>, frames: Seq<Seq<bool>>, k: usize)
    requires
        k < init.len(),
        init[k as int],
        forall|t: int| 0 <= t < frames.len() ==> (#[trigger] frames[t]).len() == init.len(),
        forall|t: int| 0 <= t < frames.len() ==> (#[trigger] frames[t])[k as int],
    ensures
        presses_of_key(init, frames, k) == 0,
    decreases frames.len(),
{
    if frames.len() == 0 {
    } else {
        let f0 = frames.first();
        assert(frames[0] == f0);
        assert forall|t: int| 0 <= t < frames.drop_first().len() implies (#[trigger] frames.drop_first()[t]).len()
            == f0.len() by {
            assert(frames.drop_first()[t] == frames[t + 1]);
        }
        assert forall|t: int| 0 <= t < frames.drop_first().len() implies (#[trigger] frames.drop_first()[t])[k as int] by {
            assert(frames.drop_first()[t] == frames[t + 1]);
        }
        lemma_held_down_no_presses(f0, frames.drop_first(), k);
    }
}

/// Held-key suppression: a key that goes down is cued in the frame of the
/// press and stays silent while it remains down in the frame after.
pub proof fn lemma_held_key_single_cue(prev: Seq<bool>, c1: Seq<bool>, c2: Seq<bool>, k: usize)
    requires
        prev.len() == c1.len(),
        c1.len() == c2.len(),
        c1.len() <= usize::MAX,
        k < c1.len(),
        !prev[k as int],
        c1[k as int],
        c2[k as int],
    ensures
        spec_edges(prev, c1).contains(k),
        !spec_edges(c1, c2).contains(k),
{
    lemma_edges_exactly(prev, c1);
    lemma_edges_exactly(c1, c2);
}

} // verus!
