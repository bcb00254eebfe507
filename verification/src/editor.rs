use vstd::prelude::*;
use crate::document::Document;
use crate::document::OpenOutcome;
use crate::document::SavePlan;
use crate::document::spec_apply_open;
use crate::keys::KeyTracker;
use crate::keys::spec_edges;
use crate::save_path::spec_save_target;

verus! {

/// The editor shell's whole state: the document, the previous frame's key
/// states, and the most recently pressed key, shown in the status line.
pub struct Editor {
    pub doc: Document,
    pub keys: KeyTracker,
    pub last_key: Option<usize>,
}

impl Editor {
    /// A freshly started editor: empty document, no file, every one of the
    /// `n_keys` keys up, nothing pressed yet.
    pub fn new(n_keys: usize) -> (e: Editor)
        ensures
            e.doc.text@ == Seq::<char>::empty(),
            e.doc.path is None,
            e.keys.down@.len() == n_keys,
            forall|i: int| 0 <= i < n_keys ==> !e.keys.down@[i],
            e.last_key is None,
    {
        Editor { doc: Document::new(), keys: KeyTracker::new(n_keys), last_key: None }
    }

    /// Handle one frame's key states. The result lists the keys to cue, one
    /// per release-to-press edge in increasing index order; a key merely held
    /// since the previous frame is cued no further time. The last newly
    /// pressed key, if any, becomes the one the status line shows. The
    /// document is not touched.
    pub fn frame_keys(&mut self, current: &Vec<bool>) -> (cues: Vec<usize>)
        requires
            current@.len() == old(self).keys.down@.len(),
        ensures
            cues@ == spec_edges(old(self).keys.down@, current@),
            final(self).keys.down@ == current@,
            final(self).doc == old(self).doc,
            cues@.len() > 0 ==> final(self).last_key == Some(cues@.last()),
            cues@.len() == 0 ==> final(self).last_key == old(self).last_key,
    {
        let cues = self.keys.observe(current);
        if cues.len() > 0 {
            self.last_key = Some(cues[cues.len() - 1]);
        }
        cues
    }

    /// Forward the outcome of an Open request to the document; the key state
    /// and the status line are unaffected.
    pub fn apply_open(&mut self, outcome: OpenOutcome)
        ensures
            final(self).doc == spec_apply_open(old(self).doc, outcome),
            outcome matches OpenOutcome::Loaded { path, content } ==> final(self).doc.text@
                == content@ && final(self).doc.path == Some(path),
            !(outcome is Loaded) ==> final(self).doc == old(self).doc,
            final(self).keys == old(self).keys,
            final(self).last_key == old(self).last_key,
    {
        self.doc.apply_open(outcome);
    }

    /// Decide what Save writes for the document as it stands; cancellation
    /// plans nothing.
    pub fn plan_save(&self, chosen: Option<Vec<u8>>) -> (plan: Option<SavePlan>)
        ensures
            plan is Some <==> chosen is Some,
            chosen matches Some(p) ==> plan matches Some(sp) && sp.path@ == spec_save_target(p@)
                && sp.contents@ == self.doc.text@,
    {
        self.doc.plan_save(chosen)
    }
}

} // verus!
