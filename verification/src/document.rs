use vstd::prelude::*;
use crate::save_path::save_target;
use crate::save_path::spec_save_target;

verus! {

/// The in-memory state of the editor's document: the text shown in the text
/// box and, when the document was loaded from a file, that file's path (held
/// as the path's bytes).
pub struct Document {
    pub text: String,
    pub path: Option<Vec<u8>>,
}

/// How an Open request ended: the dialog was dismissed, the chosen file could
/// not be read, or its full content arrived.
pub enum OpenOutcome {
    Cancelled,
    ReadFailed,
    Loaded { path: Vec<u8>, content: String },
}

/// One pending write: the bytes of the file to create and its full contents.
pub struct SavePlan {
    pub path: Vec<u8>,
    pub contents: String,
}

/// The document an Open request leaves behind: on a loaded file the buffer
/// becomes its content and the path is remembered; a dismissed dialog or a
/// failed read leaves the document exactly as it was.
pub open spec fn spec_apply_open(d: Document, outcome: OpenOutcome) -> Document {
    match outcome {
        OpenOutcome::Loaded { path, content } => Document { text: content, path: Some(path) },
        _ => d,
    }
}

/// What a save of document `d` writes when the dialog returned `chosen`:
/// nothing on cancel, else the buffer verbatim at the normalised path.
pub open spec fn spec_plan_save(d: Document, chosen: Option<Seq<u8>>) -> Option<
    (Seq<u8>, Seq<char>),
> {
    match chosen {
        None => None,
        Some(p) => Some((spec_save_target(p), d.text@)),
    }
}

impl Document {
    /// A freshly started editor holds an empty document with no file attached.
    pub fn new() -> (d: Document)
        ensures
            d.text@ == Seq::<char>::empty(),
            d.path is None,
    {
        Document { text: String::new(), path: None }
    }

    /// Take in the outcome of an Open request. Only a loaded file touches the
    /// document: its content replaces the buffer byte for byte and its path is
    /// remembered; cancellation and read failure change nothing.
    pub fn apply_open(&mut self, outcome: OpenOutcome)
        ensures
            *final(self) == spec_apply_open(*old(self), outcome),
            outcome matches OpenOutcome::Loaded { path, content } ==> final(self).text@
                == content@ && final(self).path == Some(path),
            !(outcome is Loaded) ==> *final(self) == *old(self),
    {
        match outcome {
            OpenOutcome::Loaded { path, content } => {
                self.text = content;
                self.path = Some(path);
            },
            _ => {},
        }
    }

    /// Decide what Save writes: nothing when the dialog was cancelled,
    /// otherwise the buffer verbatim, at the chosen path with ".txt" appended
    /// exactly when its final component is non-empty and extensionless.
    pub fn plan_save(&self, chosen: Option<Vec<u8>>) -> (plan: Option<SavePlan>)
        ensures
            plan is Some <==> chosen is Some,
            chosen matches Some(p) ==> plan matches Some(sp) && sp.path@ == spec_save_target(p@)
                && sp.contents@ == self.text@,
    {
        match chosen {
            None => None,
            Some(p) => Some(SavePlan { path: save_target(p), contents: self.text.clone() }),
        }
    }
}

impl Default for Document {
    /// The document a fresh editor starts with: empty, no file.
    fn default() -> (d: Document)
        ensures
            d.text@ == Seq::<char>::empty(),
            d.path is None,
    {
        Document::new()
    }
}

/// Round trip: whatever document a successful Open of `content` leaves
/// behind, saving it writes `content` back verbatim, at the normalised form
/// of whatever path the save dialog returns.
pub proof fn lemma_open_save_round_trip(
    d: Document,
    path: Vec<u8>,
    content: String,
    chosen: Seq<u8>,
)
    ensures
        spec_plan_save(spec_apply_open(d, OpenOutcome::Loaded { path, content }), Some(chosen))
            == Some((spec_save_target(chosen), content@)),
{
}

} // verus!
