use vstd::prelude::*;

verus! {

/// The byte this library recognises as the path-component separator.
pub const SEPARATOR: u8 = 47;

/// The byte that introduces a file-name extension.
pub const DOT: u8 = 46;

/// Index of the first byte of a path's final component: one past the last
/// separator, or 0 when the path holds none.
pub open spec fn file_name_start(p: Seq<u8>) -> int
    decreases p.len(),
{
    if p.len() == 0 {
        0
    } else if p.last() == SEPARATOR {
        p.len() as int
    } else {
        file_name_start(p.drop_last())
    }
}

/// Whether the final component carries an extension: a dot strictly after the
/// component's first byte, so a name that merely begins with a dot (a hidden
/// file) counts as having none.
pub open spec fn has_extension(p: Seq<u8>) -> bool {
    exists|i: int| file_name_start(p) < i < p.len() && p[i] == DOT
}

/// The bytes of ".txt", the extension appended to an extensionless choice.
pub open spec fn txt_suffix() -> Seq<u8> {
    seq![DOT, 116u8, 120u8, 116u8]
}

/// Where a save directed at `p` actually lands: at `p` itself when its final
/// component is empty or already carries an extension, otherwise at `p` with
/// ".txt" appended.
pub open spec fn spec_save_target(p: Seq<u8>) -> Seq<u8> {
    if file_name_start(p) < p.len() && !has_extension(p) {
        p + txt_suffix()
    } else {
        p
    }
}

/// A chosen path whose final component is there but carries no extension is
/// saved with ".txt" appended.
pub proof fn lemma_extensionless_choice_gets_txt(p: Seq<u8>)
    requires
        file_name_start(p) < p.len(),
        !has_extension(p),
    ensures
        spec_save_target(p) == p + txt_suffix(),
{
}

/// A chosen path whose final component already carries an extension is saved
/// untouched.
pub proof fn lemma_extension_is_kept(p: Seq<u8>)
    requires
        has_extension(p),
    ensures
        spec_save_target(p) == p,
{
}

/// Normalise a path chosen in the save dialog, appending ".txt" exactly when
/// the final component is non-empty and has no extension.
pub fn save_target(path: Vec<u8>) -> (r: Vec<u8>)
    ensures
        r@ == spec_save_target(path@),
{
    let ghost orig: Seq<u8> = path@;
    let n: usize = scan_file_name_start(&path);
    let len: usize = path.len();
    if n == len {
        return path;
    }
    let mut i: usize = n + 1;
    while i < len
        invariant
            n < i <= len,
            len == path@.len(),
            n == file_name_start(path@),
            forall|j: int| n < j < i ==> path@[j] != DOT,
        decreases len - i,
    {
        if path[i] == DOT {
            assert(has_extension(path@));
            return path;
        }
        i = i + 1;
    }
    assert(!has_extension(path@));
    let mut out = path;
    out.push(DOT);
    out.push(116);
    out.push(120);
    out.push(116);
    assert(out@ =~= orig + txt_suffix());
    out
}

/// Find the start of the final component by scanning for the last separator.
fn scan_file_name_start(path: &Vec<u8>) -> (n: usize)
    ensures
        n == file_name_start(path@),
        n <= path@.len(),
{
    let mut n: usize = 0;
    let mut i: usize = 0;
    while i < path.len()
        invariant
            n <= i <= path@.len(),
            n == file_name_start(path@.take(i as int)),
        decreases path@.len() - i,
    {
        if path[i] == SEPARATOR {
            n = i + 1;
        }
        i = i + 1;
        assert(path@.take(i as int).drop_last() =~= path@.take(i - 1));
    }
    assert(path@.take(path@.len() as int) =~= path@);
    n
}

} // verus!
