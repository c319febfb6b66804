//! Where a stored file lives: the `<id>.<extension>` name it is stored under,
//! and the guarded join of a client-supplied name onto the storage root. The
//! join refuses any name that could escape the root.

use vstd::prelude::*;
use crate::bytes::{is_alnum_byte, all_alnum, push_bytes};

verus! {

/// The stored name for an identifier and an extension token: `<id>.<ext>`.
pub open spec fn stored_name_spec(id: Seq<u8>, ext: Seq<u8>) -> Seq<u8> {
    id + seq!['.' as u8] + ext
}

/// A name that is safe to join under the storage root: it is non-empty, does
/// not start with a dot (which also rules out `.` and `..`), and contains no
/// path separator and no NUL byte.
pub open spec fn is_safe_name(n: Seq<u8>) -> bool {
    &&& n.len() >= 1
    &&& n[0] != ('.' as u8)
    &&& forall|i: int| 0 <= i < n.len() ==> #[trigger] n[i] != ('/' as u8) && n[i] != (
        '\\' as u8) && n[i] != 0u8
}

/// The path of a safe name under a root directory: `<root>/<name>`.
pub open spec fn joined_spec(root: Seq<u8>, name: Seq<u8>) -> Seq<u8> {
    root + seq!['/' as u8] + name
}

/// A stored name built from a non-empty alphanumeric identifier and a dot-free,
/// separator-free extension is safe to join under the root.
pub proof fn lemma_stored_name_safe(id: Seq<u8>, ext: Seq<u8>)
    requires
        id.len() >= 1,
        all_alnum(id),
        forall|i: int| 0 <= i < ext.len() ==> ext[i] != ('.' as u8) && ext[i] != ('/' as u8)
            && ext[i] != ('\\' as u8) && ext[i] != 0u8,
    ensures
        is_safe_name(stored_name_spec(id, ext)),
{
    let n = stored_name_spec(id, ext);
    assert(n[0] == id[0]);
    assert(is_alnum_byte(id[0]));
    assert forall|i: int| 0 <= i < n.len() implies #[trigger] n[i] != ('/' as u8) && n[i] != (
        '\\' as u8) && n[i] != 0u8 by {
        if i < id.len() {
            assert(n[i] == id[i]);
            assert(is_alnum_byte(id[i]));
        } else if i == id.len() {
            assert(n[i] == ('.' as u8));
        } else {
            assert(n[i] == ext[i - id.len() - 1]);
        }
    }
}

/// The length of the longest alphanumeric prefix of `s`.
pub open spec fn alnum_prefix_len(s: Seq<u8>) -> nat
    decreases s.len(),
{
    if s.len() == 0 || !is_alnum_byte(s[0]) {
        0
    } else {
        1 + alnum_prefix_len(s.skip(1))
    }
}

/// The identifier part of a stored name: its longest alphanumeric prefix.
pub open spec fn id_part(k: Seq<u8>) -> Seq<u8> {
    k.take(alnum_prefix_len(k) as int)
}

/// The identifier part of `<id>.<ext>` is `id` again, for an alphanumeric
/// identifier: the dot ends the prefix.
pub proof fn lemma_id_part_of_stored_name(id: Seq<u8>, ext: Seq<u8>)
    requires
        all_alnum(id),
    ensures
        alnum_prefix_len(stored_name_spec(id, ext)) == id.len(),
        id_part(stored_name_spec(id, ext)) == id,
    decreases id.len(),
{
    let n = stored_name_spec(id, ext);
    if id.len() == 0 {
        assert(n[0] == ('.' as u8));
        assert(!is_alnum_byte(n[0]));
        assert(id_part(n) =~= id);
    } else {
        assert(n[0] == id[0]);
        assert(is_alnum_byte(id[0]));
        assert(n.skip(1) =~= stored_name_spec(id.skip(1), ext));
        assert(all_alnum(id.skip(1)));
        lemma_id_part_of_stored_name(id.skip(1), ext);
        assert(alnum_prefix_len(n) == 1 + id.skip(1).len());
        assert(id_part(n) =~= id);
    }
}

/// Builds the stored name `<id>.<ext>`.
pub fn stored_name(id: &[u8], ext: &[u8]) -> (r: Vec<u8>)
    ensures
        r@ == stored_name_spec(id@, ext@),
{
    let mut out: Vec<u8> = Vec::new();
    push_bytes(&mut out, id);
    out.push('.' as u8);
    push_bytes(&mut out, ext);
    assert(out@ =~= stored_name_spec(id@, ext@));
    out
}

/// Decides whether a client-supplied name is safe to join under the root.
pub fn check_safe_name(n: &[u8]) -> (r: bool)
    ensures
        r == is_safe_name(n@),
{
    if n.len() == 0 {
        return false;
    }
    if n[0] == ('.' as u8) {
        return false;
    }
    let mut i: usize = 0;
    while i < n.len()
        invariant
            i <= n@.len(),
            forall|j: int| 0 <= j < i ==> #[trigger] n@[j] != ('/' as u8) && n@[j] != ('\\' as u8)
                && n@[j] != 0u8,
        decreases n@.len() - i,
    {
        let b = n[i];
        if b == ('/' as u8) || b == ('\\' as u8) || b == 0 {
            return false;
        }
        i = i + 1;
    }
    true
}

/// Joins a name under the storage root, refusing names that could escape it:
/// the result is `Some(<root>/<name>)` exactly when the name is safe.
pub fn join_under_root(root: &[u8], name: &[u8]) -> (r: Option<Vec<u8>>)
    ensures
        match r {
            Some(p) => is_safe_name(name@) && p@ == joined_spec(root@, name@),
            None => !is_safe_name(name@),
        },
{
    if !check_safe_name(name) {
        return None;
    }
    let mut out: Vec<u8> = Vec::new();
    push_bytes(&mut out, root);
    out.push('/' as u8);
    push_bytes(&mut out, name);
    assert(out@ =~= joined_spec(root@, name@));
    Some(out)
}

} // verus!
