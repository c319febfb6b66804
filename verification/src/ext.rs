//! Resolving a client-supplied filename to the dot-free extension token under
//! which an upload is stored. A missing filename, or one without a usable
//! extension, falls back to the default sentinel token.

use vstd::prelude::*;
use crate::bytes::{last_index, lemma_last_index, find_last};

verus! {

/// The dot-free sentinel token used when no extension can be parsed.
pub open spec fn default_ext() -> Seq<u8> {
    seq!['b' as u8, 'i' as u8, 'n' as u8]
}

/// A filename yields an extension when its last dot comes after the last path
/// separator, is not the first byte of the final path component, and is
/// followed by at least one byte. A suffix holding a backslash or a NUL byte
/// is no usable extension token: such a name falls back to the default.
pub open spec fn has_parsable_ext(n: Seq<u8>) -> bool {
    let d = last_index(n, '.' as u8);
    let s = last_index(n, '/' as u8);
    &&& d > s + 1
    &&& d + 1 < n.len()
    &&& forall|i: int| d < i < n.len() ==> #[trigger] n[i] != ('\\' as u8) && n[i] != 0u8
}

/// The extension token resolved from a supplied filename: the bytes after the
/// last dot of the final path component, or the default sentinel when the name
/// is missing or carries no usable extension.
pub open spec fn ext_of(name: Option<Seq<u8>>) -> Seq<u8> {
    match name {
        Option::None => default_ext(),
        Option::Some(n) => if has_parsable_ext(n) {
            n.subrange(last_index(n, '.' as u8) + 1, n.len() as int)
        } else {
            default_ext()
        },
    }
}

/// The resolved extension is never empty and never contains a dot, a path
/// separator of either kind, or a NUL byte.
pub proof fn lemma_ext_of_clean(name: Option<Seq<u8>>)
    ensures
        ext_of(name).len() >= 1,
        forall|i: int| 0 <= i < ext_of(name).len() ==> ext_of(name)[i] != ('.' as u8)
            && ext_of(name)[i] != ('/' as u8) && ext_of(name)[i] != ('\\' as u8)
            && ext_of(name)[i] != 0u8,
{
    match name {
        Option::None => {}
        Option::Some(n) => {
            if has_parsable_ext(n) {
                lemma_last_index(n, '.' as u8);
                lemma_last_index(n, '/' as u8);
                let d = last_index(n, '.' as u8);
                let s = last_index(n, '/' as u8);
                assert forall|i: int| 0 <= i < ext_of(name).len() implies ext_of(
                    name,
                )[i] != ('.' as u8) && ext_of(name)[i] != ('/' as u8) && ext_of(name)[i] != (
                '\\' as u8) && ext_of(name)[i] != 0u8 by {
                    assert(ext_of(name)[i] == n[d + 1 + i]);
                    assert(n[d + 1 + i] != ('.' as u8));
                    assert(n[d + 1 + i] != ('/' as u8));
                }
            }
        }
    }
}

/// Default extension: a missing filename, or one without a parsable
/// extension, resolves to the default sentinel token rather than failing.
pub proof fn lemma_default_extension(name: Option<Seq<u8>>)
    ensures
        name is None ==> ext_of(name) == default_ext(),
        (name matches Option::Some(n) && !has_parsable_ext(n)) ==> ext_of(name) == default_ext(),
{
}

/// Executable copy of the default extension token.
pub fn default_extension() -> (r: Vec<u8>)
    ensures
        r@ == default_ext(),
{
    let mut v: Vec<u8> = Vec::new();
    v.push('b' as u8);
    v.push('i' as u8);
    v.push('n' as u8);
    assert(v@ =~= default_ext());
    v
}

/// Resolves the extension token for an upload from the filename the client
/// supplied, if any.
pub fn extension_of(filename: Option<&Vec<u8>>) -> (r: Vec<u8>)
    ensures
        match filename {
            Option::Some(n) => r@ == ext_of(Option::Some(n@)),
            Option::None => r@ == ext_of(Option::None),
        },
{
    match filename {
        Option::None => default_extension(),
        Option::Some(n) => {
            let d_opt = find_last(n.as_slice(), '.' as u8);
            let s_opt = find_last(n.as_slice(), '/' as u8);
            proof {
                lemma_last_index(n@, '.' as u8);
                lemma_last_index(n@, '/' as u8);
            }
            let nlen: usize = n.len();
            match d_opt {
                Option::None => default_extension(),
                Option::Some(d) => {
                    assert(d < nlen);
                    let s_plus_one: usize = match s_opt {
                        Option::None => 0,
                        Option::Some(s) => {
                            assert(s < nlen);
                            s + 1
                        },
                    };
                    if d > s_plus_one && d + 1 < nlen {
                        let mut r: Vec<u8> = Vec::new();
                        let mut i: usize = d + 1;
                        let mut clean: bool = true;
                        while i < n.len()
                            invariant
                                d + 1 <= i <= n@.len(),
                                r@ == n@.subrange(d + 1, i as int),
                                clean <==> forall|j: int| d < j < i ==> #[trigger] n@[j] != (
                                '\\' as u8) && n@[j] != 0u8,
                            decreases n@.len() - i,
                        {
                            let b = n[i];
                            if b == ('\\' as u8) || b == 0 {
                                clean = false;
                            }
                            r.push(b);
                            assert(r@ =~= n@.subrange(d + 1, i + 1));
                            i = i + 1;
                        }
                        if clean {
                            assert(has_parsable_ext(n@));
                            r
                        } else {
                            assert(!has_parsable_ext(n@));
                            default_extension()
                        }
                    } else {
                        assert(!has_parsable_ext(n@));
                        default_extension()
                    }
                }
            }
        }
    }
}

} // verus!
