//! Rendering the info page for a stored file: the page template has its
//! placeholders substituted with the file's name, its download URL and a
//! human-readable size. Sizes are humanized by the `bytesize` crate.

use vstd::prelude::*;
use vstd::slice::{slice_subrange, slice_to_vec};
use crate::bytes::{bytes_eq, push_bytes, dec_u64};

verus! {

/// Leftmost, non-overlapping replacement of `pat` by `rep` in `s`; replaced
/// text is not scanned again. An empty pattern replaces nothing.
pub open spec fn replace_all(s: Seq<u8>, pat: Seq<u8>, rep: Seq<u8>) -> Seq<u8>
    decreases s.len(),
{
    if pat.len() == 0 || s.len() < pat.len() {
        s
    } else if s.take(pat.len() as int) == pat {
        rep + replace_all(s.skip(pat.len() as int), pat, rep)
    } else {
        seq![s[0]] + replace_all(s.skip(1), pat, rep)
    }
}

/// Replaces every occurrence of `pat` in `s` by `rep`, leftmost first,
/// without rescanning replaced text.
pub fn replace_all_bytes(s: &[u8], pat: &[u8], rep: &[u8]) -> (r: Vec<u8>)
    ensures
        r@ == replace_all(s@, pat@, rep@),
{
    let plen = pat.len();
    if plen == 0 {
        return slice_to_vec(s);
    }
    let mut out: Vec<u8> = Vec::new();
    let mut i: usize = 0;
    proof {
        assert(s@.skip(0) =~= s@);
        assert(out@ =~= Seq::<u8>::empty());
        assert(Seq::<u8>::empty() + replace_all(s@, pat@, rep@) =~= replace_all(s@, pat@, rep@));
    }
    while i < s.len()
        invariant
            plen == pat@.len(),
            plen >= 1,
            i <= s@.len(),
            replace_all(s@, pat@, rep@) == out@ + replace_all(s@.skip(i as int), pat@, rep@),
        decreases s@.len() - i,
    {
        let ghost rest = s@.skip(i as int);
        if plen <= s.len() - i && bytes_eq(slice_subrange(s, i, i + plen), pat) {
            proof {
                assert(rest.take(plen as int) =~= s@.subrange(i as int, i + plen));
                assert(rest.skip(plen as int) =~= s@.skip(i + plen));
                assert(replace_all(rest, pat@, rep@) == rep@ + replace_all(
                    s@.skip(i + plen),
                    pat@,
                    rep@,
                ));
            }
            push_bytes(&mut out, rep);
            i = i + plen;
        } else {
            proof {
                if plen <= s@.len() - i {
                    assert(rest.take(plen as int) =~= s@.subrange(i as int, i + plen));
                    assert(rest.skip(1) =~= s@.skip(i + 1));
                    assert(replace_all(rest, pat@, rep@) == seq![rest[0]] + replace_all(
                        s@.skip(i + 1),
                        pat@,
                        rep@,
                    ));
                } else {
                    assert(replace_all(rest, pat@, rep@) == rest);
                    assert(s@.skip(i + 1).len() < plen);
                    assert(replace_all(s@.skip(i + 1), pat@, rep@) == s@.skip(i + 1));
                    assert(rest =~= seq![rest[0]] + s@.skip(i + 1));
                }
                assert(out@ + replace_all(rest, pat@, rep@) == (out@ + seq![s@[i as int]])
                    + replace_all(s@.skip(i + 1), pat@, rep@));
            }
            out.push(s[i]);
            i = i + 1;
        }
    }
    proof {
        assert(s@.skip(s@.len() as int) =~= Seq::<u8>::empty());
        assert(replace_all(s@.skip(s@.len() as int), pat@, rep@) =~= Seq::<u8>::empty());
        assert(out@ =~= out@ + Seq::<u8>::empty());
    }
    out
}

/// The bytes of the placeholder `{{filename}}`.
pub open spec fn pat_filename() -> Seq<u8> {
    seq!['{' as u8, '{' as u8, 'f' as u8, 'i' as u8, 'l' as u8, 'e' as u8, 'n' as u8, 'a' as u8, 'm' as u8, 'e' as u8, '}' as u8, '}' as u8]
}

/// The bytes of the placeholder `{{download_url}}`.
pub open spec fn pat_download_url() -> Seq<u8> {
    seq!['{' as u8, '{' as u8, 'd' as u8, 'o' as u8, 'w' as u8, 'n' as u8, 'l' as u8, 'o' as u8, 'a' as u8, 'd' as u8, '_' as u8, 'u' as u8, 'r' as u8, 'l' as u8, '}' as u8, '}' as u8]
}

/// The bytes of the placeholder `{{filesize}}`.
pub open spec fn pat_filesize() -> Seq<u8> {
    seq!['{' as u8, '{' as u8, 'f' as u8, 'i' as u8, 'l' as u8, 'e' as u8, 's' as u8, 'i' as u8, 'z' as u8, 'e' as u8, '}' as u8, '}' as u8]
}

/// The download URL for a stored name: `/dl/<name>`.
pub open spec fn dl_url_spec(name: Seq<u8>) -> Seq<u8> {
    seq!['/' as u8, 'd' as u8, 'l' as u8, '/' as u8] + name
}

/// Builds the download URL `/dl/<name>`.
pub fn dl_url(name: &[u8]) -> (r: Vec<u8>)
    ensures
        r@ == dl_url_spec(name@),
{
    let mut out: Vec<u8> = Vec::new();
    out.push('/' as u8);
    out.push('d' as u8);
    out.push('l' as u8);
    out.push('/' as u8);
    push_bytes(&mut out, name);
    assert(out@ =~= dl_url_spec(name@));
    out
}

/// What `bytesize` renders for a byte count: a human-readable size with a
/// binary prefix, such as `1.0 MiB`.
pub uninterp spec fn human_size_of(n: u64) -> Seq<u8>;

/// Relies on the `Display` impl of `bytesize::ByteSize`, whose default style
/// is the binary (IEC) one: the rendering depends on the byte count alone, and
/// a count below 1024 is rendered as the count in decimal followed by ` B`.
#[verifier::external_body]
fn humanize_size(n: u64) -> (r: Vec<u8>)
    ensures
        r@ == human_size_of(n),
        n < 1024 ==> r@ == dec_u64(n as nat) + seq![' ' as u8, 'B' as u8],
{
    bytesize::ByteSize(n).to_string().into_bytes()
}

/// The rendered info page: the template with `{{filename}}` replaced by the
/// stored name, `{{download_url}}` by `/dl/<name>`, and `{{filesize}}` by the
/// humanized size.
pub open spec fn info_page_spec(template: Seq<u8>, name: Seq<u8>, size: u64) -> Seq<u8> {
    replace_all(
        replace_all(replace_all(template, pat_filename(), name), pat_download_url(), dl_url_spec(name)),
        pat_filesize(),
        human_size_of(size),
    )
}

/// Executable copy of the `{{filename}}` placeholder.
fn pat_filename_exec() -> (r: Vec<u8>)
    ensures
        r@ == pat_filename(),
{
    let mut v: Vec<u8> = Vec::new();
    v.push('{' as u8);
    v.push('{' as u8);
    v.push('f' as u8);
    v.push('i' as u8);
    v.push('l' as u8);
    v.push('e' as u8);
    v.push('n' as u8);
    v.push('a' as u8);
    v.push('m' as u8);
    v.push('e' as u8);
    v.push('}' as u8);
    v.push('}' as u8);
    assert(v@ =~= pat_filename());
    v
}

/// Executable copy of the `{{download_url}}` placeholder.
fn pat_download_url_exec() -> (r: Vec<u8>)
    ensures
        r@ == pat_download_url(),
{
    let mut v: Vec<u8> = Vec::new();
    v.push('{' as u8);
    v.push('{' as u8);
    v.push('d' as u8);
    v.push('o' as u8);
    v.push('w' as u8);
    v.push('n' as u8);
    v.push('l' as u8);
    v.push('o' as u8);
    v.push('a' as u8);
    v.push('d' as u8);
    v.push('_' as u8);
    v.push('u' as u8);
    v.push('r' as u8);
    v.push('l' as u8);
    v.push('}' as u8);
    v.push('}' as u8);
    assert(v@ =~= pat_download_url());
    v
}

/// Executable copy of the `{{filesize}}` placeholder.
fn pat_filesize_exec() -> (r: Vec<u8>)
    ensures
        r@ == pat_filesize(),
{
    let mut v: Vec<u8> = Vec::new();
    v.push('{' as u8);
    v.push('{' as u8);
    v.push('f' as u8);
    v.push('i' as u8);
    v.push('l' as u8);
    v.push('e' as u8);
    v.push('s' as u8);
    v.push('i' as u8);
    v.push('z' as u8);
    v.push('e' as u8);
    v.push('}' as u8);
    v.push('}' as u8);
    assert(v@ =~= pat_filesize());
    v
}

/// Renders the info page for a stored file from the page template, the stored
/// name and the file's size in bytes.
pub fn render_info_page(template: &[u8], name: &[u8], size: u64) -> (r: Vec<u8>)
    ensures
        r@ == info_page_spec(template@, name@, size),
{
    let pat_fn = pat_filename_exec();
    let pat_url = pat_download_url_exec();
    let pat_sz = pat_filesize_exec();
    let url = dl_url(name);
    let size_text = humanize_size(size);
    let step1 = replace_all_bytes(template, pat_fn.as_slice(), name);
    let step2 = replace_all_bytes(step1.as_slice(), pat_url.as_slice(), url.as_slice());
    let step3 = replace_all_bytes(step2.as_slice(), pat_sz.as_slice(), size_text.as_slice());
    step3
}

} // verus!
