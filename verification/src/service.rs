//! The service core: a file host that assigns each upload a fresh short
//! identifier and stores the payload under `<id>.<extension>`, the decision
//! logic of the raw-download path, and the fixed response texts. The host
//! guarantees that no two uploads share an identifier and that every stored
//! name resolves to exactly the bytes uploaded under it.

use vstd::prelude::*;
use vstd::slice::slice_to_vec;
use crate::bytes::all_alnum;
use crate::ext::{ext_of, extension_of};
use crate::idgen::{IdGen, pow62, lemma_ids_pairwise_distinct};
use crate::json::{error_body, error_body_spec, upload_body, upload_body_spec};
use crate::paths::{
    stored_name, stored_name_spec, is_safe_name, id_part, lemma_stored_name_safe,
    lemma_id_part_of_stored_name,
};
use crate::ext::lemma_ext_of_clean;
use crate::store::{Directory, spec_fetch};

verus! {

/// The bytes of `file was not found`.
pub open spec fn msg_not_found() -> Seq<u8> {
    seq!['f' as u8, 'i' as u8, 'l' as u8, 'e' as u8, ' ' as u8, 'w' as u8, 'a' as u8, 's' as u8, ' ' as u8, 'n' as u8, 'o' as u8, 't' as u8, ' ' as u8, 'f' as u8, 'o' as u8, 'u' as u8, 'n' as u8, 'd' as u8]
}

/// The bytes of `could not find file to dl`.
pub open spec fn msg_page_missing() -> Seq<u8> {
    seq!['c' as u8, 'o' as u8, 'u' as u8, 'l' as u8, 'd' as u8, ' ' as u8, 'n' as u8, 'o' as u8, 't' as u8, ' ' as u8, 'f' as u8, 'i' as u8, 'n' as u8, 'd' as u8, ' ' as u8, 'f' as u8, 'i' as u8, 'l' as u8, 'e' as u8, ' ' as u8, 't' as u8, 'o' as u8, ' ' as u8, 'd' as u8, 'l' as u8]
}

/// The bytes of `missing file field`.
pub open spec fn msg_missing_field() -> Seq<u8> {
    seq!['m' as u8, 'i' as u8, 's' as u8, 's' as u8, 'i' as u8, 'n' as u8, 'g' as u8, ' ' as u8, 'f' as u8, 'i' as u8, 'l' as u8, 'e' as u8, ' ' as u8, 'f' as u8, 'i' as u8, 'e' as u8, 'l' as u8, 'd' as u8]
}

/// The bytes of `Hello world!`.
pub open spec fn hello_text() -> Seq<u8> {
    seq!['H' as u8, 'e' as u8, 'l' as u8, 'l' as u8, 'o' as u8, ' ' as u8, 'w' as u8, 'o' as u8, 'r' as u8, 'l' as u8, 'd' as u8, '!' as u8]
}

/// Executable copy of `Hello world!`.
pub fn hello_response() -> (r: Vec<u8>)
    ensures
        r@ == hello_text(),
{
    let mut v: Vec<u8> = Vec::new();
    v.push('H' as u8);
    v.push('e' as u8);
    v.push('l' as u8);
    v.push('l' as u8);
    v.push('o' as u8);
    v.push(' ' as u8);
    v.push('w' as u8);
    v.push('o' as u8);
    v.push('r' as u8);
    v.push('l' as u8);
    v.push('d' as u8);
    v.push('!' as u8);
    assert(v@ =~= hello_text());
    v
}

/// Builds the message `file was not found`.
fn msg_not_found_exec() -> (r: Vec<u8>)
    ensures
        r@ == msg_not_found(),
{
    let mut v: Vec<u8> = Vec::new();
    v.push('f' as u8);
    v.push('i' as u8);
    v.push('l' as u8);
    v.push('e' as u8);
    v.push(' ' as u8);
    v.push('w' as u8);
    v.push('a' as u8);
    v.push('s' as u8);
    v.push(' ' as u8);
    v.push('n' as u8);
    v.push('o' as u8);
    v.push('t' as u8);
    v.push(' ' as u8);
    v.push('f' as u8);
    v.push('o' as u8);
    v.push('u' as u8);
    v.push('n' as u8);
    v.push('d' as u8);
    assert(v@ =~= msg_not_found());
    v
}

/// The body of the raw-download not-found error: `{"error":"file was not found"}`.
pub fn not_found_response() -> (r: Vec<u8>)
    ensures
        r@ == error_body_spec(msg_not_found()),
{
    let m = msg_not_found_exec();
    error_body(m.as_slice())
}

/// Builds the message `could not find file to dl`.
fn msg_page_missing_exec() -> (r: Vec<u8>)
    ensures
        r@ == msg_page_missing(),
{
    let mut v: Vec<u8> = Vec::new();
    v.push('c' as u8);
    v.push('o' as u8);
    v.push('u' as u8);
    v.push('l' as u8);
    v.push('d' as u8);
    v.push(' ' as u8);
    v.push('n' as u8);
    v.push('o' as u8);
    v.push('t' as u8);
    v.push(' ' as u8);
    v.push('f' as u8);
    v.push('i' as u8);
    v.push('n' as u8);
    v.push('d' as u8);
    v.push(' ' as u8);
    v.push('f' as u8);
    v.push('i' as u8);
    v.push('l' as u8);
    v.push('e' as u8);
    v.push(' ' as u8);
    v.push('t' as u8);
    v.push('o' as u8);
    v.push(' ' as u8);
    v.push('d' as u8);
    v.push('l' as u8);
    assert(v@ =~= msg_page_missing());
    v
}

/// The body of the info-page not-found error: `{"error":"could not find file to dl"}`.
pub fn page_missing_response() -> (r: Vec<u8>)
    ensures
        r@ == error_body_spec(msg_page_missing()),
{
    let m = msg_page_missing_exec();
    error_body(m.as_slice())
}

/// Builds the message `missing file field`.
fn msg_missing_field_exec() -> (r: Vec<u8>)
    ensures
        r@ == msg_missing_field(),
{
    let mut v: Vec<u8> = Vec::new();
    v.push('m' as u8);
    v.push('i' as u8);
    v.push('s' as u8);
    v.push('s' as u8);
    v.push('i' as u8);
    v.push('n' as u8);
    v.push('g' as u8);
    v.push(' ' as u8);
    v.push('f' as u8);
    v.push('i' as u8);
    v.push('l' as u8);
    v.push('e' as u8);
    v.push(' ' as u8);
    v.push('f' as u8);
    v.push('i' as u8);
    v.push('e' as u8);
    v.push('l' as u8);
    v.push('d' as u8);
    assert(v@ =~= msg_missing_field());
    v
}

/// The body of the missing-form-field client error: `{"error":"missing file field"}`.
pub fn missing_field_response() -> (r: Vec<u8>)
    ensures
        r@ == error_body_spec(msg_missing_field()),
{
    let m = msg_missing_field_exec();
    error_body(m.as_slice())
}

/// What the filesystem reported about a resolved path: the file is there, it
/// is not, or the probe itself failed with a message.
pub enum ProbeResult {
    Present,
    Absent,
    Failed(Vec<u8>),
}

/// The decided raw-download response: stream the file, answer that it was not
/// found, or surface the probe failure as a server fault.
pub enum DlOutcome {
    Serve,
    NotFound(Vec<u8>),
    Fault(Vec<u8>),
}

/// Decides the raw-download response from what the filesystem reported. The
/// three outcomes stay distinguishable: a missing file is answered with the
/// not-found body and never with a fault, and a probe failure is answered
/// with a fault carrying the failure message.
pub fn classify_probe(probe: ProbeResult) -> (r: DlOutcome)
    ensures
        match probe {
            ProbeResult::Present => r is Serve,
            ProbeResult::Absent => r matches DlOutcome::NotFound(b) && b@ == error_body_spec(
                msg_not_found(),
            ),
            ProbeResult::Failed(m) => r matches DlOutcome::Fault(b) && b@ == error_body_spec(m@),
        },
        probe is Absent ==> !(r is Fault),
{
    match probe {
        ProbeResult::Present => DlOutcome::Serve,
        ProbeResult::Absent => DlOutcome::NotFound(not_found_response()),
        ProbeResult::Failed(m) => DlOutcome::Fault(error_body(m.as_slice())),
    }
}

/// The decided info-page response: render the page, answer that the file was
/// not found, or surface the probe failure as a server fault.
pub enum PageOutcome {
    Render,
    NotFound(Vec<u8>),
    Fault(Vec<u8>),
}

/// Decides the info-page response from what the filesystem reported. As with
/// the raw download, a missing file and a failed probe stay distinguishable.
pub fn classify_page_probe(probe: ProbeResult) -> (r: PageOutcome)
    ensures
        match probe {
            ProbeResult::Present => r is Render,
            ProbeResult::Absent => r matches PageOutcome::NotFound(b) && b@ == error_body_spec(
                msg_page_missing(),
            ),
            ProbeResult::Failed(m) => r matches PageOutcome::Fault(b) && b@ == error_body_spec(m@),
        },
        probe is Absent ==> !(r is Fault),
{
    match probe {
        ProbeResult::Present => PageOutcome::Render,
        ProbeResult::Absent => PageOutcome::NotFound(page_missing_response()),
        ProbeResult::Failed(m) => PageOutcome::Fault(error_body(m.as_slice())),
    }
}

/// What an upload was assigned: the fresh identifier, the resolved extension
/// token, and the stored name `<id>.<ext>`.
pub struct UploadReceipt {
    pub id: Vec<u8>,
    pub ext: Vec<u8>,
    pub name: Vec<u8>,
}

impl UploadReceipt {
    /// The success body for this receipt: `{"id":"<id>","ext":"<ext>"}`.
    pub fn response_body(&self) -> (r: Vec<u8>)
        ensures
            r@ == upload_body_spec(self.id@, self.ext@),
    {
        upload_body(self.id.as_slice(), self.ext.as_slice())
    }
}

/// The file host: the identifier generator and the directory of stored files.
pub struct FileHost {
    gen: IdGen,
    dir: Directory,
}

impl FileHost {
    /// The stored files, as a map from stored name to payload.
    pub closed spec fn files(&self) -> Map<Seq<u8>, Seq<u8>> {
        self.dir@
    }

    /// The identifiers issued so far.
    pub closed spec fn issued(&self) -> Set<Seq<u8>> {
        self.gen.issued()
    }

    /// The length of the identifiers currently issued.
    pub closed spec fn code_len(&self) -> nat {
        self.gen.code_len()
    }

    /// How many identifiers of the current length are still unissued.
    pub closed spec fn remaining(&self) -> nat {
        self.gen.remaining()
    }

    /// The host's invariant: the directory is well-formed, and every stored
    /// name was built from an identifier this host issued.
    pub closed spec fn wf(&self) -> bool {
        &&& self.dir.wf()
        &&& forall|k: Seq<u8>| self.files().contains_key(k) ==> self.issued().contains(
            #[trigger] id_part(k),
        )
    }

    /// A fresh host: nothing stored, nothing issued, four-character
    /// identifiers ahead.
    pub fn new() -> (h: FileHost)
        ensures
            h.wf(),
            h.files() == Map::<Seq<u8>, Seq<u8>>::empty(),
            h.issued() == Set::<Seq<u8>>::empty(),
            h.code_len() == 4,
            h.remaining() == pow62(4),
    {
        let h = FileHost { gen: IdGen::new(4), dir: Directory::new() };
        h
    }

    /// Accepts an upload: assigns a fresh identifier, resolves the extension
    /// from the supplied filename, and stores the payload under the stored
    /// name `<id>.<ext>`, a name no earlier upload used. Returns the receipt
    /// the response is built from.
    pub fn upload(&mut self, data: Vec<u8>, filename: Option<&Vec<u8>>) -> (r: UploadReceipt)
        requires
            old(self).wf(),
        ensures
            final(self).wf(),
            r.id@.len() >= 1,
            all_alnum(r.id@),
            !old(self).issued().contains(r.id@),
            final(self).issued() == old(self).issued().insert(r.id@),
            r.ext@ == ext_of(
                match filename {
                    Option::Some(n) => Option::Some(n@),
                    Option::None => Option::None,
                },
            ),
            r.name@ == stored_name_spec(r.id@, r.ext@),
            is_safe_name(r.name@),
            !old(self).files().contains_key(r.name@),
            final(self).files() == old(self).files().insert(r.name@, data@),
            spec_fetch(final(self).files(), r.name@) == Option::Some(data@),
            final(self).code_len() >= old(self).code_len(),
            old(self).remaining() >= 1 ==> r.id@.len() == old(self).code_len(),
            old(self).remaining() >= 1 ==> final(self).remaining() == old(self).remaining() - 1,
    {
        let ghost old_issued = self.gen.issued();
        let ghost old_files = self.dir@;
        let id = self.gen.next_id();
        let ext = extension_of(filename);
        let name = stored_name(id.as_slice(), ext.as_slice());
        proof {
            lemma_ext_of_clean(
                match filename {
                    Option::Some(n) => Option::Some(n@),
                    Option::None => Option::None,
                },
            );
            lemma_stored_name_safe(id@, ext@);
            lemma_id_part_of_stored_name(id@, ext@);
            if old_files.contains_key(name@) {
                assert(old_issued.contains(id_part(name@)));
                assert(id_part(name@) == id@);
            }
        }
        let name_copy = slice_to_vec(name.as_slice());
        self.dir.store(name_copy, data);
        proof {
            assert forall|k: Seq<u8>| self.files().contains_key(k) implies self.issued().contains(
                #[trigger] id_part(k),
            ) by {
                if k == name@ {
                    assert(id_part(k) == id@);
                } else {
                    assert(old_files.contains_key(k));
                    assert(old_issued.contains(id_part(k)));
                }
            }
        }
        UploadReceipt { id, ext, name }
    }

    /// Uniqueness across a whole run of uploads: along any chain of host
    /// states in which each step returned an identifier outside the set
    /// issued so far and recorded it — exactly what `upload` ensures of the
    /// identifier — the returned identifiers are pairwise distinct, for any
    /// number of uploads.
    pub proof fn lemma_upload_ids_distinct(hosts: Seq<FileHost>, ids: Seq<Seq<u8>>)
        requires
            hosts.len() == ids.len() + 1,
            forall|k: int| 0 <= k < ids.len() ==> !(#[trigger] hosts[k]).issued().contains(ids[k]),
            forall|k: int| 0 <= k < ids.len() ==> (#[trigger] hosts[k + 1]).issued()
                == hosts[k].issued().insert(ids[k]),
        ensures
            forall|i: int, j: int| 0 <= i < j < ids.len() ==> ids[i] != ids[j],
    {
        let sets = Seq::new(hosts.len(), |i: int| hosts[i].issued());
        assert forall|k: int| 0 <= k < ids.len() implies !(#[trigger] sets[k]).contains(
            ids[k],
        ) by {
            assert(sets[k] == hosts[k].issued());
        }
        assert forall|k: int| 0 <= k < ids.len() implies #[trigger] sets[k + 1] == sets[k].insert(
            ids[k],
        ) by {
            assert(sets[k + 1] == hosts[k + 1].issued());
            assert(sets[k] == hosts[k].issued());
        }
        lemma_ids_pairwise_distinct(ids, sets);
    }

    /// Looks a stored name up: the payload stored under it, if any. Reading
    /// never changes the host.
    pub fn fetch(&self, name: &[u8]) -> (r: Option<&Vec<u8>>)
        requires
            self.wf(),
        ensures
            spec_fetch(self.files(), name@) == match r {
                Option::Some(d) => Option::Some(d@),
                Option::None => Option::<Seq<u8>>::None,
            },
            r.is_some() <==> self.files().contains_key(name@),
    {
        self.dir.fetch(name)
    }
}

} // verus!
