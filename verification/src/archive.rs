//! The archive an Archive-mode run produces: one gzip-compressed POSIX tar
//! stream built in memory, holding each archived entry under its base file
//! name. The caller writes the finished bytes next to the surviving entries
//! under the name [`archive_file_name`] builds.

use vstd::prelude::*;
use vstd::string::StringExecFns;
use crate::text::{dec_digits, push_decimal};
use flate2::Compression;
use flate2::write::GzEncoder;

verus! {

/// The members an [`ArchiveWriter`] holds so far, each a file name with its
/// contents, in the order they were appended.
pub uninterp spec fn archive_members(w: ArchiveWriter) -> Seq<(Seq<char>, Seq<u8>)>;

/// The bytes of the gzip-compressed tar stream that holds exactly the given
/// members in order. The encoding is written with a fixed header (no
/// timestamp, no origin system), so it depends on the members alone.
pub uninterp spec fn targz_encoding(members: Seq<(Seq<char>, Seq<u8>)>) -> Seq<u8>;

/// Whether finalizing the stream that holds exactly the given members
/// succeeds. With an in-memory buffer nothing but the members goes into the
/// work, so the outcome, like [`targz_encoding`], depends on them alone;
/// naming it lets a run's contract say that it fails only where the
/// finalization of its own members' stream fails.
pub uninterp spec fn targz_finalizes(members: Seq<(Seq<char>, Seq<u8>)>) -> bool;

/// The members a real Archive run puts into its archive: for each rotate-set
/// entry that was appended, its file name paired with the bytes the caller
/// read for it, in the rotate set's order.
pub open spec fn archived_members(
    files: Seq<crate::model::RotireFile>,
    contents: Seq<Option<Vec<u8>>>,
    appended: Seq<bool>,
) -> Seq<(Seq<char>, Seq<u8>)>
    decreases files.len(),
{
    if files.len() == 0 || contents.len() != files.len() || appended.len() != files.len() {
        Seq::empty()
    } else {
        let rest = archived_members(files.drop_last(), contents.drop_last(), appended.drop_last());
        if appended.last() && contents.last() is Some {
            rest.push((files.last().name@, contents.last()->Some_0@))
        } else {
            rest
        }
    }
}

/// A tar stream under construction, compressed into an in-memory buffer.
/// Opaque to verification; what it holds is tracked by [`archive_members`].
#[verifier::external_body]
pub struct ArchiveWriter {
    inner: tar::Builder<GzEncoder<Vec<u8>>>,
}

impl ArchiveWriter {
    /// Relies on `tar::Builder::new` over `flate2::write::GzEncoder::new`
    /// with an empty buffer: a fresh builder holds no members.
    #[verifier::external_body]
    pub(crate) fn new() -> (w: Self)
        ensures
            archive_members(w) == Seq::<(Seq<char>, Seq<u8>)>::empty(),
    {
        let enc = GzEncoder::new(Vec::new(), Compression::default());
        ArchiveWriter { inner: tar::Builder::new(enc) }
    }

    /// Relies on `tar::Builder::append_data`: on success the archive gains
    /// exactly one member, under the given name and with the given bytes.
    /// On failure it gains nothing: with an in-memory buffer the underlying
    /// writes cannot fail, and the fallible preparation of the entry's
    /// header happens before anything is written to the stream.
    #[verifier::external_body]
    pub(crate) fn append(&mut self, name: &String, data: &Vec<u8>) -> (ok: bool)
        ensures
            ok ==> archive_members(*final(self)) == archive_members(*old(self)).push(
                (name@, data@),
            ),
            !ok ==> archive_members(*final(self)) == archive_members(*old(self)),
    {
        let mut header = tar::Header::new_gnu();
        header.set_size(data.len() as u64);
        header.set_mode(0o644);
        self.inner.append_data(&mut header, name.as_str(), data.as_slice()).is_ok()
    }

    /// Relies on `tar::Builder::into_inner` and `flate2::write::GzEncoder::
    /// finish`: finalizing writes the tar end-of-archive blocks and flushes
    /// the compressor, yielding the complete encoding of the members. With
    /// the in-memory buffer the outcome is decided by the members alone.
    #[verifier::external_body]
    pub(crate) fn finish(self) -> (r: Option<Vec<u8>>)
        ensures
            r is Some <==> targz_finalizes(archive_members(self)),
            r matches Some(bytes) ==> bytes@ == targz_encoding(archive_members(self)),
    {
        match self.inner.into_inner() {
            Ok(enc) => enc.finish().ok(),
            Err(_) => None,
        }
    }
}

/// The name the produced archive is stored under, for a run whose archive
/// was created at the given time: `rotire-archive-<milliseconds>.tar.gz`.
/// The millisecond timestamp keeps runs within the same second apart.
pub open spec fn archive_name(timestamp_millis: int) -> Seq<char> {
    "rotire-archive-"@ + dec_digits(timestamp_millis) + ".tar.gz"@
}

/// Builds the archive's file name for the given creation time.
pub fn archive_file_name(timestamp_millis: u64) -> (s: String)
    ensures
        s@ == archive_name(timestamp_millis as int),
{
    let mut s = String::from_str("rotire-archive-");
    push_decimal(timestamp_millis, &mut s);
    s.append(".tar.gz");
    proof {
        assert(s@ =~= archive_name(timestamp_millis as int));
    }
    s
}

} // verus!
