use vstd::prelude::*;
use crate::chunker::{
    ChunkAccumulator, all_sized, chunk_count, chunk_views, chunking_covers_stream, last_chunk_len,
    with_remainder,
};
use crate::session::{MultipartUploadContext, PartRecord, S3Error, SessionState, UploadResult, numbers_consecutive, part_views, parts_bytes};

verus! {

/// The upload of one form field: its bytes are cut into chunks, and each chunk
/// becomes the next part of the session, in the order the bytes arrived. After
/// the first failure only `abort` is accepted: nothing is retried.
pub struct FieldUpload {
    chunk_size: usize,
    chunks: Option<ChunkAccumulator>,
    session: MultipartUploadContext,
    outbox: Vec<Vec<u8>>,
    source_bytes: u64,
    failed: bool,
    read: Ghost<Seq<u8>>,
    cut: Ghost<Seq<Seq<u8>>>,
}

impl FieldUpload {
    pub closed spec fn spec_session(&self) -> MultipartUploadContext {
        self.session
    }

    /// Every byte read from the field so far.
    pub closed spec fn spec_read(&self) -> Seq<u8> {
        self.read@
    }

    /// Every chunk cut so far, in order (with the remainder once reading ended).
    pub closed spec fn spec_cut(&self) -> Seq<Seq<u8>> {
        self.cut@
    }

    /// The chunks cut and not yet stored, oldest first.
    pub closed spec fn spec_outbox(&self) -> Seq<Seq<u8>> {
        chunk_views(self.outbox@)
    }

    pub closed spec fn spec_reading(&self) -> bool {
        self.chunks.is_some()
    }

    pub closed spec fn spec_failed(&self) -> bool {
        self.failed
    }

    pub closed spec fn spec_source_bytes(&self) -> nat {
        self.source_bytes as nat
    }

    pub closed spec fn spec_chunk_size(&self) -> nat {
        self.chunk_size as nat
    }

    /// The bytes read but not yet cut into a chunk.
    pub closed spec fn spec_held(&self) -> Seq<u8> {
        match self.chunks {
            Some(acc) => acc.pending(),
            None => Seq::empty(),
        }
    }

    pub closed spec fn wf(&self) -> bool {
        &&& self.session.wf()
        &&& self.chunk_size > 0
        &&& !self.failed ==> {
            &&& numbers_consecutive(self.session.spec_parts())
            &&& self.session.spec_next() == self.session.spec_parts().len() + 1 + if self.session.spec_in_flight().is_some() {
                1int
            } else {
                0int
            }
        }
        &&& self.session.spec_uploaded() + chunk_views(self.outbox@) == self.cut@
        &&& self.session.spec_in_flight().is_some() ==> self.outbox@.len() > 0
        &&& self.source_bytes == self.read@.len()
        &&& match self.chunks {
            Some(acc) => {
                &&& acc.wf()
                &&& acc.chunk_size() == self.chunk_size
                &&& acc.emitted() == self.cut@
                &&& acc.pushed() == self.read@
            },
            None => {
                &&& self.cut@.flatten_alt() == self.read@
                &&& self.cut@.len() == chunk_count(self.read@.len(), self.chunk_size as nat)
                &&& forall|i: int|
                    0 <= i < self.cut@.len() - 1 ==> (#[trigger] self.cut@[i]).len()
                        == self.chunk_size
                &&& self.read@.len() > 0 ==> self.cut@.last().len() == last_chunk_len(
                    self.read@.len(),
                    self.chunk_size as nat,
                )
            },
        }
    }

    /// Starts the upload of a field into a session that has just been opened.
    pub fn new(chunk_size: usize, session: MultipartUploadContext) -> (r: FieldUpload)
        requires
            chunk_size > 0,
            session.wf(),
            session.gapless(),
            session.spec_parts().len() == 0,
        ensures
            r.wf(),
            r.spec_session() == session,
            r.spec_read() == Seq::<u8>::empty(),
            r.spec_reading(),
            !r.spec_failed(),
            r.spec_chunk_size() == chunk_size,
            r.spec_held() == Seq::<u8>::empty(),
            r.spec_outbox() == Seq::<Seq<u8>>::empty(),
    {
        let r = FieldUpload {
            chunk_size,
            chunks: Some(ChunkAccumulator::new(chunk_size)),
            session,
            outbox: Vec::new(),
            source_bytes: 0,
            failed: false,
            read: Ghost(Seq::empty()),
            cut: Ghost(Seq::empty()),
        };
        assert(session.spec_uploaded() =~= Seq::<Seq<u8>>::empty());
        assert(r.session.spec_uploaded() + chunk_views(r.outbox@) =~= r.cut@);
        r
    }

    pub fn session(&self) -> (r: &MultipartUploadContext)
        ensures
            *r == self.spec_session(),
    {
        &self.session
    }

    /// Takes the next fragment of the field. It is accepted only while the field
    /// is being read, every chunk cut so far has been stored, and nothing failed.
    pub fn feed(&mut self, fragment: &[u8]) -> (r: Result<(), S3Error>)
        requires
            old(self).wf(),
        ensures
            final(self).wf(),
            r.is_ok() <==> old(self).spec_reading() && old(self).spec_outbox().len() == 0
                && !old(self).spec_failed() && old(self).spec_source_bytes() + fragment@.len()
                <= u64::MAX && old(self).spec_chunk_size() + fragment@.len() <= isize::MAX,
            r.is_ok() ==> final(self).spec_read() == old(self).spec_read() + fragment@,
            r.is_ok() ==> final(self).spec_cut() == old(self).spec_cut() + final(self).spec_outbox(),
            r.is_ok() ==> all_sized(final(self).spec_outbox(), old(self).spec_chunk_size()),
            r.is_ok() ==> old(self).spec_held() + fragment@ == final(self).spec_outbox().flatten_alt()
                + final(self).spec_held(),
            r.is_ok() ==> final(self).spec_held().len() < final(self).spec_chunk_size(),
            r.is_err() ==> *final(self) == *old(self),
            final(self).spec_session() == old(self).spec_session(),
            final(self).spec_reading() == old(self).spec_reading(),
            final(self).spec_failed() == old(self).spec_failed(),
            final(self).spec_chunk_size() == old(self).spec_chunk_size(),
    {
        if self.failed || self.outbox.len() > 0 {
            return Err(S3Error::SessionClosed);
        }
        if self.source_bytes > u64::MAX - fragment.len() as u64 || self.chunk_size > isize::MAX as usize
            || fragment.len() > isize::MAX as usize - self.chunk_size {
            return Err(S3Error::Other("field too large".to_owned()));
        }
        let mut acc = match self.chunks.take() {
            Some(acc) => acc,
            None => {
                return Err(S3Error::SessionClosed);
            },
        };
        let out = acc.push(fragment);
        self.outbox = out;
        self.chunks = Some(acc);
        self.source_bytes = self.source_bytes + fragment.len() as u64;
        self.read = Ghost(self.read@ + fragment@);
        proof {
            assert(self.session.spec_uploaded() + Seq::<Seq<u8>>::empty() =~= self.session.spec_uploaded());
            assert(self.session.spec_uploaded() + chunk_views(self.outbox@) =~= self.cut@
                + chunk_views(self.outbox@));
        }
        self.cut = Ghost(self.cut@ + chunk_views(self.outbox@));
        Ok(())
    }

    /// Ends reading: the bytes still held back become the last chunk.
    pub fn end_of_field(&mut self)
        requires
            old(self).wf(),
        ensures
            final(self).wf(),
            !final(self).spec_reading(),
            final(self).spec_read() == old(self).spec_read(),
            final(self).spec_session() == old(self).spec_session(),
            final(self).spec_failed() == old(self).spec_failed(),
            final(self).spec_chunk_size() == old(self).spec_chunk_size(),
            final(self).spec_held() == Seq::<u8>::empty(),
            old(self).spec_reading() ==> final(self).spec_outbox() == with_remainder(
                old(self).spec_outbox(),
                old(self).spec_held(),
            ) && final(self).spec_cut() == with_remainder(old(self).spec_cut(), old(self).spec_held()),
            !old(self).spec_reading() ==> *final(self) == *old(self),
    {
        match self.chunks.take() {
            Some(acc) => {
                proof {
                    chunking_covers_stream(acc);
                }
                let ghost before = chunk_views(self.outbox@);
                let ghost whole = with_remainder(acc.emitted(), acc.pending());
                match acc.finish() {
                    Some(rest) => {
                        self.outbox.push(rest);
                        proof {
                            assert(chunk_views(self.outbox@) =~= before.push(rest@));
                            assert(self.cut@.push(rest@) =~= self.cut@ + seq![rest@]);
                            assert(whole == self.cut@.push(rest@));
                            assert(self.session.spec_uploaded() + chunk_views(self.outbox@)
                                =~= (self.session.spec_uploaded() + before).push(rest@));
                        }
                        self.cut = Ghost(self.cut@.push(rest@));
                    },
                    None => {
                        proof {
                            assert(self.cut@ + Seq::<Seq<u8>>::empty() =~= self.cut@);
                            assert(whole == self.cut@);
                        }
                    },
                }
            },
            None => {},
        }
    }

    /// Assigns a part number to the oldest chunk not yet stored, to be sent next;
    /// `None` when every chunk cut so far is stored.
    pub fn begin_next_part(&mut self) -> (r: Result<Option<i32>, S3Error>)
        requires
            old(self).wf(),
        ensures
            final(self).wf(),
            final(self).spec_read() == old(self).spec_read(),
            final(self).spec_reading() == old(self).spec_reading(),
            final(self).spec_failed() == old(self).spec_failed(),
            r matches Ok(None) ==> old(self).spec_outbox().len() == 0 && *final(self)
                == *old(self),
            r matches Ok(Some(n)) ==> MultipartUploadContext::began_part(
                &old(self).spec_session(),
                &final(self).spec_session(),
                n as int,
            ),
            r.is_err() ==> *final(self) == *old(self),
            old(self).spec_failed() ==> r.is_err(),
            !old(self).spec_failed() && old(self).spec_outbox().len() == 0 ==> r matches Ok(None),
            !old(self).spec_failed() && old(self).spec_outbox().len() > 0
                && old(self).spec_session().can_begin_part() ==> r matches Ok(Some(_)),
            r matches Ok(Some(n)) ==> n == old(self).spec_session().spec_parts().len() + 1
                && final(self).spec_outbox() == old(self).spec_outbox()
                && final(self).spec_cut() == old(self).spec_cut(),
    {
        if self.failed {
            return Err(S3Error::SessionClosed);
        }
        if self.outbox.len() == 0 {
            return Ok(None);
        }
        match self.session.begin_part() {
            Ok(n) => Ok(Some(n)),
            Err(e) => Err(e),
        }
    }

    /// The bytes of the part in flight, or of the next part to send.
    pub fn pending_chunk(&self) -> (r: Option<&Vec<u8>>)
        requires
            self.wf(),
        ensures
            r.is_none() <==> self.spec_outbox().len() == 0,
            r.is_some() ==> r.unwrap()@ == self.spec_outbox()[0],
    {
        if self.outbox.len() == 0 {
            None
        } else {
            Some(&self.outbox[0])
        }
    }

    /// Takes the store's answer for the part in flight. A stored part leaves
    /// the outbox; any failure marks the upload failed.
    pub fn part_stored(&mut self, outcome: Result<Option<String>, String>) -> (r: Result<(), S3Error>)
        requires
            old(self).wf(),
        ensures
            final(self).wf(),
            final(self).spec_read() == old(self).spec_read(),
            final(self).spec_reading() == old(self).spec_reading(),
            final(self).spec_cut() == old(self).spec_cut(),
            r.is_err() ==> final(self).spec_failed(),
            r.is_ok() ==> final(self).spec_failed() == old(self).spec_failed(),
            r.is_ok() ==> final(self).spec_outbox() == old(self).spec_outbox().drop_first(),
            r.is_ok() ==> old(self).spec_session().can_record_part() && outcome matches Ok(Some(_)),
            r.is_ok() && !old(self).spec_failed() ==> numbers_consecutive(
                final(self).spec_session().spec_parts(),
            ),
            !(old(self).spec_outbox().len() > 0 && old(self).spec_session().can_record_part())
                ==> (r matches Err(S3Error::SessionClosed)) && final(self).spec_session()
                == old(self).spec_session(),
            old(self).spec_outbox().len() > 0 && old(self).spec_session().can_record_part()
                ==> match outcome {
                Ok(Some(tag)) => if old(self).spec_session().spec_total()
                    + old(self).spec_outbox()[0].len() <= u64::MAX {
                    &&& r.is_ok()
                    &&& MultipartUploadContext::stored_part(
                        &old(self).spec_session(),
                        &final(self).spec_session(),
                        old(self).spec_outbox()[0],
                        tag@,
                    )
                } else {
                    &&& r matches Err(S3Error::Other(_))
                    &&& final(self).spec_session().spec_parts() == old(self).spec_session().spec_parts()
                },
                _ => {
                    &&& r matches Err(S3Error::PartUploadError { .. })
                    &&& r.unwrap_err()->part_number == old(self).spec_session().spec_in_flight().unwrap()
                    &&& final(self).spec_session().spec_parts() == old(self).spec_session().spec_parts()
                },
            },
    {
        if self.outbox.len() == 0 || self.session.state() != SessionState::Open {
            self.failed = true;
            return Err(S3Error::SessionClosed);
        }
        let ghost up = self.session.spec_uploaded();
        let ghost ob = chunk_views(self.outbox@);
        let r = self.session.record_part(self.outbox[0].as_slice(), outcome);
        match r {
            Ok(()) => {
                let first = self.outbox.remove(0);
                proof {
                    assert(first@ == ob[0]);
                    assert(chunk_views(self.outbox@) =~= ob.drop_first());
                    assert(self.session.spec_uploaded() + chunk_views(self.outbox@) =~= up + ob);
                }
                Ok(())
            },
            Err(e) => {
                self.failed = true;
                Err(e)
            },
        }
    }

    /// The part list for the completion request, once the field is read and
    /// every chunk is stored.
    pub fn completion_parts(&self) -> (r: Result<Vec<PartRecord>, S3Error>)
        requires
            self.wf(),
        ensures
            r.is_ok() <==> !self.spec_reading() && self.spec_outbox().len() == 0
                && !self.spec_failed() && self.spec_session().can_complete(
                self.spec_source_bytes() as u64,
            ),
            r.is_ok() ==> part_views(r.unwrap()@) == self.spec_session().spec_parts(),
    {
        if self.failed || self.chunks.is_some() || self.outbox.len() > 0 {
            return Err(S3Error::SessionClosed);
        }
        self.session.completion_parts(self.source_bytes)
    }

    /// Ends the upload with the store's answer to the completion request. On
    /// success the stored parts are exactly the chunks of the field, in order,
    /// and the reported size is the number of bytes read.
    pub fn complete(&mut self, name: &str, outcome: Result<(), String>) -> (r: Result<
        UploadResult,
        S3Error,
    >)
        requires
            old(self).wf(),
        ensures
            final(self).wf(),
            r.is_ok() ==> {
                &&& !old(self).spec_reading()
                &&& !old(self).spec_failed()
                &&& old(self).spec_outbox().len() == 0
                &&& r.unwrap().name@ == name@
                &&& r.unwrap().size == old(self).spec_read().len()
                &&& r.unwrap().size == parts_bytes(final(self).spec_session().spec_parts())
                &&& final(self).spec_session().spec_uploaded() == old(self).spec_cut()
                &&& final(self).spec_session().spec_uploaded().flatten_alt()
                    == old(self).spec_read()
                &&& final(self).spec_session().spec_state() == SessionState::Completed
                &&& final(self).spec_session().wf()
                &&& numbers_consecutive(final(self).spec_session().spec_parts())
                &&& final(self).spec_session().spec_uploaded().len() == chunk_count(
                    old(self).spec_read().len(),
                    old(self).spec_chunk_size(),
                )
                &&& forall|i: int|
                    0 <= i < final(self).spec_session().spec_uploaded().len() - 1
                        ==> (#[trigger] final(self).spec_session().spec_uploaded()[i]).len()
                        == old(self).spec_chunk_size()
                &&& old(self).spec_read().len() > 0 ==> final(self).spec_session().spec_uploaded().last().len() == last_chunk_len(
                    old(self).spec_read().len(),
                    old(self).spec_chunk_size(),
                )
            },
            r.is_ok() <==> !old(self).spec_reading() && !old(self).spec_failed()
                && old(self).spec_outbox().len() == 0 && old(self).spec_session().can_complete(
                old(self).spec_source_bytes() as u64,
            ) && outcome.is_ok(),
    {
        if self.failed || self.chunks.is_some() || self.outbox.len() > 0 {
            return Err(S3Error::SessionClosed);
        }
        proof {
            assert(self.session.spec_uploaded() + chunk_views(self.outbox@)
                =~= self.session.spec_uploaded());
        }
        let r = self.session.complete(name, self.source_bytes, outcome);
        if r.is_err() {
            self.failed = true;
        }
        r
    }

    /// Abandons the upload; returns whether the store must be told.
    pub fn abort(&mut self) -> (r: bool)
        requires
            old(self).wf(),
        ensures
            final(self).wf(),
            final(self).spec_failed(),
            r == (old(self).spec_session().spec_state() == SessionState::Open),
            old(self).spec_session().spec_state() != SessionState::Completed
                ==> final(self).spec_session().spec_state() == SessionState::Aborted,
    {
        self.failed = true;
        self.session.abort()
    }
}

} // verus!
