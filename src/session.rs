use vstd::prelude::*;
use crate::envelope::{BadResponseObject, DetailValue, DetailView, ErrorCode};
use crate::naming::same_text;
use crate::chunker::{ChunkAccumulator, chunking_covers_stream, with_remainder};

verus! {

/// Failures of the object-store side of an upload.
#[derive(Debug)]
pub enum S3Error {
    AwsError(String),
    UploadError(String),
    DownloadError(String),
    /// The store did not open a multipart session.
    MultipartCreateError(String),
    /// The store refused a part; its number is abandoned, never reused.
    PartUploadError { part_number: i32, reason: String },
    /// The store did not stitch the parts together.
    MultipartCompleteError(String),
    IoError(String),
    ObjectNotFound { bucket: String, key: String },
    /// The session was completed or aborted, or a part is still in flight.
    SessionClosed,
    /// `complete` was asked for a non-empty source of which no part was uploaded.
    NoPartsUploaded,
    Other(String),
}

impl S3Error {
    /// The error for a service error reply of the store, by its error code:
    /// a missing key or bucket is `ObjectNotFound`, anything else an `AwsError`
    /// naming the code (`UnknownError` when the reply carried none).
    pub fn from_service_code(code: Option<&str>) -> (r: S3Error)
        ensures
            match code {
                Some(c) => if c@ == "NoSuchKey"@ || c@ == "NoSuchBucket"@ {
                    r matches S3Error::ObjectNotFound { bucket, key } && bucket@ == "unknown"@
                        && key@ == "unknown"@
                } else {
                    r matches S3Error::AwsError(m) && m@ == "AWS service error: "@ + c@
                },
                None => r matches S3Error::AwsError(m) && m@ == "AWS service error: UnknownError"@,
            },
    {
        match code {
            Some(c) => {
                if same_text(c, "NoSuchKey") || same_text(c, "NoSuchBucket") {
                    S3Error::ObjectNotFound { bucket: "unknown".to_owned(), key: "unknown".to_owned() }
                } else {
                    let mut m = "AWS service error: ".to_owned();
                    m.append(c);
                    S3Error::AwsError(m)
                }
            },
            None => S3Error::AwsError("AWS service error: UnknownError".to_owned()),
        }
    }

    /// The error for a failure of the store's client before any service reply
    /// (timeout, connection, construction), given the client's description.
    pub fn from_sdk_failure(description: &str) -> (r: S3Error)
        ensures
            r matches S3Error::AwsError(m) && m@ == "AWS SDK error: "@ + description@,
    {
        let mut m = "AWS SDK error: ".to_owned();
        m.append(description);
        S3Error::AwsError(m)
    }

    /// The client-facing envelope for a failed upload: the generic upload error,
    /// with the failed part number when there is one.
    pub fn to_envelope(&self) -> (r: BadResponseObject)
        ensures
            match self {
                S3Error::PartUploadError { part_number, .. } => r.is_entry_with(
                    ErrorCode::CoreFileUploadingError,
                    map!["part_number"@ => DetailView::Integer(*part_number as i64)],
                ),
                _ => r.is_entry_with(ErrorCode::CoreFileUploadingError, Map::empty()),
            },
    {
        let e = ErrorCode::CoreFileUploadingError.details();
        match self {
            S3Error::PartUploadError { part_number, .. } => {
                let r = e.with("part_number", DetailValue::Integer(*part_number as i64));
                proof {
                    let m = map!["part_number"@ => DetailView::Integer(*part_number as i64)];
                    assert forall|k: Seq<char>| #[trigger]
                        r.spec_detail(k) == if m.contains_key(k) {
                            Some(m[k])
                        } else {
                            None
                        } by {
                        if k == "part_number"@ {
                        } else {
                        }
                    }
                }
                r
            },
            _ => e,
        }
    }
}

/// Lifecycle of a multipart upload session.
#[derive(Debug, Clone, Copy, PartialEq, Eq, Structural)]
pub enum SessionState {
    Open,
    Completed,
    Aborted,
}

/// One uploaded part: its number, the integrity tag the store returned for it,
/// and its length in bytes.
#[derive(Debug)]
pub struct PartRecord {
    pub part_number: i32,
    pub e_tag: String,
    pub byte_length: u64,
}

pub struct PartView {
    pub part_number: int,
    pub e_tag: Seq<char>,
    pub byte_length: nat,
}

impl View for PartRecord {
    type V = PartView;

    open spec fn view(&self) -> PartView {
        PartView {
            part_number: self.part_number as int,
            e_tag: self.e_tag@,
            byte_length: self.byte_length as nat,
        }
    }
}

/// The views of a list of part records.
pub open spec fn part_views(s: Seq<PartRecord>) -> Seq<PartView> {
    s.map_values(|p: PartRecord| p@)
}

/// Total length of a list of parts.
pub open spec fn parts_bytes(parts: Seq<PartView>) -> nat
    decreases parts.len(),
{
    if parts.len() == 0 {
        0
    } else {
        parts_bytes(parts.drop_last()) + parts.last().byte_length
    }
}

/// Part numbers strictly increase along the list.
pub open spec fn numbers_increasing(parts: Seq<PartView>) -> bool {
    forall|i: int, j: int|
        0 <= i < j < parts.len() ==> (#[trigger] parts[i]).part_number
            < (#[trigger] parts[j]).part_number
}

/// The parts are numbered 1, 2, 3, ... with no gap.
pub open spec fn numbers_consecutive(parts: Seq<PartView>) -> bool {
    forall|i: int| 0 <= i < parts.len() ==> (#[trigger] parts[i]).part_number == i + 1
}

/// The summary of one completed field upload.
#[derive(Debug)]
pub struct UploadResult {
    pub name: String,
    pub size: u64,
}

/// Settings for opening a multipart session.
#[derive(Debug, Clone)]
pub struct MultipartUploadOptions {
    pub content_type: Option<String>,
    pub content_disposition: Option<String>,
    pub chunk_size: usize,
}

/// The chunk size used when none is configured: 5 MiB.
pub const DEFAULT_CHUNK_SIZE: usize = 5242880;

impl Default for MultipartUploadOptions {
    fn default() -> (r: MultipartUploadOptions)
        ensures
            r.content_type.is_none(),
            r.content_disposition.is_none(),
            r.chunk_size == DEFAULT_CHUNK_SIZE,
    {
        MultipartUploadOptions {
            content_type: None,
            content_disposition: None,
            chunk_size: DEFAULT_CHUNK_SIZE,
        }
    }
}

/// One multipart upload session on the object store. It hands out part numbers,
/// records the parts the store accepted, and ends by exactly one of `complete`
/// or `abort`. The calls to the store itself are made by the caller, which
/// reports each outcome back.
pub struct MultipartUploadContext {
    bucket: String,
    key: String,
    upload_id: String,
    parts: Vec<PartRecord>,
    next_part_number: i32,
    in_flight: Option<i32>,
    total_size: u64,
    state: SessionState,
    uploaded: Ghost<Seq<Seq<u8>>>,
}

impl MultipartUploadContext {
    pub closed spec fn spec_bucket(&self) -> Seq<char> {
        self.bucket@
    }

    pub closed spec fn spec_key(&self) -> Seq<char> {
        self.key@
    }

    pub closed spec fn spec_upload_id(&self) -> Seq<char> {
        self.upload_id@
    }

    /// The parts the store accepted, in upload order.
    pub closed spec fn spec_parts(&self) -> Seq<PartView> {
        part_views(self.parts@)
    }

    /// The number the next part will get.
    pub closed spec fn spec_next(&self) -> int {
        self.next_part_number as int
    }

    /// The number of the part sent to the store and not yet reported back.
    pub closed spec fn spec_in_flight(&self) -> Option<int> {
        match self.in_flight {
            Some(n) => Some(n as int),
            None => None,
        }
    }

    pub closed spec fn spec_total(&self) -> nat {
        self.total_size as nat
    }

    pub closed spec fn spec_state(&self) -> SessionState {
        self.state
    }

    /// The bytes of each accepted part, in upload order.
    pub closed spec fn spec_uploaded(&self) -> Seq<Seq<u8>> {
        self.uploaded@
    }

    pub open spec fn wf(&self) -> bool {
        &&& 1 <= self.spec_next()
        &&& numbers_increasing(self.spec_parts())
        &&& forall|i: int|
            0 <= i < self.spec_parts().len() ==> 1 <= (#[trigger] self.spec_parts()[i]).part_number
                < self.spec_next()
        &&& match self.spec_in_flight() {
            Some(n) => n == self.spec_next() - 1 && 1 <= n && (self.spec_parts().len() > 0
                ==> self.spec_parts().last().part_number < n),
            None => true,
        }
        &&& self.spec_uploaded().len() == self.spec_parts().len()
        &&& forall|i: int|
            0 <= i < self.spec_parts().len() ==> (#[trigger] self.spec_parts()[i]).byte_length
                == self.spec_uploaded()[i].len()
        &&& self.spec_total() == parts_bytes(self.spec_parts())
        &&& self.spec_total() == self.spec_uploaded().flatten_alt().len()
    }

    /// The same session: bucket, key and store id.
    pub open spec fn same_session(&self, o: &Self) -> bool {
        &&& self.spec_bucket() == o.spec_bucket()
        &&& self.spec_key() == o.spec_key()
        &&& self.spec_upload_id() == o.spec_upload_id()
    }

    /// Everything but the state is unchanged.
    pub open spec fn same_progress(&self, o: &Self) -> bool {
        &&& self.same_session(o)
        &&& self.spec_parts() == o.spec_parts()
        &&& self.spec_next() == o.spec_next()
        &&& self.spec_total() == o.spec_total()
        &&& self.spec_uploaded() == o.spec_uploaded()
    }

    /// `new` is `old` after part number `n` was handed out.
    pub open spec fn began_part(old: &Self, new: &Self, n: int) -> bool {
        &&& n == old.spec_next()
        &&& new.spec_next() == old.spec_next() + 1
        &&& new.spec_in_flight() == Some(n)
        &&& new.same_session(old)
        &&& new.spec_parts() == old.spec_parts()
        &&& new.spec_total() == old.spec_total()
        &&& new.spec_uploaded() == old.spec_uploaded()
        &&& new.spec_state() == old.spec_state()
    }

    /// `new` is `old` after the store accepted the part in flight, of bytes
    /// `body`, with integrity tag `tag`.
    pub open spec fn stored_part(old: &Self, new: &Self, body: Seq<u8>, tag: Seq<char>) -> bool {
        &&& new.spec_parts() == old.spec_parts().push(
            PartView {
                part_number: old.spec_in_flight().unwrap(),
                e_tag: tag,
                byte_length: body.len(),
            },
        )
        &&& new.spec_uploaded() == old.spec_uploaded().push(body)
        &&& new.spec_total() == old.spec_total() + body.len()
        &&& new.spec_in_flight().is_none()
        &&& new.spec_next() == old.spec_next()
        &&& new.same_session(old)
        &&& new.spec_state() == old.spec_state()
    }

    /// Every part number handed out so far belongs to a stored part: the parts
    /// are numbered 1, 2, 3, ... and the next one continues the run.
    pub open spec fn gapless(&self) -> bool {
        &&& numbers_consecutive(self.spec_parts())
        &&& self.spec_next() == self.spec_parts().len() + 1
        &&& self.spec_in_flight().is_none()
    }

    /// A new part may be sent: the session is open, no part is in flight, and
    /// part numbers are not exhausted.
    pub open spec fn can_begin_part(&self) -> bool {
        &&& self.spec_state() == SessionState::Open
        &&& self.spec_in_flight().is_none()
        &&& self.spec_next() < i32::MAX
    }

    /// The outcome of a part may be reported: the session is open and a part is in flight.
    pub open spec fn can_record_part(&self) -> bool {
        &&& self.spec_state() == SessionState::Open
        &&& self.spec_in_flight().is_some()
    }

    /// The session may be finalized: it is open with no part in flight, and it
    /// holds at least one part unless the source was empty.
    pub open spec fn can_complete(&self, source_bytes: u64) -> bool {
        &&& self.spec_state() == SessionState::Open
        &&& self.spec_in_flight().is_none()
        &&& (self.spec_parts().len() > 0 || source_bytes == 0)
    }

    /// Opens a session from what the store answered to the create request: the
    /// session id, no id at all, or a failure message.
    pub fn open(bucket: &str, key: &str, created: Result<Option<String>, String>) -> (r: Result<
        MultipartUploadContext,
        S3Error,
    >)
        ensures
            match created {
                Ok(Some(id)) => r.is_ok() && {
                    let s = r.unwrap();
                    &&& s.wf()
                    &&& s.spec_bucket() == bucket@
                    &&& s.spec_key() == key@
                    &&& s.spec_upload_id() == id@
                    &&& s.spec_parts().len() == 0
                    &&& s.spec_next() == 1
                    &&& s.spec_in_flight().is_none()
                    &&& s.spec_total() == 0
                    &&& s.spec_state() == SessionState::Open
                    &&& s.gapless()
                },
                _ => r matches Err(S3Error::MultipartCreateError(_)),
            },
    {
        match created {
            Ok(Some(id)) => {
                let s = MultipartUploadContext {
                    bucket: bucket.to_owned(),
                    key: key.to_owned(),
                    upload_id: id,
                    parts: Vec::new(),
                    next_part_number: 1,
                    in_flight: None,
                    total_size: 0,
                    state: SessionState::Open,
                    uploaded: Ghost(Seq::empty()),
                };
                assert(s.spec_parts() =~= Seq::<PartView>::empty());
                Ok(s)
            },
            Ok(None) => Err(S3Error::MultipartCreateError("No upload ID returned".to_owned())),
            Err(msg) => Err(S3Error::MultipartCreateError(msg)),
        }
    }

    pub fn bucket(&self) -> (r: &str)
        ensures
            r@ == self.spec_bucket(),
    {
        self.bucket.as_str()
    }

    pub fn key(&self) -> (r: &str)
        ensures
            r@ == self.spec_key(),
    {
        self.key.as_str()
    }

    pub fn upload_id(&self) -> (r: &str)
        ensures
            r@ == self.spec_upload_id(),
    {
        self.upload_id.as_str()
    }

    pub fn total_size(&self) -> (r: u64)
        ensures
            r == self.spec_total(),
    {
        self.total_size
    }

    pub fn state(&self) -> (r: SessionState)
        ensures
            r == self.spec_state(),
    {
        self.state
    }

    /// Assigns the next part number to a part about to be sent. The number is
    /// used up whatever the store then answers.
    pub fn begin_part(&mut self) -> (r: Result<i32, S3Error>)
        requires
            old(self).wf(),
        ensures
            final(self).wf(),
            r.is_ok() <==> old(self).can_begin_part(),
            r.is_ok() ==> Self::began_part(old(self), final(self), r.unwrap() as int),
            r.is_err() ==> *final(self) == *old(self),
    {
        if self.state != SessionState::Open || self.in_flight.is_some() {
            return Err(S3Error::SessionClosed);
        }
        if self.next_part_number == i32::MAX {
            return Err(S3Error::Other("part numbers exhausted".to_owned()));
        }
        let n = self.next_part_number;
        self.next_part_number = n + 1;
        self.in_flight = Some(n);
        Ok(n)
    }

    /// Takes the store's answer for the part in flight, whose bytes were `body`:
    /// its integrity tag, no tag, or a failure message. Only a tagged answer
    /// records the part and adds its length to the total.
    pub fn record_part(&mut self, body: &[u8], outcome: Result<Option<String>, String>) -> (r:
        Result<(), S3Error>)
        requires
            old(self).wf(),
        ensures
            final(self).wf(),
            final(self).same_session(old(self)),
            final(self).spec_next() == old(self).spec_next(),
            final(self).spec_state() == old(self).spec_state(),
            !old(self).can_record_part() ==> r.is_err() && r.unwrap_err() is SessionClosed
                && *final(self) == *old(self),
            old(self).can_record_part() ==> final(self).spec_in_flight().is_none(),
            old(self).can_record_part() ==> match outcome {
                Ok(Some(tag)) => if old(self).spec_total() + body@.len() <= u64::MAX {
                    &&& r.is_ok()
                    &&& Self::stored_part(old(self), final(self), body@, tag@)
                } else {
                    &&& r.is_err()
                    &&& r.unwrap_err() is Other
                    &&& final(self).spec_parts() == old(self).spec_parts()
                    &&& final(self).spec_total() == old(self).spec_total()
                    &&& final(self).spec_uploaded() == old(self).spec_uploaded()
                },
                _ => {
                    &&& r.is_err()
                    &&& r.unwrap_err() is PartUploadError
                    &&& r.unwrap_err()->part_number == old(self).spec_in_flight().unwrap()
                    &&& final(self).spec_parts() == old(self).spec_parts()
                    &&& final(self).spec_total() == old(self).spec_total()
                    &&& final(self).spec_uploaded() == old(self).spec_uploaded()
                },
            },
    {
        if self.state != SessionState::Open {
            return Err(S3Error::SessionClosed);
        }
        let n = match self.in_flight {
            Some(n) => n,
            None => {
                return Err(S3Error::SessionClosed);
            },
        };
        self.in_flight = None;
        let len = body.len() as u64;
        match outcome {
            Ok(Some(tag)) => {
                if self.total_size > u64::MAX - len {
                    return Err(S3Error::Other("upload size overflows".to_owned()));
                }
                let ghost before = self.spec_parts();
                let ghost up = self.uploaded@;
                self.parts.push(PartRecord { part_number: n, e_tag: tag, byte_length: len });
                self.total_size = self.total_size + len;
                self.uploaded = Ghost(self.uploaded@.push(body@));
                proof {
                    let after = self.spec_parts();
                    assert(after =~= before.push(
                        PartView { part_number: n as int, e_tag: tag@, byte_length: len as nat },
                    ));
                    assert(after.drop_last() =~= before);
                    assert(self.uploaded@.drop_last() =~= up);
                    assert(self.uploaded@.flatten_alt() == up.flatten_alt() + body@);
                    assert forall|i: int, j: int|
                        0 <= i < j < after.len() implies (#[trigger] after[i]).part_number
                        < (#[trigger] after[j]).part_number by {
                        if j < before.len() {
                            assert(after[i] == before[i]);
                            assert(after[j] == before[j]);
                        } else {
                            assert(after[i] == before[i]);
                            if before.len() > 0 {
                                assert(before[i].part_number <= before.last().part_number);
                            }
                        }
                    }
                    assert forall|i: int| 0 <= i < after.len() implies 1 <= (#[trigger]
                    after[i]).part_number < self.spec_next() by {
                        if i < before.len() {
                            assert(after[i] == before[i]);
                        }
                    }
                    assert forall|i: int| 0 <= i < after.len() implies (#[trigger]
                    after[i]).byte_length == self.uploaded@[i].len() by {
                        if i < before.len() {
                            assert(after[i] == before[i]);
                        }
                    }
                }
                Ok(())
            },
            Ok(None) => Err(
                S3Error::PartUploadError {
                    part_number: n,
                    reason: "No ETag returned".to_owned(),
                },
            ),
            Err(msg) => Err(S3Error::PartUploadError { part_number: n, reason: msg }),
        }
    }

    /// The part list to send with the completion request, in part-number order
    /// (parts are kept in that order as they are recorded, so no sorting is
    /// needed). `source_bytes` is how many bytes the source field held.
    pub fn completion_parts(&self, source_bytes: u64) -> (r: Result<Vec<PartRecord>, S3Error>)
        requires
            self.wf(),
        ensures
            r.is_ok() <==> self.can_complete(source_bytes),
            r.is_ok() ==> part_views(r.unwrap()@) == self.spec_parts(),
            r.is_ok() ==> numbers_increasing(part_views(r.unwrap()@)),
            r.is_err() ==> match r.unwrap_err() {
                S3Error::NoPartsUploaded => self.spec_state() == SessionState::Open
                    && self.spec_in_flight().is_none(),
                S3Error::SessionClosed => !(self.spec_state() == SessionState::Open
                    && self.spec_in_flight().is_none()),
                _ => false,
            },
    {
        if self.state != SessionState::Open || self.in_flight.is_some() {
            return Err(S3Error::SessionClosed);
        }
        if self.parts.len() == 0 && source_bytes > 0 {
            return Err(S3Error::NoPartsUploaded);
        }
        let mut out: Vec<PartRecord> = Vec::new();
        let mut i: usize = 0;
        while i < self.parts.len()
            invariant
                i <= self.parts@.len(),
                part_views(out@) == self.spec_parts().take(i as int),
            decreases self.parts@.len() - i,
        {
            let p = &self.parts[i];
            let ghost old_out = out@;
            out.push(
                PartRecord {
                    part_number: p.part_number,
                    e_tag: p.e_tag.clone(),
                    byte_length: p.byte_length,
                },
            );
            proof {
                let v = self.parts@[i as int];
                assert(out@.last()@ == v@);
                assert(out@.drop_last() =~= old_out);
                assert(part_views(out@) =~= part_views(old_out).push(v@));
                assert(self.spec_parts()[i as int] == v@);
                assert(part_views(out@) =~= self.spec_parts().take(i + 1));
            }
            i = i + 1;
        }
        assert(self.spec_parts().take(self.parts@.len() as int) =~= self.spec_parts());
        Ok(out)
    }

    /// Ends the session with the store's answer to the completion request. On
    /// success the session is completed and the result carries the total size;
    /// a failed completion leaves it open, to be aborted.
    pub fn complete(&mut self, name: &str, source_bytes: u64, outcome: Result<(), String>) -> (r:
        Result<UploadResult, S3Error>)
        requires
            old(self).wf(),
        ensures
            final(self).wf(),
            final(self).same_progress(old(self)),
            final(self).spec_in_flight() == old(self).spec_in_flight(),
            r.is_ok() <==> old(self).can_complete(source_bytes) && outcome.is_ok(),
            old(self).spec_parts().len() == 0 && source_bytes > 0 ==> r.is_err(),
            r.is_ok() ==> {
                &&& final(self).spec_state() == SessionState::Completed
                &&& r.unwrap().name@ == name@
                &&& r.unwrap().size == parts_bytes(old(self).spec_parts())
                &&& r.unwrap().size == old(self).spec_uploaded().flatten_alt().len()
            },
            r.is_err() ==> final(self).spec_state() == old(self).spec_state(),
            r.is_err() ==> match r.unwrap_err() {
                S3Error::SessionClosed => !(old(self).spec_state() == SessionState::Open
                    && old(self).spec_in_flight().is_none()),
                S3Error::NoPartsUploaded => !old(self).can_complete(source_bytes),
                S3Error::MultipartCompleteError(_) => old(self).can_complete(source_bytes)
                    && outcome.is_err(),
                _ => false,
            },
    {
        if self.state != SessionState::Open || self.in_flight.is_some() {
            return Err(S3Error::SessionClosed);
        }
        if self.parts.len() == 0 && source_bytes > 0 {
            return Err(S3Error::NoPartsUploaded);
        }
        match outcome {
            Ok(()) => {
                self.state = SessionState::Completed;
                Ok(UploadResult { name: name.to_owned(), size: self.total_size })
            },
            Err(msg) => Err(S3Error::MultipartCompleteError(msg)),
        }
    }

    /// Abandons the session: it is aborted from then on, whatever parts it holds,
    /// unless it was already completed. Returns whether the store must be told
    /// (the session was open).
    pub fn abort(&mut self) -> (r: bool)
        requires
            old(self).wf(),
        ensures
            final(self).wf(),
            final(self).same_session(old(self)),
            final(self).same_progress(old(self)),
            final(self).spec_in_flight() == old(self).spec_in_flight(),
            r == (old(self).spec_state() == SessionState::Open),
            old(self).spec_state() == SessionState::Completed ==> final(self).spec_state()
                == SessionState::Completed,
            old(self).spec_state() != SessionState::Completed ==> final(self).spec_state()
                == SessionState::Aborted,
    {
        let was_open = self.state == SessionState::Open;
        if self.state != SessionState::Completed {
            self.state = SessionState::Aborted;
        }
        was_open
    }
}

/// Part numbers of successful uploads run 1, 2, 3, ... with no gap: a session
/// opened afresh is gapless, and while every part succeeds each new part gets
/// the number after the previous one and the session stays gapless.
pub proof fn successful_parts_are_numbered_consecutively(
    a: MultipartUploadContext,
    b: MultipartUploadContext,
    c: MultipartUploadContext,
    n: int,
    body: Seq<u8>,
    tag: Seq<char>,
)
    requires
        a.wf(),
        a.gapless(),
        MultipartUploadContext::began_part(&a, &b, n),
        MultipartUploadContext::stored_part(&b, &c, body, tag),
    ensures
        n == a.spec_parts().len() + 1,
        c.gapless(),
        c.spec_parts().last().part_number == c.spec_parts().len(),
{
    let p = c.spec_parts();
    assert forall|i: int| 0 <= i < p.len() implies (#[trigger] p[i]).part_number == i + 1 by {
        if i < a.spec_parts().len() {
            assert(p[i] == a.spec_parts()[i]);
        }
    }
}

/// An aborted session can never resume: no part can be sent or recorded and it
/// cannot be completed, whatever parts it holds.
pub proof fn aborted_session_is_final(s: MultipartUploadContext, source_bytes: u64)
    requires
        s.spec_state() == SessionState::Aborted,
    ensures
        !s.can_begin_part(),
        !s.can_record_part(),
        !s.can_complete(source_bytes),
{
}

/// The size of a finished upload is the sum of its part lengths and the number
/// of bytes the source field held, when the parts are the accumulator's chunks.
pub proof fn uploaded_size_is_source_size(s: MultipartUploadContext, acc: ChunkAccumulator)
    requires
        s.wf(),
        acc.wf(),
        s.spec_uploaded() == with_remainder(acc.emitted(), acc.pending()),
    ensures
        s.spec_total() == parts_bytes(s.spec_parts()),
        s.spec_total() == acc.pushed().len(),
{
    chunking_covers_stream(acc);
}

} // verus!
