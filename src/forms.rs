use vstd::prelude::*;
use crate::envelope::{BadResponseObject, DetailValue, DetailView, ErrorCode};
use crate::naming::same_text;
use crate::rewriter::{is_white_space, chars_of};
use crate::session::UploadResult;

verus! {

/// The two files of a vocal + instrumental upload.
#[derive(Debug, Clone, Copy, PartialEq, Eq, Structural)]
pub enum TrackRole {
    Vocal,
    Instrumental,
}

/// Which file a form field of a two-track upload carries; any other field
/// name is refused with the upload error.
pub fn track_role(field_name: &str) -> (r: Result<TrackRole, BadResponseObject>)
    ensures
        field_name@ == "vocal"@ ==> r is Ok && r->Ok_0 == TrackRole::Vocal,
        field_name@ == "instrumental"@ ==> r is Ok && r->Ok_0 == TrackRole::Instrumental,
        field_name@ != "vocal"@ && field_name@ != "instrumental"@ ==> r is Err && r->Err_0.is_entry_with(
            ErrorCode::CoreFileUploadingError,
            Map::empty(),
        ),
{
    proof {
        reveal_strlit("vocal");
        reveal_strlit("instrumental");
        assert("vocal"@[0] != "instrumental"@[0]);
    }
    if same_text(field_name, "vocal") {
        Ok(TrackRole::Vocal)
    } else if same_text(field_name, "instrumental") {
        Ok(TrackRole::Instrumental)
    } else {
        Err(ErrorCode::CoreFileUploadingError.details())
    }
}

/// The error for a file field of a two-track form that carries no file name:
/// the validation error, with no details.
pub fn unnamed_track_error() -> (r: BadResponseObject)
    ensures
        r.is_entry_with(ErrorCode::ValidationError, Map::empty()),
{
    ErrorCode::ValidationError.details()
}

/// The results gathered while a two-track form is read.
pub struct TracksUpload {
    vocal: Option<UploadResult>,
    instrumental: Option<UploadResult>,
}

impl TracksUpload {
    pub closed spec fn spec_vocal(&self) -> Option<(Seq<char>, u64)> {
        match &self.vocal {
            Some(u) => Some((u.name@, u.size)),
            None => None,
        }
    }

    pub closed spec fn spec_instrumental(&self) -> Option<(Seq<char>, u64)> {
        match &self.instrumental {
            Some(u) => Some((u.name@, u.size)),
            None => None,
        }
    }

    pub fn new() -> (r: TracksUpload)
        ensures
            r.spec_vocal().is_none(),
            r.spec_instrumental().is_none(),
    {
        TracksUpload { vocal: None, instrumental: None }
    }

    /// Keeps the result of the file in `role`; a later file of the same role
    /// replaces an earlier one.
    pub fn record(&mut self, role: TrackRole, result: UploadResult)
        ensures
            role == TrackRole::Vocal ==> final(self).spec_vocal() == Some((result.name@, result.size))
                && final(self).spec_instrumental() == old(self).spec_instrumental(),
            role == TrackRole::Instrumental ==> final(self).spec_instrumental() == Some(
                (result.name@, result.size),
            ) && final(self).spec_vocal() == old(self).spec_vocal(),
    {
        match role {
            TrackRole::Vocal => self.vocal = Some(result),
            TrackRole::Instrumental => self.instrumental = Some(result),
        }
    }

    /// Both results, or the upload error when either file is missing.
    pub fn finish(self) -> (r: Result<(UploadResult, UploadResult), BadResponseObject>)
        ensures
            r is Ok <==> self.spec_vocal().is_some() && self.spec_instrumental().is_some(),
            r is Ok ==> Some((r->Ok_0.0.name@, r->Ok_0.0.size)) == self.spec_vocal() && Some(
                (r->Ok_0.1.name@, r->Ok_0.1.size),
            ) == self.spec_instrumental(),
            r is Err ==> r->Err_0.is_entry_with(ErrorCode::CoreFileUploadingError, Map::empty()),
    {
        match (self.vocal, self.instrumental) {
            (Some(v), Some(i)) => Ok((v, i)),
            _ => Err(ErrorCode::CoreFileUploadingError.details()),
        }
    }
}

/// The fields of a single-track form.
#[derive(Debug, Clone, Copy, PartialEq, Eq, Structural)]
pub enum SingleField {
    /// The file itself.
    Track,
    /// The folder to store it in.
    Path,
}

/// The upload error with a `reason` detail.
pub open spec fn upload_error_with_reason(e: BadResponseObject, reason: Seq<char>) -> bool {
    e.is_entry_with(
        ErrorCode::CoreFileUploadingError,
        map!["reason"@ => DetailView::Text(reason)],
    )
}

/// The upload error for a request that could not be read as a form.
pub fn unreadable_form_error() -> (r: BadResponseObject)
    ensures
        upload_error_with_reason(r, "Failed to get form field"@),
{
    reason_error("Failed to get form field")
}

/// The upload error for a file field that carries no file name.
pub fn missing_file_name_error() -> (r: BadResponseObject)
    ensures
        upload_error_with_reason(r, "Missing file name in the uploaded file"@),
{
    reason_error("Missing file name in the uploaded file")
}

/// The upload error for a folder field that is not text.
pub fn unreadable_path_error() -> (r: BadResponseObject)
    ensures
        upload_error_with_reason(r, "Failed to read path field as text"@),
{
    reason_error("Failed to read path field as text")
}

fn reason_error(reason: &str) -> (r: BadResponseObject)
    ensures
        upload_error_with_reason(r, reason@),
{
    let e = ErrorCode::CoreFileUploadingError.details().with("reason", DetailValue::text(reason));
    proof {
        let m = map!["reason"@ => DetailView::Text(reason@)];
        assert forall|k: Seq<char>| #[trigger]
            e.spec_detail(k) == if m.contains_key(k) {
                Some(m[k])
            } else {
                None
            } by {
            if k == "reason"@ {
            } else {
            }
        }
    }
    e
}

/// Which field of a single-track form `field_name` is; any other name is
/// refused with the upload error naming the field.
pub fn single_field(field_name: &str) -> (r: Result<SingleField, BadResponseObject>)
    ensures
        field_name@ == "track"@ ==> r is Ok && r->Ok_0 == SingleField::Track,
        field_name@ == "path"@ ==> r is Ok && r->Ok_0 == SingleField::Path,
        field_name@ != "track"@ && field_name@ != "path"@ ==> r is Err && r->Err_0.is_entry_with(
            ErrorCode::CoreFileUploadingError,
            map![
                "reason"@ => DetailView::Text("Unknown field in multipart form"@),
                "field_name"@ => DetailView::Text(field_name@),
            ],
        ),
{
    proof {
        reveal_strlit("track");
        reveal_strlit("path");
        assert("track"@[0] != "path"@[0]);
    }
    if same_text(field_name, "track") {
        Ok(SingleField::Track)
    } else if same_text(field_name, "path") {
        Ok(SingleField::Path)
    } else {
        let e = ErrorCode::CoreFileUploadingError.details().with(
            "reason",
            DetailValue::text("Unknown field in multipart form"),
        ).with("field_name", DetailValue::text(field_name));
        proof {
            reveal_strlit("reason");
            reveal_strlit("field_name");
            let m = map![
                "reason"@ => DetailView::Text("Unknown field in multipart form"@),
                "field_name"@ => DetailView::Text(field_name@),
            ];
            assert forall|k: Seq<char>| #[trigger]
                e.spec_detail(k) == if m.contains_key(k) {
                    Some(m[k])
                } else {
                    None
                } by {
                if k == "field_name"@ {
                } else if k == "reason"@ {
                } else {
                }
            }
        }
        Err(e)
    }
}

/// The folder used when a form names none.
pub open spec fn default_folder() -> Seq<char> {
    "test"@
}

/// The folder named by a form's path field: the text as given, or the default
/// folder when it is blank.
pub fn folder_or_default(text: &str) -> (r: String)
    ensures
        (forall|i: int| 0 <= i < text@.len() ==> is_white_space(#[trigger] text@[i])) ==> r@
            == default_folder(),
        !(forall|i: int| 0 <= i < text@.len() ==> is_white_space(#[trigger] text@[i])) ==> r@
            == text@,
{
    let chars = chars_of(text);
    let mut i: usize = 0;
    while i < chars.len()
        invariant
            i <= chars@.len(),
            chars@ == text@,
            forall|j: int| 0 <= j < i ==> is_white_space(#[trigger] text@[j]),
        decreases chars@.len() - i,
    {
        if !crate::rewriter::is_white_space_char(chars[i]) {
            return text.to_owned();
        }
        i = i + 1;
    }
    "test".to_owned()
}

} // verus!
