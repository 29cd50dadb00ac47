use vstd::prelude::*;

verus! {

/// A value stored under a detail key of an error envelope.
#[derive(Debug, Clone)]
pub enum DetailValue {
    Text(String),
    Integer(i64),
    Flag(bool),
    /// Any other JSON value, kept as its JSON text.
    Json(String),
}

/// What a detail value stands for.
pub enum DetailView {
    Text(Seq<char>),
    Integer(i64),
    Flag(bool),
    Json(Seq<char>),
}

impl View for DetailValue {
    type V = DetailView;

    open spec fn view(&self) -> DetailView {
        match self {
            DetailValue::Text(s) => DetailView::Text(s@),
            DetailValue::Integer(i) => DetailView::Integer(*i),
            DetailValue::Flag(b) => DetailView::Flag(*b),
            DetailValue::Json(s) => DetailView::Json(s@),
        }
    }
}

impl DetailValue {
    pub fn text(s: &str) -> (r: DetailValue)
        ensures
            r@ == DetailView::Text(s@),
    {
        DetailValue::Text(s.to_owned())
    }
}

/// The value under `key` in a list of detail entries, where a later entry
/// overrides an earlier one with the same key.
pub open spec fn lookup_detail(entries: Seq<(String, DetailValue)>, key: Seq<char>) -> Option<
    DetailView,
>
    decreases entries.len(),
{
    if entries.len() == 0 {
        None
    } else if entries.last().0@ == key {
        Some(entries.last().1@)
    } else {
        lookup_detail(entries.drop_last(), key)
    }
}

proof fn lemma_lookup_prefix(entries: Seq<(String, DetailValue)>, key: Seq<char>, i: int)
    requires
        0 <= i <= entries.len(),
        forall|j: int| i <= j < entries.len() ==> (#[trigger] entries[j]).0@ != key,
    ensures
        lookup_detail(entries, key) == lookup_detail(entries.take(i), key),
    decreases entries.len() - i,
{
    if i < entries.len() {
        let d = entries.drop_last();
        assert(entries[entries.len() - 1].0@ != key);
        lemma_lookup_prefix(d, key, i);
        assert(d.take(i) =~= entries.take(i));
    } else {
        assert(entries.take(i) =~= entries);
    }
}

/// Envelope codes: 4000-4999 for caller faults, 5000-5999 for server faults.
pub open spec fn is_envelope_code(code: u16) -> bool {
    4000 <= code <= 5999
}

/// Status class of an envelope code: 400 for caller faults (4000-4999), 500 otherwise.
pub open spec fn status_for_code(code: u16) -> u16 {
    if 4000 <= code < 5000 {
        400
    } else {
        500
    }
}

/// The canonical error value handed to API clients: a numeric code, a message,
/// a key/value map of details and two presentation flags.
#[derive(Debug)]
pub struct BadResponseObject {
    code: u16,
    msg: String,
    details: Vec<(String, DetailValue)>,
    redirect: bool,
    notification: bool,
}

impl BadResponseObject {
    #[verifier::type_invariant]
    spec fn code_in_range(&self) -> bool {
        is_envelope_code(self.code)
    }

    pub closed spec fn spec_code(&self) -> u16 {
        self.code
    }

    pub closed spec fn spec_msg(&self) -> Seq<char> {
        self.msg@
    }

    /// The detail stored under `key`, if any.
    pub closed spec fn spec_detail(&self, key: Seq<char>) -> Option<DetailView> {
        lookup_detail(self.details@, key)
    }

    pub closed spec fn spec_redirect(&self) -> bool {
        self.redirect
    }

    pub closed spec fn spec_notification(&self) -> bool {
        self.notification
    }

    /// Same code, message and flags.
    pub open spec fn same_head(&self, o: &BadResponseObject) -> bool {
        &&& self.spec_code() == o.spec_code()
        &&& self.spec_msg() == o.spec_msg()
        &&& self.spec_redirect() == o.spec_redirect()
        &&& self.spec_notification() == o.spec_notification()
    }

    /// `self` is `o` with `value` stored under `key` and every other detail kept.
    pub open spec fn is_with(&self, o: &BadResponseObject, key: Seq<char>, value: DetailView) -> bool {
        &&& self.same_head(o)
        &&& self.spec_detail(key) == Some(value)
        &&& forall|k: Seq<char>| k != key ==> #[trigger] self.spec_detail(k) == o.spec_detail(k)
    }

    /// `self` has the code and message of `e`, no flags set, and exactly the
    /// details listed in `given`.
    pub open spec fn is_entry_with(&self, e: ErrorCode, given: Map<Seq<char>, DetailView>) -> bool {
        &&& self.spec_code() == code_number(e)
        &&& self.spec_msg() == code_message(e)
        &&& !self.spec_redirect()
        &&& !self.spec_notification()
        &&& forall|k: Seq<char>| #[trigger]
            self.spec_detail(k) == if given.contains_key(k) {
                Some(given[k])
            } else {
                None
            }
    }

    pub fn new(code: u16, msg: String) -> (r: BadResponseObject)
        requires
            is_envelope_code(code),
        ensures
            r.spec_code() == code,
            r.spec_msg() == msg@,
            !r.spec_redirect(),
            !r.spec_notification(),
            forall|k: Seq<char>| #[trigger] r.spec_detail(k) == None::<DetailView>,
    {
        BadResponseObject { code, msg, details: Vec::new(), redirect: false, notification: false }
    }

    /// Stores `value` under `key`, replacing any earlier value of that key.
    pub fn with(self, key: &str, value: DetailValue) -> (r: BadResponseObject)
        ensures
            r.is_with(&self, key@, value@),
    {
        proof {
            use_type_invariant(&self);
        }
        let ghost old_details = self.details@;
        let BadResponseObject { code, msg, mut details, redirect, notification } = self;
        details.push((key.to_owned(), value));
        proof {
            assert(details@.drop_last() =~= old_details);
        }
        BadResponseObject { code, msg, details, redirect, notification }
    }

    /// Stores `value` under `key` when `condition` holds, else returns `self` as is.
    pub fn with_if(self, condition: bool, key: &str, value: DetailValue) -> (r: BadResponseObject)
        ensures
            condition ==> r.is_with(&self, key@, value@),
            !condition ==> r == self,
    {
        if condition {
            self.with(key, value)
        } else {
            self
        }
    }

    /// Stores the value under `key` when there is one, else returns `self` as is.
    pub fn with_opt(self, key: &str, value: Option<DetailValue>) -> (r: BadResponseObject)
        ensures
            value.is_some() ==> r.is_with(&self, key@, value.unwrap()@),
            value.is_none() ==> r == self,
    {
        match value {
            Some(v) => self.with(key, v),
            None => self,
        }
    }

    /// Marks the error as one after which the client should redirect.
    pub fn redirect(self) -> (r: BadResponseObject)
        ensures
            r.spec_redirect(),
            r.spec_code() == self.spec_code(),
            r.spec_msg() == self.spec_msg(),
            r.spec_notification() == self.spec_notification(),
            forall|k: Seq<char>| #[trigger] r.spec_detail(k) == self.spec_detail(k),
    {
        proof {
            use_type_invariant(&self);
        }
        let mut r = self;
        r.redirect = true;
        r
    }

    /// Marks the error as one the client should show as a notification.
    pub fn notification(self) -> (r: BadResponseObject)
        ensures
            r.spec_notification(),
            r.spec_code() == self.spec_code(),
            r.spec_msg() == self.spec_msg(),
            r.spec_redirect() == self.spec_redirect(),
            forall|k: Seq<char>| #[trigger] r.spec_detail(k) == self.spec_detail(k),
    {
        proof {
            use_type_invariant(&self);
        }
        let mut r = self;
        r.notification = true;
        r
    }

    /// Marks the error as one the client should show as a notification (the
    /// same as `notification`).
    pub fn notify(self) -> (r: BadResponseObject)
        ensures
            r.spec_notification(),
            r.spec_code() == self.spec_code(),
            r.spec_msg() == self.spec_msg(),
            r.spec_redirect() == self.spec_redirect(),
            forall|k: Seq<char>| #[trigger] r.spec_detail(k) == self.spec_detail(k),
    {
        self.notification()
    }

    pub fn default_400() -> (r: BadResponseObject)
        ensures
            r.is_entry_with(ErrorCode::BadRequest, Map::empty()),
    {
        ErrorCode::BadRequest.details()
    }

    pub fn default_500() -> (r: BadResponseObject)
        ensures
            r.is_entry_with(ErrorCode::InternalError, Map::empty()),
    {
        ErrorCode::InternalError.details()
    }

    pub fn code(&self) -> (r: u16)
        ensures
            r == self.spec_code(),
            is_envelope_code(r),
    {
        proof {
            use_type_invariant(self);
        }
        self.code
    }

    pub fn msg(&self) -> (r: &str)
        ensures
            r@ == self.spec_msg(),
    {
        self.msg.as_str()
    }

    pub fn is_redirect(&self) -> (r: bool)
        ensures
            r == self.spec_redirect(),
    {
        self.redirect
    }

    pub fn is_notification(&self) -> (r: bool)
        ensures
            r == self.spec_notification(),
    {
        self.notification
    }

    /// The HTTP status that carries this error: 400 for codes 4000-4999, else 500.
    pub fn http_status(&self) -> (r: u16)
        ensures
            r == status_for_code(self.spec_code()),
    {
        if 4000 <= self.code && self.code < 5000 {
            400
        } else {
            500
        }
    }

    /// The detail stored under `key`, if any.
    pub fn detail(&self, key: &str) -> (r: Option<&DetailValue>)
        ensures
            r.is_none() ==> self.spec_detail(key@).is_none(),
            r.is_some() ==> self.spec_detail(key@) == Some(r.unwrap()@),
    {
        let k = key.to_owned();
        let mut i: usize = self.details.len();
        while i > 0
            invariant
                i <= self.details@.len(),
                k@ == key@,
                forall|j: int| i <= j < self.details@.len() ==> (#[trigger] self.details@[j]).0@
                    != key@,
            decreases i,
        {
            if self.details[i - 1].0 == k {
                proof {
                    lemma_lookup_prefix(self.details@, key@, i as int);
                    let t = self.details@.take(i as int);
                    assert(t.last() == self.details@[i - 1]);
                }
                return Some(&self.details[i - 1].1);
            }
            i = i - 1;
        }
        proof {
            lemma_lookup_prefix(self.details@, key@, 0);
        }
        None
    }

    /// The detail entries in the order they were stored; a later entry
    /// overrides an earlier one with the same key.
    pub fn details(&self) -> (r: &Vec<(String, DetailValue)>)
        ensures
            forall|k: Seq<char>| #[trigger] lookup_detail(r@, k) == self.spec_detail(k),
    {
        &self.details
    }
}

/// The catalogue of error codes: each names a numeric code and a default message.
/// Codes 4000-4999 are the caller's fault, 5000-5999 the server's.
#[derive(Debug, Clone, Copy, PartialEq, Eq, Structural)]
pub enum ErrorCode {
    BadRequest,
    CouldNotValidateUserCreds,
    UserExpiredSignatureError,
    IncorrUserCreds,
    NotAuthenticated,
    InactiveUser,
    UserRegistrationForbidden,
    UserNotExists,
    UserExists,
    ProjectLocked,
    AvailableProjectsLimitExceeded,
    AvailableEditsLimitExceeded,
    NameAlreadyExists,
    InstrumentalTrackExists,
    TaskNotFound,
    TaskAlreadyExists,
    SessionNotFound,
    SessionAlreadyExists,
    TooManyRequestsError,
    ValidationError,
    WrongFormat,
    Unauthorized,
    AuthorizeError,
    ForbiddenError,
    NotFoundError,
    ResponseProcessingError,
    YookassaApiError,
    PayloadTooLarge,
    InternalError,
    BrideError,
    CoreOffline,
    CoreFileUploadingError,
    DbError,
    UnknownError,
}

/// The numeric code of each catalogue entry.
pub open spec fn code_number(e: ErrorCode) -> u16 {
    match e {
            ErrorCode::BadRequest => 4000,
            ErrorCode::CouldNotValidateUserCreds => 4021,
            ErrorCode::UserExpiredSignatureError => 4022,
            ErrorCode::IncorrUserCreds => 4023,
            ErrorCode::NotAuthenticated => 4030,
            ErrorCode::InactiveUser => 4032,
            ErrorCode::UserRegistrationForbidden => 4033,
            ErrorCode::UserNotExists => 4035,
            ErrorCode::UserExists => 4036,
            ErrorCode::ProjectLocked => 4041,
            ErrorCode::AvailableProjectsLimitExceeded => 4042,
            ErrorCode::AvailableEditsLimitExceeded => 4043,
            ErrorCode::NameAlreadyExists => 4044,
            ErrorCode::InstrumentalTrackExists => 4045,
            ErrorCode::TaskNotFound => 4061,
            ErrorCode::TaskAlreadyExists => 4062,
            ErrorCode::SessionNotFound => 4071,
            ErrorCode::SessionAlreadyExists => 4072,
            ErrorCode::TooManyRequestsError => 4301,
            ErrorCode::ValidationError => 4400,
            ErrorCode::WrongFormat => 4411,
            ErrorCode::Unauthorized => 4501,
            ErrorCode::AuthorizeError => 4502,
            ErrorCode::ForbiddenError => 4503,
            ErrorCode::NotFoundError => 4504,
            ErrorCode::ResponseProcessingError => 4505,
            ErrorCode::YookassaApiError => 4511,
            ErrorCode::PayloadTooLarge => 4513,
            ErrorCode::InternalError => 5000,
            ErrorCode::BrideError => 5010,
            ErrorCode::CoreOffline => 5021,
            ErrorCode::CoreFileUploadingError => 5022,
            ErrorCode::DbError => 5041,
            ErrorCode::UnknownError => 5999,
    }
}

/// The default message of each catalogue entry.
pub open spec fn code_message(e: ErrorCode) -> Seq<char> {
    match e {
            ErrorCode::BadRequest => "Bad Request"@,
            ErrorCode::CouldNotValidateUserCreds => "Could not validate credentials: ValidationError"@,
            ErrorCode::UserExpiredSignatureError => "Could not validate credentials: ExpiredSignatureError"@,
            ErrorCode::IncorrUserCreds => "Incorrect login or password"@,
            ErrorCode::NotAuthenticated => "Not authenticated"@,
            ErrorCode::InactiveUser => "Inactive user"@,
            ErrorCode::UserRegistrationForbidden => "Open user registration is forbidden on this server"@,
            ErrorCode::UserNotExists => "The user with this username does not exist in the system"@,
            ErrorCode::UserExists => "The user already exists in the system"@,
            ErrorCode::ProjectLocked => "Project locked"@,
            ErrorCode::AvailableProjectsLimitExceeded => "Available projects limit exceeded"@,
            ErrorCode::AvailableEditsLimitExceeded => "Available edits limit exceeded"@,
            ErrorCode::NameAlreadyExists => "This name already exists"@,
            ErrorCode::InstrumentalTrackExists => "Instrumental track already exists"@,
            ErrorCode::TaskNotFound => "Task not found"@,
            ErrorCode::TaskAlreadyExists => "Task already exists"@,
            ErrorCode::SessionNotFound => "Session not found"@,
            ErrorCode::SessionAlreadyExists => "Session already exists"@,
            ErrorCode::TooManyRequestsError => "Too Many Requests"@,
            ErrorCode::ValidationError => "Validation error"@,
            ErrorCode::WrongFormat => "Wrong format"@,
            ErrorCode::Unauthorized => "Sorry, you are not allowed to access this service: UnauthorizedRequest"@,
            ErrorCode::AuthorizeError => "Authorization error"@,
            ErrorCode::ForbiddenError => "Forbidden"@,
            ErrorCode::NotFoundError => "Not Found"@,
            ErrorCode::ResponseProcessingError => "Response Processing Error"@,
            ErrorCode::YookassaApiError => "Yookassa Api Error"@,
            ErrorCode::PayloadTooLarge => "Payload too large"@,
            ErrorCode::InternalError => "Internal Server Error"@,
            ErrorCode::BrideError => "Bride in prison"@,
            ErrorCode::CoreOffline => "Core is offline"@,
            ErrorCode::CoreFileUploadingError => "Core file uploading error"@,
            ErrorCode::DbError => "Bad Gateway"@,
            ErrorCode::UnknownError => "Internal Server Error"@,
    }
}

impl ErrorCode {
    pub fn number(&self) -> (r: u16)
        ensures
            r == code_number(*self),
            is_envelope_code(r),
    {
        match self {
            ErrorCode::BadRequest => 4000,
            ErrorCode::CouldNotValidateUserCreds => 4021,
            ErrorCode::UserExpiredSignatureError => 4022,
            ErrorCode::IncorrUserCreds => 4023,
            ErrorCode::NotAuthenticated => 4030,
            ErrorCode::InactiveUser => 4032,
            ErrorCode::UserRegistrationForbidden => 4033,
            ErrorCode::UserNotExists => 4035,
            ErrorCode::UserExists => 4036,
            ErrorCode::ProjectLocked => 4041,
            ErrorCode::AvailableProjectsLimitExceeded => 4042,
            ErrorCode::AvailableEditsLimitExceeded => 4043,
            ErrorCode::NameAlreadyExists => 4044,
            ErrorCode::InstrumentalTrackExists => 4045,
            ErrorCode::TaskNotFound => 4061,
            ErrorCode::TaskAlreadyExists => 4062,
            ErrorCode::SessionNotFound => 4071,
            ErrorCode::SessionAlreadyExists => 4072,
            ErrorCode::TooManyRequestsError => 4301,
            ErrorCode::ValidationError => 4400,
            ErrorCode::WrongFormat => 4411,
            ErrorCode::Unauthorized => 4501,
            ErrorCode::AuthorizeError => 4502,
            ErrorCode::ForbiddenError => 4503,
            ErrorCode::NotFoundError => 4504,
            ErrorCode::ResponseProcessingError => 4505,
            ErrorCode::YookassaApiError => 4511,
            ErrorCode::PayloadTooLarge => 4513,
            ErrorCode::InternalError => 5000,
            ErrorCode::BrideError => 5010,
            ErrorCode::CoreOffline => 5021,
            ErrorCode::CoreFileUploadingError => 5022,
            ErrorCode::DbError => 5041,
            ErrorCode::UnknownError => 5999,
        }
    }

    pub fn message(&self) -> (r: &'static str)
        ensures
            r@ == code_message(*self),
    {
        match self {
            ErrorCode::BadRequest => "Bad Request",
            ErrorCode::CouldNotValidateUserCreds => "Could not validate credentials: ValidationError",
            ErrorCode::UserExpiredSignatureError => "Could not validate credentials: ExpiredSignatureError",
            ErrorCode::IncorrUserCreds => "Incorrect login or password",
            ErrorCode::NotAuthenticated => "Not authenticated",
            ErrorCode::InactiveUser => "Inactive user",
            ErrorCode::UserRegistrationForbidden => "Open user registration is forbidden on this server",
            ErrorCode::UserNotExists => "The user with this username does not exist in the system",
            ErrorCode::UserExists => "The user already exists in the system",
            ErrorCode::ProjectLocked => "Project locked",
            ErrorCode::AvailableProjectsLimitExceeded => "Available projects limit exceeded",
            ErrorCode::AvailableEditsLimitExceeded => "Available edits limit exceeded",
            ErrorCode::NameAlreadyExists => "This name already exists",
            ErrorCode::InstrumentalTrackExists => "Instrumental track already exists",
            ErrorCode::TaskNotFound => "Task not found",
            ErrorCode::TaskAlreadyExists => "Task already exists",
            ErrorCode::SessionNotFound => "Session not found",
            ErrorCode::SessionAlreadyExists => "Session already exists",
            ErrorCode::TooManyRequestsError => "Too Many Requests",
            ErrorCode::ValidationError => "Validation error",
            ErrorCode::WrongFormat => "Wrong format",
            ErrorCode::Unauthorized => "Sorry, you are not allowed to access this service: UnauthorizedRequest",
            ErrorCode::AuthorizeError => "Authorization error",
            ErrorCode::ForbiddenError => "Forbidden",
            ErrorCode::NotFoundError => "Not Found",
            ErrorCode::ResponseProcessingError => "Response Processing Error",
            ErrorCode::YookassaApiError => "Yookassa Api Error",
            ErrorCode::PayloadTooLarge => "Payload too large",
            ErrorCode::InternalError => "Internal Server Error",
            ErrorCode::BrideError => "Bride in prison",
            ErrorCode::CoreOffline => "Core is offline",
            ErrorCode::CoreFileUploadingError => "Core file uploading error",
            ErrorCode::DbError => "Bad Gateway",
            ErrorCode::UnknownError => "Internal Server Error",
        }
    }
}

impl ErrorCode {
    /// The envelope of this catalogue entry, with no details and no flags.
    pub fn details(&self) -> (r: BadResponseObject)
        ensures
            r.is_entry_with(*self, Map::empty()),
    {
        BadResponseObject::new(self.number(), self.message().to_owned())
    }
}

} // verus!
