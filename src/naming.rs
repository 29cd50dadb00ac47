use vstd::prelude::*;

verus! {

/// The extension that `std::path::Path::extension` finds in a path.
pub uninterp spec fn path_extension(path: Seq<char>) -> Option<Seq<char>>;

/// The text that `str::to_lowercase` makes of a string.
pub uninterp spec fn lower_of(s: Seq<char>) -> Seq<char>;

/// Relies on `Path::extension` (read back with `OsStr::to_str`): the part of the
/// file name after its last dot, if any; the result depends on the path alone.
#[verifier::external_body]
fn extension_of(filename: &str) -> (r: Option<&str>)
    ensures
        match r {
            Some(e) => path_extension(filename@) == Some(e@),
            None => path_extension(filename@).is_none(),
        },
{
    match std::path::Path::new(filename).extension() {
        Some(ext) => ext.to_str(),
        None => None,
    }
}

/// Relies on `str::to_lowercase`: the lower-case form depends on the characters
/// alone, and an empty string stays empty.
#[verifier::external_body]
fn lowercase(s: &str) -> (r: String)
    ensures
        r@ == lower_of(s@),
        s@.len() == 0 ==> r@.len() == 0,
{
    s.to_lowercase()
}

pub(crate) fn same_text(a: &str, b: &str) -> (r: bool)
    ensures
        r == (a@ == b@),
{
    a.to_owned() == b.to_owned()
}

/// The MIME type used for an already lower-cased file extension.
pub open spec fn mime_for(ext: Seq<char>) -> Seq<char> {
    if ext == "jpg"@ || ext == "jpeg"@ {
        "image/jpeg"@
    } else if ext == "png"@ {
        "image/png"@
    } else if ext == "gif"@ {
        "image/gif"@
    } else if ext == "webp"@ {
        "image/webp"@
    } else if ext == "mp3"@ {
        "audio/mpeg"@
    } else if ext == "wav"@ {
        "audio/wav"@
    } else if ext == "ogg"@ {
        "audio/ogg"@
    } else if ext == "flac"@ {
        "audio/flac"@
    } else if ext == "m4a"@ {
        "audio/m4a"@
    } else if ext == "mp4"@ {
        "video/mp4"@
    } else if ext == "webm"@ {
        "video/webm"@
    } else if ext == "txt"@ {
        "text/plain"@
    } else if ext == "pdf"@ {
        "application/pdf"@
    } else if ext == "json"@ {
        "application/json"@
    } else {
        "application/octet-stream"@
    }
}

/// The MIME type of a file, from its lower-cased extension; files without an
/// extension are `application/octet-stream`.
pub open spec fn mime_of_file(filename: Seq<char>) -> Seq<char> {
    match path_extension(filename) {
        Some(e) => mime_for(lower_of(e)),
        None => "application/octet-stream"@,
    }
}

/// The extension of a file name: the text after its last dot, if any.
pub fn get_file_extension(filename: &str) -> (r: Option<&str>)
    ensures
        match r {
            Some(e) => path_extension(filename@) == Some(e@),
            None => path_extension(filename@).is_none(),
        },
{
    extension_of(filename)
}

/// The MIME type for a lower-cased extension.
pub fn mime_for_extension(ext: &str) -> (r: String)
    ensures
        r@ == mime_for(ext@),
{
    let m = if same_text(ext, "jpg") || same_text(ext, "jpeg") {
        "image/jpeg"
    } else if same_text(ext, "png") {
        "image/png"
    } else if same_text(ext, "gif") {
        "image/gif"
    } else if same_text(ext, "webp") {
        "image/webp"
    } else if same_text(ext, "mp3") {
        "audio/mpeg"
    } else if same_text(ext, "wav") {
        "audio/wav"
    } else if same_text(ext, "ogg") {
        "audio/ogg"
    } else if same_text(ext, "flac") {
        "audio/flac"
    } else if same_text(ext, "m4a") {
        "audio/m4a"
    } else if same_text(ext, "mp4") {
        "video/mp4"
    } else if same_text(ext, "webm") {
        "video/webm"
    } else if same_text(ext, "txt") {
        "text/plain"
    } else if same_text(ext, "pdf") {
        "application/pdf"
    } else if same_text(ext, "json") {
        "application/json"
    } else {
        "application/octet-stream"
    };
    m.to_owned()
}

/// The MIME type of a file, judged by its extension in any letter case.
pub fn get_mime_type(filename: &str) -> (r: String)
    ensures
        r@ == mime_of_file(filename@),
{
    match get_file_extension(filename) {
        Some(ext) => {
            let lower = lowercase(ext);
            mime_for_extension(lower.as_str())
        },
        None => "application/octet-stream".to_owned(),
    }
}

/// The storage key of an uploaded file: the folder, a slash, then the file name.
pub open spec fn object_key_of(folder: Seq<char>, filename: Seq<char>) -> Seq<char> {
    folder + seq!['/'] + filename
}

/// The storage key of an uploaded file inside `folder`.
pub fn object_key(folder: &str, filename: &str) -> (r: String)
    ensures
        r@ == object_key_of(folder@, filename@),
{
    let mut k = folder.to_owned();
    k.append("/");
    k.append(filename);
    proof {
        reveal_strlit("/");
    }
    k
}

/// The decimal digit character for `d < 10`.
pub open spec fn digit_char(d: nat) -> char {
    if d == 0 {
        '0'
    } else if d == 1 {
        '1'
    } else if d == 2 {
        '2'
    } else if d == 3 {
        '3'
    } else if d == 4 {
        '4'
    } else if d == 5 {
        '5'
    } else if d == 6 {
        '6'
    } else if d == 7 {
        '7'
    } else if d == 8 {
        '8'
    } else {
        '9'
    }
}

/// The decimal digits of `n`, most significant first, without leading zeros.
pub open spec fn decimal(n: nat) -> Seq<char>
    decreases n,
{
    if n < 10 {
        seq![digit_char(n)]
    } else {
        decimal(n / 10).push(digit_char(n % 10))
    }
}

/// `n` written in decimal, with a leading minus sign when negative.
pub open spec fn signed_decimal(n: int) -> Seq<char> {
    if n < 0 {
        seq!['-'] + decimal((-n) as nat)
    } else {
        decimal(n as nat)
    }
}

fn digit_text(d: u64) -> (r: &'static str)
    requires
        d < 10,
    ensures
        r@ == seq![digit_char(d as nat)],
{
    proof {
        reveal_strlit("0");
        reveal_strlit("1");
        reveal_strlit("2");
        reveal_strlit("3");
        reveal_strlit("4");
        reveal_strlit("5");
        reveal_strlit("6");
        reveal_strlit("7");
        reveal_strlit("8");
        reveal_strlit("9");
    }
    let r = if d == 0 {
        "0"
    } else if d == 1 {
        "1"
    } else if d == 2 {
        "2"
    } else if d == 3 {
        "3"
    } else if d == 4 {
        "4"
    } else if d == 5 {
        "5"
    } else if d == 6 {
        "6"
    } else if d == 7 {
        "7"
    } else if d == 8 {
        "8"
    } else {
        "9"
    };
    assert(r@ =~= seq![digit_char(d as nat)]);
    r
}

/// `n` in decimal.
fn decimal_text(n: u64) -> (r: String)
    ensures
        r@ == decimal(n as nat),
    decreases n,
{
    if n < 10 {
        digit_text(n).to_owned()
    } else {
        let mut s = decimal_text(n / 10);
        s.append(digit_text(n % 10));
        s
    }
}

/// `n` in decimal, with a minus sign when negative.
fn signed_decimal_text(n: i64) -> (r: String)
    ensures
        r@ == signed_decimal(n as int),
{
    if n < 0 {
        let magnitude: u64 = if n == i64::MIN {
            9223372036854775808u64
        } else {
            (-n) as u64
        };
        let mut s = "-".to_owned();
        let digits = decimal_text(magnitude);
        s.append(digits.as_str());
        proof {
            reveal_strlit("-");
            assert(s@ =~= seq!['-'] + decimal((-(n as int)) as nat));
        }
        s
    } else {
        decimal_text(n as u64)
    }
}

/// The name `prefix_timestamp_random` followed by `extension`.
pub open spec fn unique_filename_of(
    prefix: Seq<char>,
    extension: Seq<char>,
    timestamp: i64,
    random: u16,
) -> Seq<char> {
    prefix + seq!['_'] + signed_decimal(timestamp as int) + seq!['_'] + decimal(random as nat)
        + extension
}

/// A file name made unique by the time of upload (seconds since the epoch)
/// and a random number: `prefix_timestamp_random` followed by `extension`.
pub fn generate_unique_filename(prefix: &str, extension: &str, timestamp: i64, random: u16) -> (r:
    String)
    ensures
        r@ == unique_filename_of(prefix@, extension@, timestamp, random),
{
    let mut name = prefix.to_owned();
    name.append("_");
    let t = signed_decimal_text(timestamp);
    name.append(t.as_str());
    name.append("_");
    let x = decimal_text(random as u64);
    name.append(x.as_str());
    name.append(extension);
    proof {
        reveal_strlit("_");
        assert(name@ =~= unique_filename_of(prefix@, extension@, timestamp, random));
    }
    name
}

} // verus!
