//! The remote drive, as far as the library has to know it: where it is
//! reached, and what its answers call for.

pub mod model;

use vstd::prelude::*;

pub use model::QuarkFile;

use crate::populate::{Answer, FetchError, FetchResult};
use model::{listing, Entry, GetFilesResponse, QuarkFiles};

verus! {

/// Where the drive's service is reached, and as whom.
#[derive(Debug, Clone)]
pub struct DriveConfig {
    pub api_base_url: String,
    pub cookie: Option<String>,
}

/// What an answer of the service calls for, by its HTTP status.
#[derive(Debug, Clone, Copy, PartialEq, Eq, Structural)]
pub enum Reply {
    /// There is no body: the answer holds nothing.
    Empty,
    /// The body holds the answer.
    Parse,
    /// The request is to be sent once more, a second later.
    Retry,
    /// The request failed.
    Fail,
}

/// The statuses of a failed request, 400 to 599.
pub open spec fn is_error_status(status: u16) -> bool {
    400 <= status < 600
}

/// The failures that may pass: timeouts, too many requests, and trouble on
/// the server's side.
pub open spec fn is_transient_status(status: u16) -> bool {
    status == 408 || status == 429 || status == 500 || status == 502 || status == 503 || status
        == 504
}

pub open spec fn body_reply(status: u16) -> Reply {
    if status == 204 {
        Reply::Empty
    } else {
        Reply::Parse
    }
}

/// What the first answer to a request calls for.
pub open spec fn first_reply(status: u16) -> Reply {
    if !is_error_status(status) {
        body_reply(status)
    } else if is_transient_status(status) {
        Reply::Retry
    } else {
        Reply::Fail
    }
}

/// What the answer to the second sending of a request calls for. The body of
/// a `GET` is read whatever the status; a `POST` that failed again has failed.
pub open spec fn second_reply(status: u16, post: bool) -> Reply {
    if post && is_error_status(status) {
        Reply::Fail
    } else {
        body_reply(status)
    }
}

fn reply_with_body(status: u16) -> (reply: Reply)
    ensures
        reply == body_reply(status),
{
    if status == 204 {
        Reply::Empty
    } else {
        Reply::Parse
    }
}

/// What the answer to a `GET` calls for: the first answer, or, with
/// `retried`, the answer to the second sending.
pub fn reply_to_get(status: u16, retried: bool) -> (reply: Reply)
    ensures
        reply == if retried {
            second_reply(status, false)
        } else {
            first_reply(status)
        },
{
    if retried {
        reply_with_body(status)
    } else {
        reply_to_first(status)
    }
}

/// What the answer to a `POST` calls for: the first answer, or, with
/// `retried`, the answer to the second sending.
pub fn reply_to_post(status: u16, retried: bool) -> (reply: Reply)
    ensures
        reply == if retried {
            second_reply(status, true)
        } else {
            first_reply(status)
        },
{
    if retried {
        if status >= 400 && status < 600 {
            Reply::Fail
        } else {
            reply_with_body(status)
        }
    } else {
        reply_to_first(status)
    }
}

fn reply_to_first(status: u16) -> (reply: Reply)
    ensures
        reply == first_reply(status),
{
    if !(status >= 400 && status < 600) {
        reply_with_body(status)
    } else if status == 408 || status == 429 || status == 500 || status == 502 || status == 503
        || status == 504 {
        Reply::Retry
    } else {
        Reply::Fail
    }
}

/// How a request came to nothing.
#[derive(Debug, Clone, Copy)]
pub enum Failure {
    /// The service answered with this status.
    Status(u16),
    /// No answer came.
    Network,
    /// The answer could not be read.
    Malformed,
}

/// Why a request that came to nothing failed, or `None` where the service
/// says that what was asked for is not there (status 404). Trouble on the
/// network or on the server's side may pass; 401 and 403 are a want of
/// rights; the rest stays as it is.
pub open spec fn fetch_error_of(failure: Failure) -> Option<FetchError> {
    match failure {
        Failure::Status(status) => if status == 404 {
            None
        } else if is_transient_status(status) || 500 <= status < 600 {
            Some(FetchError::Transient)
        } else if status == 401 || status == 403 {
            Some(FetchError::Forbidden)
        } else {
            Some(FetchError::Permanent)
        },
        Failure::Network => Some(FetchError::Transient),
        Failure::Malformed => Some(FetchError::Permanent),
    }
}

/// What a request for one page of a directory's children came to: the
/// listing that the service sent, or what its failure means.
pub open spec fn page_answer(response: Result<GetFilesResponse, Failure>) -> Answer {
    match response {
        Ok(sent) => Answer::Listed {
            list: listing(sent.data.list@),
            total: sent.metadata.total as nat,
        },
        Err(failure) => match fetch_error_of(failure) {
            Some(e) => Answer::Failed(e),
            None => Answer::Missing,
        },
    }
}

/// What a request for one page of a directory's children came to.
pub fn page_fetched(response: Result<GetFilesResponse, Failure>) -> (fetched: FetchResult)
    ensures
        fetched@ == page_answer(response),
{
    match response {
        Ok(sent) => FetchResult::Listed(
            QuarkFiles { list: sent.data.list, total: sent.metadata.total },
        ),
        Err(Failure::Status(status)) => {
            if status == 404 {
                FetchResult::Missing
            } else if status == 408 || status == 429 || (status >= 500 && status < 600) {
                FetchResult::Failed(FetchError::Transient)
            } else if status == 401 || status == 403 {
                FetchResult::Failed(FetchError::Forbidden)
            } else {
                FetchResult::Failed(FetchError::Permanent)
            }
        },
        Err(Failure::Network) => FetchResult::Failed(FetchError::Transient),
        Err(Failure::Malformed) => FetchResult::Failed(FetchError::Permanent),
    }
}

/// The first and last byte of a download of `size` bytes from `start`;
/// `None` for no bytes, and where the last byte cannot be counted.
pub open spec fn range_of(start: u64, size: usize) -> Option<(u64, u64)> {
    if size >= 1 && start + size - 1 <= u64::MAX {
        Some((start, (start + size - 1) as u64))
    } else {
        None
    }
}

/// The first and last byte of a download of `size` bytes from `start`.
pub fn byte_range(start: u64, size: usize) -> (range: Option<(u64, u64)>)
    ensures
        range == range_of(start, size),
{
    if size == 0 {
        return None;
    }
    let more = (size - 1) as u64;
    if start > u64::MAX - more {
        None
    } else {
        Some((start, start + more))
    }
}

/// The character of one decimal digit.
pub open spec fn digit_char(d: nat) -> char {
    if d == 0 {
        '0'
    } else if d == 1 {
        '1'
    } else if d == 2 {
        '2'
    } else if d == 3 {
        '3'
    } else if d == 4 {
        '4'
    } else if d == 5 {
        '5'
    } else if d == 6 {
        '6'
    } else if d == 7 {
        '7'
    } else if d == 8 {
        '8'
    } else {
        '9'
    }
}

/// A number in decimal digits, without leading zeros.
pub open spec fn digits_of(n: nat) -> Seq<char>
    decreases n,
{
    if n < 10 {
        seq![digit_char(n)]
    } else {
        digits_of(n / 10).push(digit_char(n % 10))
    }
}

/// The digits of a number spell the number.
pub proof fn lemma_digits_spell(n: nat)
    ensures
        crate::freshness::is_digits(digits_of(n)),
        crate::freshness::decimal_value(digits_of(n)) == n,
        n <= u64::MAX ==> crate::freshness::parsed_u64(digits_of(n)) == Some(n as u64),
    decreases n,
{
    let text = digits_of(n);
    if n < 10 {
        assert(text.drop_last() =~= Seq::<char>::empty());
        assert(crate::freshness::decimal_value(text.drop_last()) == 0);
        assert(text.last() == digit_char(n));
    } else {
        lemma_digits_spell(n / 10);
        assert(text.drop_last() =~= digits_of(n / 10));
        assert(text.last() == digit_char(n % 10));
        assert forall|i: int| 0 <= i < text.len() implies crate::freshness::is_digit(
            #[trigger] text[i],
        ) by {
            if i < text.len() - 1 {
                assert(text[i] == digits_of(n / 10)[i]);
            }
        }
    }
    assert(text[0] != '+') by {
        assert(crate::freshness::is_digit(text[0]));
    }
}

fn digit_text(d: u64) -> (text: &'static str)
    requires
        d < 10,
    ensures
        text@ == seq![digit_char(d as nat)],
{
    proof {
        reveal_strlit("0");
        reveal_strlit("1");
        reveal_strlit("2");
        reveal_strlit("3");
        reveal_strlit("4");
        reveal_strlit("5");
        reveal_strlit("6");
        reveal_strlit("7");
        reveal_strlit("8");
        reveal_strlit("9");
    }
    let text = if d == 0 {
        "0"
    } else if d == 1 {
        "1"
    } else if d == 2 {
        "2"
    } else if d == 3 {
        "3"
    } else if d == 4 {
        "4"
    } else if d == 5 {
        "5"
    } else if d == 6 {
        "6"
    } else if d == 7 {
        "7"
    } else if d == 8 {
        "8"
    } else {
        "9"
    };
    assert(text@ =~= seq![digit_char(d as nat)]);
    text
}

/// Writes a number behind a text, in decimal digits.
pub fn push_decimal(out: &mut String, n: u64)
    ensures
        final(out)@ == old(out)@ + digits_of(n as nat),
        crate::freshness::parsed_u64(digits_of(n as nat)) == Some(n),
    decreases n,
{
    if n >= 10 {
        push_decimal(out, n / 10);
    }
    out.append(digit_text(n % 10));
    assert(final(out)@ =~= old(out)@ + digits_of(n as nat));
    proof {
        lemma_digits_spell(n as nat);
    }
}

/// The address that one page of the children of a directory is asked from:
/// `size` children of `pdir_fid`, page `page`, sorted as the service lists them.
pub open spec fn files_url_of(base: Seq<char>, pdir_fid: Seq<char>, page: u32, size: u32) -> Seq<
    char,
> {
    base + "/1/clouddrive/file/sort?pr=ucpro&fr=pc&&pdir_fid="@ + pdir_fid + "&_page="@ + digits_of(
        page as nat,
    ) + "&_size="@ + digits_of(size as nat)
        + "&_fetch_total=1&_fetch_sub_dirs=0&_sort=file_type:asc,updated_at:desc,"@
}

/// The address that the download links of files are asked from.
pub open spec fn download_url_of(base: Seq<char>) -> Seq<char> {
    base + "/1/clouddrive/file/download?pr=ucpro&fr=pc"@
}

/// The value of the `Range` header for the bytes `first` to `last`.
pub open spec fn range_header_of(first: u64, last: u64) -> Seq<char> {
    "bytes="@ + digits_of(first as nat) + "-"@ + digits_of(last as nat)
}

impl DriveConfig {
    /// The address that one page of the children of a directory is asked from.
    pub fn files_url(&self, pdir_fid: &str, page: u32, size: u32) -> (url: String)
        ensures
            url@ == files_url_of(self.api_base_url@, pdir_fid@, page, size),
    {
        let mut url = self.api_base_url.clone();
        url.append("/1/clouddrive/file/sort?pr=ucpro&fr=pc&&pdir_fid=");
        url.append(pdir_fid);
        url.append("&_page=");
        push_decimal(&mut url, page as u64);
        url.append("&_size=");
        push_decimal(&mut url, size as u64);
        url.append("&_fetch_total=1&_fetch_sub_dirs=0&_sort=file_type:asc,updated_at:desc,");
        url
    }

    /// The address that the download links of files are asked from.
    pub fn download_url(&self) -> (url: String)
        ensures
            url@ == download_url_of(self.api_base_url@),
    {
        let mut url = self.api_base_url.clone();
        url.append("/1/clouddrive/file/download?pr=ucpro&fr=pc");
        url
    }
}

/// The value of the `Range` header for a download of `size` bytes from
/// `start`; `None` where `byte_range` gives none.
pub fn range_header(start: u64, size: usize) -> (header: Option<String>)
    ensures
        match range_of(start, size) {
            Some((first, last)) => header matches Some(text) && text@ == range_header_of(
                first,
                last,
            ),
            None => header is None,
        },
{
    match byte_range(start, size) {
        Some((first, last)) => {
            let mut text = String::from_str("bytes=");
            push_decimal(&mut text, first);
            text.append("-");
            push_decimal(&mut text, last);
            Some(text)
        },
        None => None,
    }
}

/// What a node tells of itself as a file.
pub trait Metadata {
    spec fn entry(&self) -> Entry;

    /// The size, in bytes.
    fn len(&self) -> (size: u64)
        ensures
            size == self.entry().size,
    ;

    /// The time of the last change, in milliseconds since the Unix epoch.
    fn modified(&self) -> (millis: u64)
        ensures
            millis == self.entry().updated_at,
    ;

    /// The time of creation, in milliseconds since the Unix epoch.
    fn created(&self) -> (millis: u64)
        ensures
            millis == self.entry().created_at,
    ;

    fn is_dir(&self) -> (dir: bool)
        ensures
            dir == self.entry().dir,
    ;
}

/// What a node tells of itself as a member of a listing.
pub trait Listable {
    spec fn listed_name(&self) -> Seq<char>;

    /// The name, in UTF-8.
    fn name(&self) -> (bytes: Vec<u8>)
        ensures
            bytes@ == vstd::utf8::encode_utf8(self.listed_name()),
    ;
}

impl Metadata for QuarkFile {
    open spec fn entry(&self) -> Entry {
        self@
    }

    fn len(&self) -> (size: u64) {
        self.size
    }

    fn modified(&self) -> (millis: u64) {
        self.updated_at
    }

    fn created(&self) -> (millis: u64) {
        self.created_at
    }

    fn is_dir(&self) -> (dir: bool) {
        self.dir
    }
}

impl Listable for QuarkFile {
    open spec fn listed_name(&self) -> Seq<char> {
        self.file_name@
    }

    fn name(&self) -> (bytes: Vec<u8>) {
        self.file_name.as_str().as_bytes_vec()
    }
}

} // verus!
