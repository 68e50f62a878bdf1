//! Files that a user attaches: which are taken, what is kept of them, and what
//! their cost is.
use vstd::prelude::*;
use vstd::utf8::*;

use crate::boundary;
use crate::decimal;
use crate::error;
use crate::error::{ApiError, Refusal};
use crate::office;
use crate::office::Sniff;
use crate::text;
use crate::types::Attachment;
use crate::webp;

verus! {

/// Bytes of an attached file at most.
pub const MAX_ATTACH_BYTES: usize = 5_000_000;

/// Characters kept of a file's text.
pub const EXCERPT_CHARS: usize = 20_000;

/// A file as it is sent.
#[derive(Debug, PartialEq, Eq)]
pub struct NewAttachment {
    pub filename: String,
    pub mime: String,
    /// The file as text, or empty.
    pub content: String,
    /// The file in base64, or empty.
    pub content_base64: String,
}

/// What is taken of a file.
#[derive(Debug, PartialEq, Eq)]
pub enum Taken {
    /// An image: its bytes, width and height.
    Image { bytes: Vec<u8>, width: u32, height: u32 },
    /// Another file: its bytes and what was read of it.
    Binary { bytes: Vec<u8>, kind: String, status: String, excerpt: String },
    /// A text: the beginning of it.
    Text { excerpt: String },
}

/// The refusal of a file that is too large.
pub open spec fn too_large(what: Seq<char>, bytes: nat, hint: Seq<char>) -> Refusal {
    Refusal {
        status: 413,
        message: what + " too large ("@ + decimal::digits(bytes) + " bytes, max 5000000)"@,
        hint,
    }
}

/// The refusal of a file that is too large.
fn too_large_error(what: &str, bytes: usize, hint: &str) -> (e: ApiError)
    ensures
        e@ == too_large(what@, bytes as nat, hint@),
{
    let mut message = what.to_owned();
    message.append(" too large (");
    let n = decimal::decimal(bytes as u64);
    message.append(&n);
    message.append(" bytes, max 5000000)");
    ApiError::new(413, &message, hint)
}

/// The kind of content that a file has, unless it names one.
pub fn mime_of(mime: &str) -> (s: String)
    ensures
        s@ == (if mime@.len() == 0 {
            "text/plain"@
        } else {
            mime@
        }),
{
    if mime.is_empty() {
        "text/plain".to_owned()
    } else {
        mime.to_owned()
    }
}

/// The refusal of a name with a path in it.
pub fn invalid_filename() -> (e: ApiError)
    ensures
        e@ == error::bad_request(
            "invalid filename"@,
            "Use a plain filename without path separators."@,
        ),
{
    ApiError::bad("invalid filename", "Use a plain filename without path separators.")
}

/// Why an image is refused, given what its base64 stands for.
pub open spec fn image_refusal(base64: Seq<char>, decoded: Option<Seq<u8>>) -> Option<Refusal> {
    if base64.len() == 0 {
        Some(
            error::bad_request(
                "image bytes missing"@,
                "Send images as base64 (content_base64)."@,
            ),
        )
    } else {
        match decoded {
            None => Some(
                error::bad_request("bad base64"@, "The image data is not valid base64."@),
            ),
            Some(bytes) => if bytes.len() > MAX_ATTACH_BYTES {
                Some(
                    too_large(
                        "image"@,
                        bytes.len(),
                        "Downscale the screenshot before attaching."@,
                    ),
                )
            } else {
                None
            },
        }
    }
}

/// Why a file in base64 is refused, given what it stands for.
pub open spec fn binary_refusal(decoded: Option<Seq<u8>>) -> Option<Refusal> {
    match decoded {
        None => Some(error::bad_request("bad base64"@, "The file data is not valid base64."@)),
        Some(bytes) => if bytes.len() > MAX_ATTACH_BYTES {
            Some(
                too_large(
                    "file"@,
                    bytes.len(),
                    "Large documents are chunked and retrieved section-wise (§69)."@,
                ),
            )
        } else {
            None
        },
    }
}

/// Why a text is refused.
pub open spec fn text_refusal(content: Seq<char>) -> Option<Refusal> {
    if content.len() == 0 {
        Some(
            error::bad_request(
                "attachment is empty"@,
                "Attach a file with readable text content."@,
            ),
        )
    } else if text::byte_len(content) > MAX_ATTACH_BYTES {
        Some(
            too_large(
                "file"@,
                text::byte_len(content),
                "Large documents are chunked and retrieved section-wise in Phase 2 (§69)."@,
            ),
        )
    } else {
        None
    }
}

/// Why a file is refused, given what its base64 stands for.
pub open spec fn attachment_refusal(
    is_image: bool,
    content: Seq<char>,
    base64: Seq<char>,
    decoded: Option<Seq<u8>>,
) -> Option<Refusal> {
    if is_image {
        image_refusal(base64, decoded)
    } else if base64.len() > 0 {
        binary_refusal(decoded)
    } else {
        text_refusal(content)
    }
}

/// Takes a file whose base64 was decoded: an image with its size, another
/// binary with what can be read of it, a text with its beginning.
pub fn take_decoded(
    is_image: bool,
    content: &str,
    base64: &str,
    decoded: Option<Vec<u8>>,
    size: Option<(u32, u32)>,
    sniff: Option<Sniff>,
) -> (r: Result<Taken, ApiError>)
    requires
        !is_image && base64@.len() > 0 && decoded is Some && decoded->0@.len() <= MAX_ATTACH_BYTES
            ==> sniff is Some,
    ensures
        error::refusal_of(r) == attachment_refusal(
            is_image,
            content@,
            base64@,
            match decoded {
                Some(v) => Some(v@),
                None => None,
            },
        ),
        r matches Ok(t) ==> if is_image {
            t == (Taken::Image {
                bytes: decoded->0,
                width: (match size {
                    Some(s) => s.0,
                    None => 0,
                }),
                height: (match size {
                    Some(s) => s.1,
                    None => 0,
                }),
            })
        } else if base64@.len() > 0 {
            t matches Taken::Binary { bytes, kind, status, excerpt } && bytes == decoded->0 && kind@
                == sniff->0@.kind && status@ == sniff->0@.status && excerpt@ == text::first_chars(
                sniff->0@.excerpt,
                EXCERPT_CHARS as nat,
            )
        } else {
            t matches Taken::Text { excerpt } && excerpt@ == text::first_chars(
                content@,
                EXCERPT_CHARS as nat,
            )
        },
{
    if is_image {
        if base64.is_empty() {
            return Err(
                ApiError::bad("image bytes missing", "Send images as base64 (content_base64)."),
            );
        }
        let bytes = match decoded {
            Some(bytes) => bytes,
            None => {
                return Err(ApiError::bad("bad base64", "The image data is not valid base64."));
            },
        };
        if bytes.len() > MAX_ATTACH_BYTES {
            return Err(
                too_large_error(
                    "image",
                    bytes.len(),
                    "Downscale the screenshot before attaching.",
                ),
            );
        }
        let (width, height) = match size {
            Some(s) => s,
            None => (0, 0),
        };
        return Ok(Taken::Image { bytes, width, height });
    }
    if !base64.is_empty() {
        let bytes = match decoded {
            Some(bytes) => bytes,
            None => {
                return Err(ApiError::bad("bad base64", "The file data is not valid base64."));
            },
        };
        if bytes.len() > MAX_ATTACH_BYTES {
            return Err(
                too_large_error(
                    "file",
                    bytes.len(),
                    "Large documents are chunked and retrieved section-wise (§69).",
                ),
            );
        }
        let read = sniff.unwrap();
        let excerpt = text::take_chars(&read.excerpt, EXCERPT_CHARS);
        return Ok(Taken::Binary { bytes, kind: read.kind, status: read.status, excerpt });
    }
    if content.is_empty() {
        return Err(
            ApiError::bad("attachment is empty", "Attach a file with readable text content."),
        );
    }
    let n: usize = text::bytes_in(content);
    if n > MAX_ATTACH_BYTES {
        return Err(
            too_large_error(
                "file",
                n,
                "Large documents are chunked and retrieved section-wise in Phase 2 (§69).",
            ),
        );
    }
    Ok(Taken::Text { excerpt: text::take_chars(content, EXCERPT_CHARS) })
}

/// What a file's base64 stands for, white space around it left out.
pub open spec fn decoded_of(base64: Seq<char>) -> Option<Seq<u8>> {
    boundary::base64_value(text::trimmed(base64))
}

/// The width and height of an encoded image. A file whose first picture
/// overruns its frame has none.
pub open spec fn extent(bytes: Seq<u8>) -> Option<(u32, u32)> {
    if webp::overrun(bytes) {
        None
    } else {
        boundary::image_dimensions(bytes)
    }
}

/// The width and height of an encoded image.
fn extent_of(bytes: &[u8]) -> (r: Option<(u32, u32)>)
    ensures
        r == extent(bytes@),
{
    if webp::is_overrun(bytes) {
        None
    } else {
        boundary::image_size(bytes)
    }
}

/// What is taken of a file.
pub open spec fn taken_as(
    filename: Seq<char>,
    is_image: bool,
    content: Seq<char>,
    base64: Seq<char>,
    t: Taken,
) -> bool {
    if is_image {
        t matches Taken::Image { bytes, width, height } && Some(bytes@) == decoded_of(base64) && (
            width,
            height,
        ) == (match extent(bytes@) {
            Some(s) => s,
            None => (0u32, 0u32),
        })
    } else if base64.len() > 0 {
        t matches Taken::Binary { bytes, kind, status, excerpt } && Some(bytes@) == decoded_of(
            base64,
        ) && ({
            let read = office::sniffed(
                filename,
                text::after_last(boundary::lowercase(filename), '.'),
                bytes@,
                boundary::utf8_lossy(bytes@),
            );
            kind@ == read.kind && status@ == read.status && excerpt@ == text::first_chars(
                read.excerpt,
                EXCERPT_CHARS as nat,
            )
        })
    } else {
        t matches Taken::Text { excerpt } && excerpt@ == text::first_chars(
            content,
            EXCERPT_CHARS as nat,
        )
    }
}

/// A file is taken as what it is: an image or another file with all its bytes,
/// as they were sent; a text with its beginning, whole where it has at most
/// 20,000 characters. Of no file more text than that is kept.
pub proof fn law_a_file_is_taken_whole(
    filename: Seq<char>,
    is_image: bool,
    content: Seq<char>,
    base64: Seq<char>,
    t: Taken,
)
    requires
        taken_as(filename, is_image, content, base64, t),
    ensures
        t is Image <==> is_image,
        t is Binary <==> !is_image && base64.len() > 0,
        t matches Taken::Image { bytes, width, height } ==> boundary::base64_value(
            text::trimmed(base64),
        ) == Some(bytes@),
        t matches Taken::Binary { bytes, kind, status, excerpt } ==> boundary::base64_value(
            text::trimmed(base64),
        ) == Some(bytes@) && excerpt@.len() <= 20_000,
        t matches Taken::Text { excerpt } ==> {
            &&& content.len() <= 20_000 ==> excerpt@ == content
            &&& content.len() > 20_000 ==> excerpt@ == content.take(20_000)
        },
{
}

/// Takes an attached file under a name already found safe. `is_image` says
/// whether its kind of content is an image's.
pub fn take_attachment(filename: &str, is_image: bool, new: &NewAttachment) -> (r: Result<
    Taken,
    ApiError,
>)
    ensures
        error::refusal_of(r) == attachment_refusal(
            is_image,
            new.content@,
            new.content_base64@,
            decoded_of(new.content_base64@),
        ),
        r matches Ok(t) ==> taken_as(filename@, is_image, new.content@, new.content_base64@, t),
{
    let plain = text::trim(&new.content_base64);
    let decoded = boundary::base64_bytes(&plain);
    let mut size: Option<(u32, u32)> = None;
    let mut sniff: Option<Sniff> = None;
    if let Some(bytes) = &decoded {
        if bytes.len() <= MAX_ATTACH_BYTES {
            if is_image {
                size = extent_of(bytes);
            } else {
                sniff = Some(office::sniff_office(filename, bytes));
            }
        }
    }
    take_decoded(
        is_image,
        &new.content,
        &new.content_base64,
        decoded,
        size,
        sniff,
    )
}

// ---- what attachments cost ---------------------------------------------------------------------

/// How many of the first `n` attachments have the kind.
pub open spec fn count_kind(attachments: Seq<Attachment>, kind: Seq<char>, n: int) -> nat
    decreases n,
{
    if n <= 0 {
        0
    } else {
        count_kind(attachments, kind, n - 1) + (if attachments[n - 1].kind@ == kind {
            1nat
        } else {
            0nat
        })
    }
}

/// How many of the first `n` attachments have the status.
pub open spec fn count_status(attachments: Seq<Attachment>, status: Seq<char>, n: int) -> nat
    decreases n,
{
    if n <= 0 {
        0
    } else {
        count_status(attachments, status, n - 1) + (if attachments[n - 1].status@ == status {
            1nat
        } else {
            0nat
        })
    }
}

/// The bytes of the first `n` attachments.
pub open spec fn total_bytes(attachments: Seq<Attachment>, n: int) -> nat
    decreases n,
{
    if n <= 0 {
        0
    } else {
        total_bytes(attachments, n - 1) + attachments[n - 1].size_bytes as nat
    }
}

/// What a conversation's attachments cost.
#[derive(Debug, PartialEq, Eq)]
pub struct AttachmentBudget {
    pub count: usize,
    pub bytes: u128,
    pub images: usize,
    pub partial: usize,
    pub unsupported: usize,
    pub warnings: Vec<&'static str>,
}

/// The warnings: images that the model cannot see, many images, many bytes.
pub open spec fn warnings_for(images: nat, vision: bool, bytes: nat) -> Seq<Seq<char>> {
    (if images > 0 && !vision {
        seq![
            "Images attached but the loaded model has no vision — they will use the OCR/text fallback."@,
        ]
    } else {
        Seq::empty()
    }) + (if images >= 4 {
        seq![
            "4+ images: vision token cost is high; consider removing some before continuing."@,
        ]
    } else {
        Seq::empty()
    }) + (if bytes > 50_000_000 {
        seq!["Attachments exceed ~50 MB: context will only carry excerpts."@]
    } else {
        Seq::empty()
    })
}

/// What a conversation's attachments cost, with a warning before the next
/// expensive one.
pub fn attachment_budget(attachments: &[Attachment], vision: bool) -> (b: AttachmentBudget)
    ensures
        ({
            let n = attachments@.len() as int;
            &&& b.count == n
            &&& b.bytes == total_bytes(attachments@, n)
            &&& b.images == count_kind(attachments@, "image"@, n)
            &&& b.partial == count_status(attachments@, "partial"@, n)
            &&& b.unsupported == count_status(attachments@, "unsupported"@, n)
            &&& b.warnings@.map_values(|s: &'static str| s@) == warnings_for(
                count_kind(attachments@, "image"@, n),
                vision,
                total_bytes(attachments@, n),
            )
        }),
{
    let mut bytes: u128 = 0;
    let mut images: usize = 0;
    let mut partial: usize = 0;
    let mut unsupported: usize = 0;
    let mut i: usize = 0;
    while i < attachments.len()
        invariant
            i <= attachments@.len(),
            bytes <= i * 0x1_0000_0000_0000_0000,
            images <= i,
            partial <= i,
            unsupported <= i,
            bytes == total_bytes(attachments@, i as int),
            images == count_kind(attachments@, "image"@, i as int),
            partial == count_status(attachments@, "partial"@, i as int),
            unsupported == count_status(attachments@, "unsupported"@, i as int),
        decreases attachments@.len() - i,
    {
        let a = &attachments[i];
        bytes = bytes + a.size_bytes as u128;
        if text::same(&a.kind, "image") {
            images += 1;
        }
        if text::same(&a.status, "partial") {
            partial += 1;
        }
        if text::same(&a.status, "unsupported") {
            unsupported += 1;
        }
        i += 1;
    }
    let mut warnings: Vec<&'static str> = Vec::new();
    if images > 0 && !vision {
        warnings.push(
            "Images attached but the loaded model has no vision — they will use the OCR/text fallback.",
        );
    }
    if images >= 4 {
        warnings.push(
            "4+ images: vision token cost is high; consider removing some before continuing.",
        );
    }
    if bytes > 50_000_000 {
        warnings.push("Attachments exceed ~50 MB: context will only carry excerpts.");
    }
    assert(warnings@.map_values(|s: &'static str| s@) =~= warnings_for(
        images as nat,
        vision,
        bytes as nat,
    ));
    AttachmentBudget { count: attachments.len(), bytes, images, partial, unsupported, warnings }
}

// ---- artifacts ---------------------------------------------------------------------------------------

/// A browser can show content of this kind.
pub open spec fn is_openable(mime: Seq<char>) -> bool {
    text::begins(mime, "text/"@) || mime == "application/json"@ || mime == "image/png"@ || mime
        == "image/jpeg"@
}

/// Whether a browser can show content of this kind.
pub fn openable(mime: &str) -> (r: bool)
    ensures
        r == is_openable(mime@),
{
    text::starts_with(mime, "text/") || text::same(mime, "application/json") || text::same(
        mime,
        "image/png",
    ) || text::same(mime, "image/jpeg")
}

// ---- which files are taken, and what they come to -------------------------------------------------------

/// A file is taken exactly where there is something of it, in base64 that can be
/// read or as text, and no more than 5,000,000 bytes of it. An image needs its
/// bytes; any other file counts by its bytes where it has them and else by its
/// text.
pub proof fn law_which_files_are_taken(
    is_image: bool,
    content: Seq<char>,
    base64: Seq<char>,
    decoded: Option<Seq<u8>>,
)
    ensures
        ({
            let sound = decoded is Some && decoded->0.len() <= 5_000_000;
            let refusal = attachment_refusal(is_image, content, base64, decoded);
            &&& is_image ==> (refusal is None <==> base64.len() > 0 && sound)
            &&& !is_image && base64.len() > 0 ==> (refusal is None <==> sound)
            &&& !is_image && base64.len() == 0 ==> (refusal is None <==> 0 < content.len()
                && encode_utf8(content).len() <= 5_000_000)
            &&& base64.len() > 0 && decoded is Some && decoded->0.len() > 5_000_000 ==> refusal->0.status
                == 413
        }),
{
    text::lemma_byte_len(content);
}

/// A file that is too large is told by its size.
pub proof fn law_a_size_is_told(what: Seq<char>, bytes: nat, hint: Seq<char>)
    ensures
        (what + " too large ("@ + decimal::digits(bytes)).is_prefix_of(
            too_large(what, bytes, hint).message,
        ),
{
    let m = too_large(what, bytes, hint).message;
    let head = what + " too large ("@ + decimal::digits(bytes);
    assert(head =~= m.subrange(0, head.len() as int));
}

proof fn lemma_counts_of_first(
    attachments: Seq<Attachment>,
    a: Attachment,
    word: Seq<char>,
    n: int,
)
    requires
        0 <= n <= attachments.len(),
    ensures
        count_kind(attachments.push(a), word, n) == count_kind(attachments, word, n),
        count_status(attachments.push(a), word, n) == count_status(attachments, word, n),
        total_bytes(attachments.push(a), n) == total_bytes(attachments, n),
    decreases n,
{
    if n > 0 {
        lemma_counts_of_first(attachments, a, word, n - 1);
    }
}

/// Each file counts for one where it has the kind or the status, for nothing
/// where it has not, and with all its bytes.
pub proof fn law_each_file_counts_once(attachments: Seq<Attachment>, a: Attachment, word: Seq<char>)
    ensures
        ({
            let n = attachments.len() as int;
            let more = attachments.push(a);
            &&& count_kind(more, word, n + 1) == count_kind(attachments, word, n) + (if a.kind@
                == word {
                1nat
            } else {
                0
            })
            &&& count_status(more, word, n + 1) == count_status(attachments, word, n) + (
            if a.status@ == word {
                1nat
            } else {
                0
            })
            &&& total_bytes(more, n + 1) == total_bytes(attachments, n) + a.size_bytes
            &&& count_kind(Seq::empty(), word, 0) == 0 && count_status(Seq::empty(), word, 0) == 0
                && total_bytes(Seq::empty(), 0) == 0
        }),
{
    lemma_counts_of_first(attachments, a, word, attachments.len() as int);
}

/// A warning is given of images that the model cannot see, of four or more of
/// them, and of more than fifty million bytes: each exactly where it is true.
pub proof fn law_each_cost_is_warned_of(images: nat, vision: bool, bytes: nat)
    ensures
        ({
            let w = warnings_for(images, vision, bytes);
            let unseen = images > 0 && !vision;
            let many = images >= 4;
            let large = bytes > 50_000_000;
            &&& w.len() == (if unseen {
                1int
            } else {
                0
            }) + (if many {
                1int
            } else {
                0
            }) + (if large {
                1int
            } else {
                0
            })
            &&& unseen ==> w[0]
                == "Images attached but the loaded model has no vision — they will use the OCR/text fallback."@
            &&& many ==> w.contains(
                "4+ images: vision token cost is high; consider removing some before continuing."@,
            )
            &&& large ==> w.last()
                == "Attachments exceed ~50 MB: context will only carry excerpts."@
        }),
{
    let w = warnings_for(images, vision, bytes);
    if images >= 4 {
        if images > 0 && !vision {
            assert(w[1]
                == "4+ images: vision token cost is high; consider removing some before continuing."@);
        } else {
            assert(w[0]
                == "4+ images: vision token cost is high; consider removing some before continuing."@);
        }
    }
}

/// A browser is handed texts, JSON and two kinds of pictures to show, and nothing
/// that could run.
pub proof fn law_what_a_browser_shows(mime: Seq<char>)
    ensures
        is_openable(mime) <==> "text/"@.is_prefix_of(mime) || mime == "application/json"@ || mime
            == "image/png"@ || mime == "image/jpeg"@,
{
}

} // verus!
