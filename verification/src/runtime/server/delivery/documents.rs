//! The documentation of published versions.
use vstd::prelude::*;

use crate::outside;
use crate::runtime::model;
use crate::runtime::model::Header;
use crate::runtime::server::http_error;
use crate::runtime::server::http_error::{Reply, RuntimeError};
use crate::text;

verus! {

/// The longest documentation, in bytes.
pub const MAX_README_BYTES: usize = 524288;

/// How many images a documentation may have.
pub const MAX_IMAGES: usize = 64;

/// How many bytes the images of a documentation may have together.
pub const MAX_IMAGE_BYTES: usize = 10485760;

/// An image of a documentation.
#[derive(Debug)]
pub struct DocumentImage {
    pub path: String,
    pub content_type: String,
    pub content_base64: String,
}

/// The documentation of a version.
#[derive(Debug)]
pub struct Documentation {
    pub readme: String,
    pub images: Vec<DocumentImage>,
}

/// Why a documentation is not saved.
#[derive(Clone, Debug, PartialEq, Eq)]
pub enum DocumentFault<T> {
    TooLarge,
    ImagePath,
    ImageType,
    ImageEncoding(T),
    ImagesTooLarge,
}

impl View for DocumentFault<String> {
    type V = DocumentFault<Seq<char>>;

    open spec fn view(&self) -> DocumentFault<Seq<char>> {
        match self {
            DocumentFault::TooLarge => DocumentFault::TooLarge,
            DocumentFault::ImagePath => DocumentFault::ImagePath,
            DocumentFault::ImageType => DocumentFault::ImageType,
            DocumentFault::ImageEncoding(told) => DocumentFault::ImageEncoding(told@),
            DocumentFault::ImagesTooLarge => DocumentFault::ImagesTooLarge,
        }
    }
}

/// A path that stays below the documentation: relative, without backslashes, colons and steps
/// upwards.
pub open spec fn contained_path(path: Seq<char>) -> bool {
    &&& !"/"@.is_prefix_of(path)
    &&& !path.contains('\\')
    &&& !path.contains(':')
    &&& !text::split_on(path, '/').contains(".."@)
}

/// The media types of images.
pub open spec fn image_type(content_type: Seq<char>) -> bool {
    ||| content_type == "image/png"@
    ||| content_type == "image/jpeg"@
    ||| content_type == "image/gif"@
    ||| content_type == "image/webp"@
}

/// How many bytes an image has, or why it is not Base64.
pub open spec fn image_bytes(image: DocumentImage) -> Result<int, Seq<char>> {
    match outside::base64_decoded(image.content_base64@) {
        Ok(content) => Ok(content.len() as int),
        Err(told) => Err(told),
    }
}

/// How many bytes the images have together.
pub open spec fn total_image_bytes(images: Seq<DocumentImage>) -> int
    decreases images.len(),
{
    if images.len() == 0 {
        0
    } else {
        total_image_bytes(images.drop_last()) + match image_bytes(images.last()) {
            Ok(bytes) => bytes,
            Err(_) => 0,
        }
    }
}

/// Why the image at `at` is refused, seen after those before it.
pub open spec fn image_fault(images: Seq<DocumentImage>,
    at: int) -> Option<DocumentFault<Seq<char>>> {
    if !contained_path(images[at].path@) {
        Some(DocumentFault::ImagePath)
    } else if !image_type(images[at].content_type@) {
        Some(DocumentFault::ImageType)
    } else if image_bytes(images[at]) is Err {
        Some(DocumentFault::ImageEncoding(image_bytes(images[at])->Err_0))
    } else if total_image_bytes(images.take(at + 1)) > MAX_IMAGE_BYTES {
        Some(DocumentFault::ImagesTooLarge)
    } else {
        None
    }
}

/// The fault of the first image that has one.
pub open spec fn first_image_fault(images: Seq<DocumentImage>,
    at: int) -> Option<DocumentFault<Seq<char>>>
    decreases images.len() - at,
{
    if at < 0 || at >= images.len() {
        None
    } else if image_fault(images, at) is Some {
        image_fault(images, at)
    } else {
        first_image_fault(images, at + 1)
    }
}

/// Why a documentation is not saved.
pub open spec fn document_fault(documentation: Documentation) -> Option<DocumentFault<Seq<char>>> {
    if text::byte_len(documentation.readme@) > MAX_README_BYTES || documentation.images@.len()
        > MAX_IMAGES {
        Some(DocumentFault::TooLarge)
    } else {
        first_image_fault(documentation.images@, 0)
    }
}

/// Whether a path stays below the documentation.
fn is_contained(path: &str) -> (yes: bool)
    ensures
        yes == contained_path(path@),
{
    let chars = text::chars_of(path);
    let backslash = text::find(&chars, '\\');
    let colon = text::find(&chars, ':');
    proof {
        text::lemma_first_index(path@, '\\');
        text::lemma_first_index(path@, ':');
    }
    let segments = text::split(path, '/');
    !text::starts_with(path, "/") && backslash == chars.len() && colon == chars.len()
        && !text::holds(&segments, "..")
}

/// A row of the documentations. The statements that read and write the table must agree with what
/// is said of these rows here.
#[derive(Debug)]
pub struct DocumentRow {
    pub revision: String,
    pub documentation: Documentation,
}

/// The revisions of the rows, in order.
pub open spec fn document_revisions(rows: Seq<DocumentRow>) -> Seq<Seq<char>> {
    rows.map_values(|row: DocumentRow| row.revision@)
}

/// The documentation of a revision.
pub open spec fn document_named(rows: Seq<DocumentRow>, revision: Seq<char>) -> Option<
    Documentation,
> {
    let at = text::first_index(document_revisions(rows), revision);
    if at < rows.len() {
        Some(rows[at].documentation)
    } else {
        None
    }
}

/// The rows after a documentation was asked to be saved: it is added where it is accepted and its
/// revision has none yet.
pub open spec fn after_document(rows: Seq<DocumentRow>, row: DocumentRow) -> Seq<DocumentRow> {
    if document_fault(row.documentation) is None && document_named(rows, row.revision@) is None {
        rows.push(row)
    } else {
        rows
    }
}

/// Saves a documentation, where it is accepted and its revision has none yet.
pub fn save(rows: &mut Vec<DocumentRow>, row: DocumentRow) -> (outcome: Result<
    (),
    DocumentFault<String>,
>)
    ensures
        match outcome {
            Ok(()) => document_fault(row.documentation) is None,
            Err(fault) => document_fault(row.documentation) == Some(fault@),
        },
        final(rows)@ == after_document(old(rows)@, row),
{
    match check(&row.documentation) {
        Ok(()) => {},
        Err(fault) => return Err(fault),
    }
    let ghost revisions = document_revisions(rows@);
    let mut i: usize = 0;
    while i < rows.len()
        invariant
            i <= rows@.len(),
            rows@ == old(rows)@,
            revisions == document_revisions(rows@),
            document_fault(row.documentation) is None,
            forall|k: int| 0 <= k < i ==> revisions[k] != row.revision@,
        decreases rows@.len() - i,
    {
        if text::same(rows[i].revision.as_str(), row.revision.as_str()) {
            proof {
                text::lemma_first_index_is(revisions, row.revision@, i as int);
            }
            return Ok(());
        }
        i += 1;
    }
    proof {
        text::lemma_first_index_is(revisions, row.revision@, i as int);
    }
    rows.push(row);
    Ok(())
}

/// Checks a documentation before it is saved.
pub fn check(documentation: &Documentation) -> (outcome: Result<(), DocumentFault<String>>)
    ensures
        match outcome {
            Ok(()) => document_fault(*documentation) is None,
            Err(fault) => document_fault(*documentation) == Some(fault@),
        },
{
    if documentation.readme.as_str().as_bytes().len() > MAX_README_BYTES
        || documentation.images.len() > MAX_IMAGES {
        return Err(DocumentFault::TooLarge);
    }
    let ghost images = documentation.images@;
    let mut remaining: usize = MAX_IMAGE_BYTES;
    let mut i: usize = 0;
    while i < documentation.images.len()
        invariant
            i <= documentation.images@.len(),
            images == documentation.images@,
            text::byte_len(documentation.readme@) <= MAX_README_BYTES,
            images.len() <= MAX_IMAGES,
            remaining <= MAX_IMAGE_BYTES,
            remaining == MAX_IMAGE_BYTES - total_image_bytes(images.take(i as int)),
            first_image_fault(images, 0) == first_image_fault(images, i as int),
        decreases documentation.images@.len() - i,
    {
        let image = &documentation.images[i];
        assert(images.take(i as int + 1).drop_last() =~= images.take(i as int));
        if !is_contained(image.path.as_str()) {
            return Err(DocumentFault::ImagePath);
        }
        let content_type = image.content_type.as_str();
        if !(text::same(content_type, "image/png") || text::same(content_type, "image/jpeg")
            || text::same(content_type, "image/gif") || text::same(content_type, "image/webp")) {
            return Err(DocumentFault::ImageType);
        }
        let content = match outside::base64_decode(image.content_base64.as_str()) {
            Ok(content) => content,
            Err(told) => return Err(DocumentFault::ImageEncoding(told)),
        };
        if content.len() > remaining {
            return Err(DocumentFault::ImagesTooLarge);
        }
        remaining = remaining - content.len();
        i += 1;
    }
    Ok(())
}

/// Whether a user sees the builds of a plugin: one who manages plugins does.
pub fn sees_builds(permissions: &Vec<String>) -> (yes: bool)
    ensures
        yes == (text::texts(permissions@).contains("plugin:manage"@) || text::texts(
            permissions@,
        ).contains("*"@)),
{
    text::holds(permissions, "plugin:manage") || text::holds(permissions, "*")
}

/// The headers of an image: it never changes, since its version does not.
pub open spec fn image_headers(content_type: Seq<char>) -> Seq<(Seq<char>, Seq<char>)> {
    seq![
        ("content-type"@, content_type),
        ("cache-control"@, "private, max-age=31536000, immutable"@),
        ("x-content-type-options"@, "nosniff"@),
    ]
}

/// How an image that was asked for is refused.
pub open spec fn image_refusal(stored: Option<DocumentImage>) -> Option<(u16, Seq<char>)> {
    match stored {
        None => Some((404u16, "文档图片不存在"@)),
        Some(image) => if image_bytes(image) is Err {
            Some((400u16, image_bytes(image)->Err_0))
        } else if !http_error::header_value(image.content_type@) {
            Some((400u16, "图片类型无效"@))
        } else {
            None
        },
    }
}

/// Answers with an image of a documentation.
pub fn image(stored: Option<&DocumentImage>) -> (outcome: Result<Reply, RuntimeError>)
    ensures
        http_error::answers(
            outcome,
            image_refusal(
                match stored {
                    Some(image) => Some(*image),
                    None => None,
                },
            ),
        ),
        outcome matches Ok(reply) ==> {
            &&& reply.status == 200
            &&& outside::base64_decoded(stored->0.content_base64@) matches Ok(content)
            &&& content == reply.body@
            &&& model::header_texts(reply.headers@) == image_headers(stored->0.content_type@)
        },
{
    let image = match stored {
        Some(image) => image,
        None => return Err(RuntimeError::not_found("文档图片不存在".to_owned())),
    };
    let body = match outside::base64_decode(image.content_base64.as_str()) {
        Ok(body) => body,
        Err(told) => return Err(RuntimeError::bad_request(told)),
    };
    if !http_error::is_header_value(image.content_type.as_str()) {
        return Err(RuntimeError::bad_request("图片类型无效".to_owned()));
    }
    let mut headers: Vec<Header> = Vec::new();
    headers.push(model::header("content-type", image.content_type.as_str()));
    headers.push(model::header("cache-control", "private, max-age=31536000, immutable"));
    headers.push(model::header("x-content-type-options", "nosniff"));
    assert(model::header_texts(headers@) =~= image_headers(image.content_type@));
    Ok(Reply { status: 200, headers, body })
}

/// A refused documentation stores nothing. Of two that are accepted for one revision, the first one
/// is kept.
pub proof fn lemma_first_document_is_kept(
    rows: Seq<DocumentRow>,
    first: DocumentRow,
    second: DocumentRow,
)
    requires
        document_named(rows, first.revision@) is None,
        second.revision@ == first.revision@,
    ensures
        document_fault(first.documentation) is Some ==> after_document(rows, first) == rows,
        document_fault(first.documentation) is None ==> {
            let saved = after_document(rows, first);
            &&& document_named(saved, first.revision@) == Some(first.documentation)
            &&& after_document(saved, second) == saved
        },
        text::byte_len(first.documentation.readme@) > MAX_README_BYTES
            || first.documentation.images@.len() > MAX_IMAGES || (forall|i: int|
            0 <= i < first.documentation.images@.len() ==> image_bytes(
                #[trigger] first.documentation.images@[i],
            ) is Ok) && total_image_bytes(first.documentation.images@) > MAX_IMAGE_BYTES
            ==> after_document(rows, first) == rows,
{
    let saved = after_document(rows, first);
    let revision = first.revision@;
    text::lemma_first_index(document_revisions(rows), revision);
    if document_fault(first.documentation) is None {
        assert forall|k: int| 0 <= k < rows.len() implies document_revisions(saved)[k]
            != revision by {
            assert(document_revisions(saved)[k] == document_revisions(rows)[k]);
            assert(document_revisions(rows).contains(document_revisions(rows)[k]));
        }
        text::lemma_first_index_is(document_revisions(saved), revision, rows.len() as int);
        if first.documentation.images@.len() > 0 {
            lemma_no_fault(
                first.documentation.images@,
                0,
                first.documentation.images@.len() - 1,
            );
            assert(first.documentation.images@.take(first.documentation.images@.len() as int)
                =~= first.documentation.images@);
        }
    }
}

/// An image that was saved is answered: none of its documentation's images is refused later.
pub proof fn lemma_saved_images_are_answered(documentation: Documentation, at: int)
    requires
        document_fault(documentation) is None,
        0 <= at < documentation.images@.len(),
    ensures
        image_refusal(Some(documentation.images@[at])) is None,
{
    lemma_no_fault(documentation.images@, 0, at);
    reveal_strlit("image/png");
    reveal_strlit("image/jpeg");
    reveal_strlit("image/gif");
    reveal_strlit("image/webp");
}

/// Where no image has a fault, none of those from `from` on has one.
proof fn lemma_no_fault(images: Seq<DocumentImage>, from: int, at: int)
    requires
        0 <= from <= at < images.len(),
        first_image_fault(images, from) is None,
    ensures
        image_fault(images, at) is None,
    decreases at - from,
{
    if from < at {
        lemma_no_fault(images, from + 1, at);
    }
}

impl DocumentFault<Seq<char>> {
    /// The text shown for the fault.
    pub open spec fn text(&self) -> Seq<char> {
        match self {
            DocumentFault::TooLarge => "文档超过限额"@,
            DocumentFault::ImagePath => "文档图片路径无效"@,
            DocumentFault::ImageType => "不支持的文档图片格式"@,
            DocumentFault::ImageEncoding(told) => *told,
            DocumentFault::ImagesTooLarge => "文档图片超过限额"@,
        }
    }
}

impl DocumentFault<String> {
    /// The text shown for the fault.
    pub fn message(&self) -> (message: String)
        ensures
            message@ == self@.text(),
    {
        let message = match self {
            DocumentFault::TooLarge => "文档超过限额",
            DocumentFault::ImagePath => "文档图片路径无效",
            DocumentFault::ImageType => "不支持的文档图片格式",
            DocumentFault::ImageEncoding(told) => told.as_str(),
            DocumentFault::ImagesTooLarge => "文档图片超过限额",
        };
        message.to_owned()
    }
}

/// What is accepted as a documentation: a readme of 524288 bytes at most and 64 images at most,
/// each at a relative path without backslashes, colons and steps upwards, of one of four types and
/// in Base64, of 10485760 bytes together at most. Anything else is refused, and told which it was.
pub proof fn lemma_which_documentation_is_accepted(documentation: Documentation)
    ensures
        document_fault(documentation) is None ==> {
            &&& text::byte_len(documentation.readme@) <= 524288
            &&& documentation.images@.len() <= 64
            &&& total_image_bytes(documentation.images@) <= 10485760
            &&& forall|i: int|
                0 <= i < documentation.images@.len() ==> {
                    let image = #[trigger] documentation.images@[i];
                    &&& !"/"@.is_prefix_of(image.path@)
                    &&& !image.path@.contains('\\')
                    &&& !image.path@.contains(':')
                    &&& !text::split_on(image.path@, '/').contains(".."@)
                    &&& image.content_type@ == "image/png"@ || image.content_type@
                        == "image/jpeg"@ || image.content_type@ == "image/gif"@
                        || image.content_type@ == "image/webp"@
                    &&& outside::base64_decoded(image.content_base64@) is Ok
                }
        },
        text::byte_len(documentation.readme@) > 524288 || documentation.images@.len() > 64
            ==> document_fault(documentation) == Some(DocumentFault::<Seq<char>>::TooLarge),
{
    if document_fault(documentation) is None {
        let images = documentation.images@;
        assert forall|i: int| 0 <= i < images.len() implies image_fault(
            images,
            i,
        ) is None by {
            lemma_no_fault(images, 0, i);
        }
        assert forall|i: int| 0 <= i < images.len() implies {
            let image = #[trigger] images[i];
            &&& contained_path(image.path@)
            &&& image_type(image.content_type@)
            &&& outside::base64_decoded(image.content_base64@) is Ok
        } by {
            assert(image_fault(images, i) is None);
        }
        if images.len() > 0 {
            assert(images.take(images.len() as int) =~= images);
            assert(image_fault(images, images.len() - 1) is None);
        }
    }
}

/// The bytes of images are counted as they are decoded, one image after the other.
pub proof fn lemma_image_bytes_add_up(images: Seq<DocumentImage>, next: DocumentImage)
    ensures
        total_image_bytes(Seq::empty()) == 0,
        outside::base64_decoded(next.content_base64@) is Ok
            ==> total_image_bytes(images.push(next)) == total_image_bytes(images)
            + outside::base64_decoded(next.content_base64@)->Ok_0.len(),
        outside::base64_decoded(next.content_base64@) is Err
            ==> total_image_bytes(images.push(next)) == total_image_bytes(images),
{
    assert(images.push(next).drop_last() =~= images);
}

/// A documentation within all limits is accepted.
pub proof fn lemma_good_documentation_is_accepted(documentation: Documentation)
    requires
        text::byte_len(documentation.readme@) <= 524288,
        documentation.images@.len() <= 64,
        forall|i: int|
            0 <= i < documentation.images@.len() ==> {
                let image = #[trigger] documentation.images@[i];
                &&& !"/"@.is_prefix_of(image.path@)
                &&& !image.path@.contains('\\')
                &&& !image.path@.contains(':')
                &&& !text::split_on(image.path@, '/').contains(".."@)
                &&& image.content_type@ == "image/png"@ || image.content_type@ == "image/jpeg"@
                    || image.content_type@ == "image/gif"@ || image.content_type@ == "image/webp"@
                &&& outside::base64_decoded(image.content_base64@) is Ok
            },
        total_image_bytes(documentation.images@) <= 10485760,
    ensures
        document_fault(documentation) is None,
{
    lemma_good_images(documentation.images@, 0);
}

proof fn lemma_total_grows(images: Seq<DocumentImage>, count: int)
    requires
        0 <= count <= images.len(),
    ensures
        total_image_bytes(images.take(count)) <= total_image_bytes(images),
    decreases images.len() - count,
{
    if count == images.len() {
        assert(images.take(count) =~= images);
    } else {
        lemma_total_grows(images, count + 1);
        assert(images.take(count + 1).drop_last() =~= images.take(count));
    }
}

proof fn lemma_good_images(images: Seq<DocumentImage>, at: int)
    requires
        0 <= at <= images.len(),
        forall|i: int|
            0 <= i < images.len() ==> contained_path((#[trigger] images[i]).path@) && image_type(
                images[i].content_type@,
            ) && image_bytes(images[i]) is Ok,
        total_image_bytes(images) <= MAX_IMAGE_BYTES,
    ensures
        first_image_fault(images, at) is None,
    decreases images.len() - at,
{
    if at < images.len() {
        lemma_total_grows(images, at + 1);
        assert(contained_path(images[at].path@));
        lemma_good_images(images, at + 1);
    }
}

/// An image is answered with its bytes under its type, and is kept; one that is not there is not
/// found.
pub proof fn lemma_image_is_answered(image: DocumentImage)
    ensures
        image_refusal(None) == Some((404u16, "文档图片不存在"@)),
        outside::base64_decoded(image.content_base64@) is Err
            ==> image_refusal(Some(image))
            == Some((400u16, outside::base64_decoded(image.content_base64@)->Err_0)),
        image_refusal(Some(image)) is None ==> outside::base64_decoded(image.content_base64@) is Ok,
        image_headers(image.content_type@)[0] == ("content-type"@, image.content_type@),
        image_headers(image.content_type@)[1]
            == ("cache-control"@, "private, max-age=31536000, immutable"@),
        image_headers(image.content_type@)[2] == ("x-content-type-options"@, "nosniff"@),
        image_headers(image.content_type@).len() == 3,
{
}

/// Each of these is told in its own words.
pub proof fn lemma_told_document_fault(fault: DocumentFault<Seq<char>>)
    ensures
        fault is TooLarge ==> fault.text() == "文档超过限额"@,
        fault is ImagePath ==> fault.text() == "文档图片路径无效"@,
        fault is ImageType ==> fault.text() == "不支持的文档图片格式"@,
        fault is ImageEncoding ==> fault.text() == fault->ImageEncoding_0,
        fault is ImagesTooLarge ==> fault.text() == "文档图片超过限额"@,
{
}

} // verus!
