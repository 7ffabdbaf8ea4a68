//! File attachments of the agent chat: which content types are accepted, and
//! how the attachments of a user turn enter its content.

use vstd::prelude::*;
use vstd::string::*;

use crate::messages::{ContentPart, ContentPartView, ContentView, MessageContent};
use crate::text::{has_prefix, owned, str_eq, str_starts_with};

verus! {

/// The content types accepted by name.
pub open spec fn supported_types() -> Seq<Seq<char>> {
    seq![
        "image/png"@, "image/jpeg"@, "image/jpg"@, "image/webp"@, "image/gif"@,
        "application/pdf"@, "text/plain"@, "text/csv"@, "text/markdown"@, "text/x-sql"@,
        "application/json"@, "application/x-yaml"@, "text/yaml"@, "text/x-python"@,
        "text/x-rust"@, "text/x-go"@, "text/x-java"@, "text/javascript"@, "text/typescript"@,
        "text/html"@, "text/css"@, "application/xml"@, "text/xml"@,
    ]
}

/// The content types accepted by name.
pub fn supported_attachment_types() -> (r: Vec<&'static str>)
    ensures
        r@.map_values(|s: &str| s@) == supported_types(),
{
    let v: Vec<&'static str> = vec![
        "image/png", "image/jpeg", "image/jpg", "image/webp", "image/gif",
        "application/pdf", "text/plain", "text/csv", "text/markdown", "text/x-sql",
        "application/json", "application/x-yaml", "text/yaml", "text/x-python",
        "text/x-rust", "text/x-go", "text/x-java", "text/javascript", "text/typescript",
        "text/html", "text/css", "application/xml", "text/xml",
    ];
    proof {
        assert(v@.map_values(|s: &str| s@) =~= supported_types());
    }
    v
}

/// Whether an attachment's content type is accepted: one of the listed
/// types, or any `text/` type.
pub fn is_supported_attachment_type(content_type: &str) -> (r: bool)
    ensures
        r == (supported_types().contains(content_type@) || has_prefix(content_type@, "text/"@)),
{
    let types = supported_attachment_types();
    let mut i: usize = 0;
    while i < types.len()
        invariant
            i <= types@.len(),
            types@.map_values(|s: &str| s@) == supported_types(),
            forall|j: int| 0 <= j < i ==> supported_types()[j] != content_type@,
        decreases types.len() - i,
    {
        proof {
            assert(types@.map_values(|s: &str| s@)[i as int] == types@[i as int]@);
        }
        if str_eq(types[i], content_type) {
            proof {
                assert(supported_types()[i as int] == content_type@);
            }
            return true;
        }
        i = i + 1;
    }
    str_starts_with(content_type, "text/")
}

/// A stored attachment of a user turn, as the turn's content needs it.
pub struct AttachmentRef {
    /// The attachment's id, as text.
    pub id: String,
    pub filename: String,
    pub content_type: String,
    /// The size in KB with one decimal, as the caller writes it.
    pub size_kb: String,
    /// For an image, a link to the stored file, when the store gave one.
    pub url: Option<String>,
}

/// Whether an attachment is shown to the model as an image.
pub open spec fn is_image(a: AttachmentRef) -> bool {
    has_prefix(a.content_type@, "image/"@)
}

/// The link of an image part: the store's link, else an `attachment://` one.
pub open spec fn image_link(a: AttachmentRef) -> Seq<char> {
    match a.url {
        Some(u) => u@,
        None => "attachment://"@ + a.id@,
    }
}

/// The note appended to the user's text for an attachment that is no image:
/// the agent reads its content with the `get` tool.
pub open spec fn attachment_note(a: AttachmentRef) -> Seq<char> {
    "\n\n[Attached file: "@ + a.filename@ + " ("@ + a.content_type@ + ", "@ + a.size_kb@
        + "KB) \u{2014} use get tool with resource \"attachment\" and attachment_id \""@ + a.id@
        + "\" to read its content]"@
}

/// The notes of the attachments that are no images, in order.
pub open spec fn attachment_notes(atts: Seq<AttachmentRef>) -> Seq<char>
    decreases atts.len(),
{
    if atts.len() == 0 {
        Seq::empty()
    } else {
        attachment_notes(atts.drop_last()) + if is_image(atts.last()) {
            Seq::empty()
        } else {
            attachment_note(atts.last())
        }
    }
}

/// The image parts of the attachments that are images, in order.
pub open spec fn image_parts(atts: Seq<AttachmentRef>) -> Seq<ContentPartView>
    decreases atts.len(),
{
    if atts.len() == 0 {
        Seq::empty()
    } else {
        image_parts(atts.drop_last()) + if is_image(atts.last()) {
            seq![ContentPartView::ImageUrl { url: image_link(atts.last()), detail: None }]
        } else {
            Seq::empty()
        }
    }
}

/// The content of a user turn: the message alone when nothing is attached;
/// otherwise a text part with the message and a note per non-image
/// attachment, followed by one image part per image.
pub fn user_content(message: &str, attachments: &Vec<AttachmentRef>) -> (r: MessageContent)
    ensures
        attachments@.len() == 0 ==> r@ == ContentView::Text(message@),
        attachments@.len() > 0 ==> r@ == ContentView::Parts(
            seq![ContentPartView::Text { text: message@ + attachment_notes(attachments@) }]
                + image_parts(attachments@),
        ),
{
    if attachments.len() == 0 {
        return MessageContent::Text(owned(message));
    }
    let mut images: Vec<ContentPart> = Vec::new();
    let mut notes = String::new();
    let mut i: usize = 0;
    while i < attachments.len()
        invariant
            i <= attachments@.len(),
            notes@ == attachment_notes(attachments@.subrange(0, i as int)),
            images@.map_values(|p: ContentPart| p@) == image_parts(attachments@.subrange(0, i as int)),
        decreases attachments.len() - i,
    {
        let a = &attachments[i];
        let ghost pre = attachments@.subrange(0, i as int);
        proof {
            assert(attachments@.subrange(0, i as int + 1).drop_last() =~= pre);
            assert(attachments@.subrange(0, i as int + 1).last() == *a);
        }
        if str_starts_with(a.content_type.as_str(), "image/") {
            let url = match &a.url {
                Some(u) => u.clone(),
                None => {
                    let mut l = owned("attachment://");
                    l.append(a.id.as_str());
                    l
                },
            };
            let part = ContentPart::ImageUrl { url, detail: None };
            let ghost before = images@;
            images.push(part);
            proof {
                assert(images@.map_values(|p: ContentPart| p@) =~= before.map_values(|p: ContentPart| p@).push(part@));
                assert(notes@ =~= attachment_notes(pre) + Seq::<char>::empty());
            }
        } else {
            notes.append("\n\n[Attached file: ");
            notes.append(a.filename.as_str());
            notes.append(" (");
            notes.append(a.content_type.as_str());
            notes.append(", ");
            notes.append(a.size_kb.as_str());
            notes.append("KB) \u{2014} use get tool with resource \"attachment\" and attachment_id \"");
            notes.append(a.id.as_str());
            notes.append("\" to read its content]");
            proof {
                assert(images@.map_values(|p: ContentPart| p@) =~= image_parts(pre) + Seq::<ContentPartView>::empty());
            }
        }
        i = i + 1;
    }
    proof {
        assert(attachments@.subrange(0, i as int) =~= attachments@);
    }
    let mut text = owned(message);
    text.append(notes.as_str());
    let mut parts: Vec<ContentPart> = Vec::new();
    let first = ContentPart::Text { text };
    parts.push(first);
    let ghost fv = first@;
    let mut j: usize = 0;
    proof {
        assert(parts@.map_values(|p: ContentPart| p@) =~= seq![fv] + images@.subrange(0, 0).map_values(|p: ContentPart| p@));
    }
    while j < images.len()
        invariant
            j <= images@.len(),
            parts@.map_values(|p: ContentPart| p@) == seq![fv] + images@.subrange(0, j as int).map_values(|p: ContentPart| p@),
        decreases images.len() - j,
    {
        let p = images[j].clone();
        let ghost before = parts@;
        parts.push(p);
        proof {
            assert(parts@.map_values(|p: ContentPart| p@) =~= before.map_values(|p: ContentPart| p@).push(p@));
            assert(images@.subrange(0, j as int + 1).map_values(|p: ContentPart| p@) =~= images@.subrange(0, j as int).map_values(|p: ContentPart| p@).push(images@[j as int]@));
        }
        j = j + 1;
    }
    proof {
        assert(images@.subrange(0, j as int) =~= images@);
    }
    MessageContent::Parts(parts)
}

} // verus!
