//! The atoms a tool result carries: text and images.

use vstd::prelude::*;

verus! {

#[derive(Debug, PartialEq)]
pub struct TextContent {
    pub text: String,
}

#[derive(Debug, PartialEq)]
pub struct ImageContent {
    pub data: String,
    pub mime_type: String,
}

/// Content returned by a tool: either text or an image.
#[derive(Debug, PartialEq)]
pub enum Content {
    Text(TextContent),
    Image(ImageContent),
}

/// The mathematical shape of a piece of content.
#[verifier::ext_equal]
pub enum ContentSpec {
    Text(Seq<char>),
    Image(Seq<char>, Seq<char>),
}

impl DeepView for Content {
    type V = ContentSpec;

    open spec fn deep_view(&self) -> ContentSpec {
        match self {
            Content::Text(t) => ContentSpec::Text(t.text@),
            Content::Image(i) => ContentSpec::Image(i.data@, i.mime_type@),
        }
    }
}

impl Content {
    /// Text content built from a string slice.
    pub fn text(text: &str) -> (r: Content)
        ensures
            r.deep_view() == ContentSpec::Text(text@),
    {
        Content::Text(TextContent { text: text.to_owned() })
    }

    /// Image content built from its base64 data and mime type.
    pub fn image(data: &str, mime_type: &str) -> (r: Content)
        ensures
            r.deep_view() == ContentSpec::Image(data@, mime_type@),
    {
        Content::Image(ImageContent { data: data.to_owned(), mime_type: mime_type.to_owned() })
    }

    /// A structurally equal copy of the content.
    pub fn duplicate(&self) -> (r: Content)
        ensures
            r.deep_view() == self.deep_view(),
    {
        match self {
            Content::Text(t) => Content::Text(TextContent { text: t.text.clone() }),
            Content::Image(i) => Content::Image(
                ImageContent { data: i.data.clone(), mime_type: i.mime_type.clone() },
            ),
        }
    }
}

} // verus!
