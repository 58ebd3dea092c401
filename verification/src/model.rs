use vstd::prelude::*;

verus! {

/// A font supplied with a document: the font file (TTF/OTF), Base64-encoded.
pub struct PdfFontDef {
    pub data: String,
}

/// The font name a text element carries when the document gives none: the empty name.
pub fn default_font() -> (name: String)
    ensures
        name@ == Seq::<char>::empty(),
{
    String::new()
}

/// The format an image element carries when the document gives none: `"png"`.
pub fn default_image_format() -> (format: String)
    ensures
        format@ == "png"@,
{
    let format = "png".to_owned();
    proof {
        reveal_strlit("png");
    }
    format
}

} // verus!
