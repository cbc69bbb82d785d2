use vstd::prelude::*;
use vstd::string::StringExecFns;

use crate::paths::ext_key_spec;
use crate::paths::extension_key;

verus! {

// ---------------------------------------------------------------------------
// Styled preview lines
// ---------------------------------------------------------------------------
#[derive(Clone, Copy, Debug, PartialEq, Eq, Structural)]
pub enum PreviewStyle {
    Normal,
    Directory,
    Header,
    LineNumber,
}

/// One line of the preview pane, already styled by the preview provider.
pub struct PreviewLine {
    pub text: String,
    pub style: PreviewStyle,
}

impl Clone for PreviewLine {
    fn clone(&self) -> (r: Self)
        ensures
            r == *self,
    {
        PreviewLine { text: self.text.clone(), style: self.style }
    }
}

// ---------------------------------------------------------------------------
// Recognizing images by extension
// ---------------------------------------------------------------------------
pub open spec fn is_image_spec(p: Seq<char>) -> bool {
    ||| ext_key_spec(p) == ("png")@
    ||| ext_key_spec(p) == ("jpg")@
    ||| ext_key_spec(p) == ("jpeg")@
    ||| ext_key_spec(p) == ("gif")@
    ||| ext_key_spec(p) == ("bmp")@
    ||| ext_key_spec(p) == ("webp")@
    ||| ext_key_spec(p) == ("svg")@
    ||| ext_key_spec(p) == ("ico")@
}

/// Whether a path names an image, judged by its extension alone.
pub fn is_image(path: &str) -> (r: bool)
    ensures
        r == is_image_spec(path@),
{
    let ek = extension_key(path);
    ek == String::from_str("png") || ek == String::from_str("jpg") || ek == String::from_str(
        "jpeg",
    ) || ek == String::from_str("gif") || ek == String::from_str("bmp") || ek == String::from_str(
        "webp",
    ) || ek == String::from_str("svg") || ek == String::from_str("ico")
}

} // verus!
