//! Choosing the font the watermark text is drawn with: the first candidate
//! font file that could be read and parses as a font.

use vstd::prelude::*;
use vstd::string::*;

verus! {

#[verifier::external_type_specification]
#[verifier::external_body]
pub struct ExFontVec(ab_glyph::FontVec);

/// Whether `ab_glyph` accepts these bytes as a font (face 0 of a font
/// file or collection).
pub uninterp spec fn parses_as_font(data: Seq<u8>) -> bool;

/// Calls `ab_glyph::FontVec::try_from_vec_and_index(data, 0)`.  Trusted:
/// whether it yields a font depends on the bytes alone.
#[verifier::external_body]
fn parse_font(data: Vec<u8>) -> (r: Option<ab_glyph::FontVec>)
    ensures
        r is Some <==> parses_as_font(data@),
{
    match ab_glyph::FontVec::try_from_vec_and_index(data, 0) {
        Ok(font) => Some(font),
        Err(_) => None,
    }
}

pub open spec fn candidate_bytes(c: Option<Vec<u8>>) -> Option<Seq<u8>> {
    match c {
        Some(d) => Some(d@),
        None => None,
    }
}

/// A candidate is usable when its file could be read and parses as a font.
pub open spec fn usable_font(c: Option<Seq<u8>>) -> bool {
    c matches Some(d) && parses_as_font(d)
}

pub open spec fn font_missing_message() -> Seq<char> {
    "未找到可用的系统字体，无法绘制文字水印"@
}

/// A search through candidate font files, offered one at a time in order
/// of preference.  It remembers the candidates turned down so far, none of
/// which was usable.
pub struct FontSearch {
    rejected: Ghost<Seq<Option<Seq<u8>>>>,
}

impl FontSearch {
    #[verifier::type_invariant]
    spec fn none_usable(self) -> bool {
        forall|i: int| 0 <= i < self.rejected@.len() ==> !usable_font(#[trigger] self.rejected@[i])
    }

    /// The candidates turned down so far, in the order offered.
    pub closed spec fn rejected(self) -> Seq<Option<Seq<u8>>> {
        self.rejected@
    }

    pub fn new() -> (r: Self)
        ensures
            r.rejected() == Seq::<Option<Seq<u8>>>::empty(),
    {
        FontSearch { rejected: Ghost(Seq::empty()) }
    }

    /// Offers the next candidate (its bytes, if the file could be read).
    /// A usable candidate gives its font, and then it is the first usable
    /// one offered; any other is turned down.
    pub fn offer(&mut self, candidate: Option<Vec<u8>>) -> (r: Option<ab_glyph::FontVec>)
        ensures
            r is Some <==> usable_font(candidate_bytes(candidate)),
            forall|i: int|
                0 <= i < old(self).rejected().len() ==> !usable_font(
                    #[trigger] old(self).rejected()[i],
                ),
            r is Some ==> final(self).rejected() == old(self).rejected(),
            r is None ==> final(self).rejected() == old(self).rejected().push(
                candidate_bytes(candidate),
            ),
    {
        proof {
            use_type_invariant(&*self);
        }
        let ghost offered = candidate_bytes(candidate);
        match candidate {
            Some(data) => match parse_font(data) {
                Some(font) => Some(font),
                None => {
                    self.rejected = Ghost(self.rejected@.push(offered));
                    None
                },
            },
            None => {
                self.rejected = Ghost(self.rejected@.push(offered));
                None
            },
        }
    }

    /// Ends a search that found nothing: every candidate offered was turned
    /// down, and the error says no usable system font was found.
    pub fn give_up(self) -> (r: String)
        ensures
            r@ == font_missing_message(),
            forall|i: int| 0 <= i < self.rejected().len() ==> !usable_font(#[trigger] self.rejected()[i]),
    {
        proof {
            use_type_invariant(&self);
        }
        String::from_str("未找到可用的系统字体，无法绘制文字水印")
    }
}

} // verus!
