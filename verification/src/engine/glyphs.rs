//! Font records and the glyphs they stand for.
//!
//! A font file has one record per line: a name, a place on the sprite
//! sheet, and attributes. A record whose attributes start with a double
//! quote is a row of letters: the quoted letters lie side by side on the
//! sheet, from the record's place rightwards, and each becomes a glyph named
//! after itself. Any other record is one glyph, with its attributes split at
//! semicolons.

use vstd::prelude::*;
use super::text::{chars_of, split, split_at, string_of, trim, trimmed};

verus! {

/// A font record as it is read: the attributes are still one text.
#[derive(Debug, PartialEq, Eq, Hash)]
pub struct PreGlyph {
    pub name: String,
    pub x: i32,
    pub y: i32,
    pub attributes: String,
}

/// A named place on a sprite sheet.
#[derive(Debug, PartialEq, Eq, Hash)]
pub struct Glyph {
    pub name: String,
    pub x: i32,
    pub y: i32,
    pub attributes: Vec<String>,
}

/// The mathematical content of a [`PreGlyph`].
pub struct Record {
    pub name: Seq<char>,
    pub x: int,
    pub y: int,
    pub attributes: Seq<char>,
}

/// The mathematical content of a [`Glyph`].
pub struct Shape {
    pub name: Seq<char>,
    pub x: int,
    pub y: int,
    pub attributes: Seq<Seq<char>>,
}

impl View for PreGlyph {
    type V = Record;

    open spec fn view(&self) -> Record {
        Record { name: self.name@, x: self.x as int, y: self.y as int, attributes: self.attributes@ }
    }
}

impl View for Glyph {
    type V = Shape;

    open spec fn view(&self) -> Shape {
        Shape {
            name: self.name@,
            x: self.x as int,
            y: self.y as int,
            attributes: self.attributes@.map_values(|attribute: String| attribute@),
        }
    }
}

/// The character that a letter in a row names. The euro sign stands for the
/// vertical bar, which separates the fields of a font file and so cannot be
/// written in one.
pub open spec fn named_by(letter: char) -> char {
    if letter == '€' {
        '|'
    } else {
        letter
    }
}

impl Record {
    /// The record is a row of letters: its attributes start with a double
    /// quote.
    pub open spec fn is_row(self) -> bool {
        self.attributes.len() > 0 && self.attributes.first() == '"'
    }

    /// The letters of a row: the attributes without their first and their
    /// last character.
    pub open spec fn letters(self) -> Seq<char> {
        if self.attributes.len() >= 2 {
            self.attributes.subrange(1, self.attributes.len() - 1)
        } else {
            Seq::empty()
        }
    }

    /// The glyph of the letter at `dx` in a row: named after the letter,
    /// `dx` places right of the record's place, with its name as its one
    /// attribute.
    pub open spec fn letter(self, dx: int) -> Shape {
        let name = seq![named_by(self.letters()[dx])];
        Shape { name, x: self.x + dx, y: self.y, attributes: seq![name] }
    }

    /// The glyph of a record that is no row: the record's name and place,
    /// and the attributes split at semicolons and trimmed.
    pub open spec fn single(self) -> Shape {
        Shape {
            name: self.name,
            x: self.x,
            y: self.y,
            attributes: split(self.attributes, ';').map_values(|piece: Seq<char>| trimmed(piece)),
        }
    }

    /// The glyphs that the record stands for.
    pub open spec fn glyphs(self) -> Seq<Shape> {
        if self.is_row() {
            Seq::new(self.letters().len(), |dx: int| self.letter(dx))
        } else {
            seq![self.single()]
        }
    }

    /// Every glyph of the record has a place that fits the sheet's
    /// coordinates, which are 32-bit numbers.
    pub open spec fn fits(self) -> bool {
        self.is_row() ==> self.letters().len() <= i32::MAX && self.x + self.letters().len()
            <= i32::MAX + 1
    }
}

impl PreGlyph {
    /// The glyphs that the record stands for, in the order of the sheet;
    /// none where a glyph of the record would not fit.
    pub fn expand(&self) -> (glyphs: Option<Vec<Glyph>>)
        ensures
            match glyphs {
                Some(glyphs) => self@.fits() && glyphs@.map_values(|glyph: Glyph| glyph@)
                    == self@.glyphs(),
                None => !self@.fits(),
            },
    {
        let attributes = chars_of(self.attributes.as_str());
        if attributes.len() > 0 && attributes[0] == '"' {
            let letters: usize = if attributes.len() >= 2 {
                attributes.len() - 2
            } else {
                0
            };
            if letters > i32::MAX as usize || self.x as i64 + letters as i64 > i32::MAX as i64 + 1 {
                return None;
            }
            Some(self.row(&attributes))
        } else {
            let mut glyphs: Vec<Glyph> = Vec::new();
            glyphs.push(self.single(&attributes));
            assert(glyphs@.map_values(|glyph: Glyph| glyph@) =~= self@.glyphs());
            Some(glyphs)
        }
    }

    /// The glyphs of a row of letters.
    fn row(&self, attributes: &Vec<char>) -> (glyphs: Vec<Glyph>)
        requires
            attributes@ == self@.attributes,
            self@.is_row(),
            self@.fits(),
        ensures
            glyphs@.map_values(|glyph: Glyph| glyph@) == self@.glyphs(),
    {
        let mut glyphs: Vec<Glyph> = Vec::new();
        if attributes.len() >= 2 {
            let end: usize = attributes.len() - 1;
            let mut at: usize = 1;
            while at < end
                invariant
                    1 <= at <= end,
                    end == attributes.len() - 1,
                    attributes@ == self@.attributes,
                    self@.fits(),
                    self@.is_row(),
                    glyphs.len() == at - 1,
                    forall|k: int| 0 <= k < at - 1 ==> (#[trigger] glyphs@[k])@ == self@.letter(k),
                decreases end - at,
            {
                let letter: char = attributes[at];
                let named: char = if letter == '€' {
                    '|'
                } else {
                    letter
                };
                let mut name_chars: Vec<char> = Vec::new();
                name_chars.push(named);
                let name = string_of(&name_chars);
                let mut names: Vec<String> = Vec::new();
                names.push(name.clone());
                let dx: i32 = (at - 1) as i32;
                let glyph = Glyph { name, x: self.x + dx, y: self.y, attributes: names };
                assert(glyph@.name =~= seq![named]);
                assert(glyph@.attributes =~= seq![seq![named]]);
                assert(self@.letters()[dx as int] == letter);
                glyphs.push(glyph);
                at += 1;
            }
        }
        assert(glyphs@.map_values(|glyph: Glyph| glyph@) =~= self@.glyphs());
        glyphs
    }

    /// The glyph of a record that is no row.
    fn single(&self, attributes: &Vec<char>) -> (glyph: Glyph)
        requires
            attributes@ == self@.attributes,
        ensures
            glyph@ == self@.single(),
    {
        let pieces = split_at(attributes, ';');
        let ghost texts = pieces@.map_values(|piece: Vec<char>| piece@);
        let mut names: Vec<String> = Vec::new();
        let mut i: usize = 0;
        while i < pieces.len()
            invariant
                i <= pieces.len(),
                names.len() == i,
                forall|k: int| 0 <= k < i ==> (#[trigger] names@[k])@ == trimmed(pieces@[k]@),
            decreases pieces.len() - i,
        {
            let kept = trim(&pieces[i]);
            names.push(string_of(&kept));
            i += 1;
        }
        let glyph = Glyph { name: self.name.clone(), x: self.x, y: self.y, attributes: names };
        assert(glyph@.attributes =~= texts.map_values(|piece: Seq<char>| trimmed(piece)));
        glyph
    }
}

} // verus!
