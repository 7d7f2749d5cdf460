//! Tile dictionaries: which tile of a sheet has which name and attributes.
//!
//! A dictionary is a table with a `name`, an `x`, a `y` and `attributes` in
//! each row. Attributes that start with a double quote make the row a row
//! of letters, as in a font: each quoted letter is a tile of its own, one
//! place right of the one before. Any other attributes are a list, split at
//! commas.

use vstd::prelude::*;
use vstd::string::StringExecFns;
use super::glyphs::Shape;
use super::numbers::{parse_u32, u32_of};
use super::tables::{field, lookup, pairs, Field};
use super::text::{chars_of, split, split_at, string_of, trim, trimmed};

verus! {

/// One tile of a sheet: its name, its place and its attributes.
#[derive(Debug)]
pub struct TileDictionaryEntry {
    pub name: String,
    pub x: i32,
    pub y: i32,
    pub attributes: Vec<String>,
}

impl View for TileDictionaryEntry {
    type V = Shape;

    open spec fn view(&self) -> Shape {
        Shape {
            name: self.name@,
            x: self.x as int,
            y: self.y as int,
            attributes: self.attributes@.map_values(|attribute: String| attribute@),
        }
    }
}

/// The tiles of a sheet, in the order of the table.
#[derive(Debug)]
pub struct TileDictionary {
    pub entries: Vec<TileDictionaryEntry>,
}

impl View for TileDictionary {
    type V = Seq<Shape>;

    open spec fn view(&self) -> Seq<Shape> {
        self.entries@.map_values(|entry: TileDictionaryEntry| entry@)
    }
}

/// An unsigned place read as a signed one, in two's complement.
pub open spec fn wrapped(n: u32) -> int {
    if n <= i32::MAX {
        n as int
    } else {
        n - 0x1_0000_0000
    }
}

/// The attributes make a row of letters: they start with a double quote.
pub open spec fn quoted(attributes: Seq<char>) -> bool {
    attributes.len() > 0 && attributes.first() == '"'
}

/// The letters of a row: the attributes without their first and their last
/// character.
pub open spec fn letters(attributes: Seq<char>) -> Seq<char> {
    if attributes.len() >= 2 {
        attributes.subrange(1, attributes.len() - 1)
    } else {
        Seq::empty()
    }
}

/// The tile of one letter of a row: named after the letter, `dx` places
/// right of the row's place, with its name as its one attribute.
pub open spec fn letter_tile(letter: char, x: int, y: int, dx: int) -> Shape {
    Shape { name: seq![letter], x: x + dx, y, attributes: seq![seq![letter]] }
}

/// The tiles that one row of a dictionary stands for; none where a tile of
/// the row would not fit the sheet's places, which are 32-bit numbers.
pub open spec fn tiles_of(name: Seq<char>, x: u32, y: u32, attributes: Seq<char>) -> Option<
    Seq<Shape>,
> {
    if quoted(attributes) {
        if letters(attributes).len() <= i32::MAX && wrapped(x) + letters(attributes).len()
            <= i32::MAX + 1 {
            Some(
                Seq::new(
                    letters(attributes).len(),
                    |dx: int| letter_tile(letters(attributes)[dx], wrapped(x), wrapped(y), dx),
                ),
            )
        } else {
            None
        }
    } else {
        Some(
            seq![
                Shape {
                    name,
                    x: wrapped(x),
                    y: wrapped(y),
                    attributes: split(attributes, ',').map_values(
                        |piece: Seq<char>| trimmed(piece),
                    ),
                },
            ],
        )
    }
}

/// The tiles that a row stands for. The row must have a `name` and an `x`
/// and a `y` that are unsigned numbers; without `attributes` it stands for
/// no tile.
pub open spec fn row_tiles(row: Seq<(Seq<char>, Seq<char>)>) -> Option<Seq<Shape>> {
    match (lookup(row, "name"@), lookup(row, "x"@), lookup(row, "y"@)) {
        (Some(name), Some(x), Some(y)) => match (u32_of(x), u32_of(y)) {
            (Some(x), Some(y)) => match lookup(row, "attributes"@) {
                Some(attributes) => tiles_of(name, x, y, attributes),
                None => Some(Seq::empty()),
            },
            _ => None,
        },
        _ => None,
    }
}

/// The tiles that the rows of a table stand for, row after row; none if
/// one of the rows stands for none.
pub open spec fn table_tiles(rows: Seq<Seq<(Seq<char>, Seq<char>)>>) -> Option<Seq<Shape>>
    decreases rows.len(),
{
    if rows.len() == 0 {
        Some(Seq::empty())
    } else {
        match (table_tiles(rows.drop_last()), row_tiles(rows.last())) {
            (Some(before), Some(more)) => Some(before + more),
            _ => None,
        }
    }
}

/// How often an attribute occurs in a list of attributes.
pub open spec fn count(attributes: Seq<Seq<char>>, attribute: Seq<char>) -> nat
    decreases attributes.len(),
{
    if attributes.len() == 0 {
        0
    } else {
        count(attributes.drop_last(), attribute) + if attributes.last() == attribute {
            1nat
        } else {
            0nat
        }
    }
}

/// The places in the dictionary of the tiles with an attribute, in rising
/// order, each place as often as the tile lists the attribute.
pub open spec fn carriers(tiles: Seq<Shape>, attribute: Seq<char>) -> Seq<usize>
    decreases tiles.len(),
{
    if tiles.len() == 0 {
        Seq::empty()
    } else {
        carriers(tiles.drop_last(), attribute) + Seq::new(
            count(tiles.last().attributes, attribute),
            |k: int| (tiles.len() - 1) as usize,
        )
    }
}

/// The mathematical content of a list of rows.
pub open spec fn rows_of(rows: Seq<Vec<Field>>) -> Seq<Seq<(Seq<char>, Seq<char>)>> {
    rows.map_values(|row: Vec<Field>| pairs(row@))
}

/// The mathematical content of a list of tiles.
pub open spec fn shapes(tiles: Seq<TileDictionaryEntry>) -> Seq<Shape> {
    tiles.map_values(|tile: TileDictionaryEntry| tile@)
}

/// An unsigned place read as a signed one.
fn wrap(n: u32) -> (place: i32)
    ensures
        place == wrapped(n),
{
    if n <= 0x7fff_ffff {
        n as i32
    } else {
        (n as i64 - 0x1_0000_0000) as i32
    }
}

/// A string of one character.
fn letter_name(letter: char) -> (name: String)
    ensures
        name@ == seq![letter],
{
    let mut chars: Vec<char> = Vec::new();
    chars.push(letter);
    assert(chars@ =~= seq![letter]);
    string_of(&chars)
}

/// Adds the tiles that one row of a dictionary stands for to a list of
/// tiles, and says whether the row stands for any: it does not where one of
/// its tiles would not fit, and then the list stays as it was.
fn add_tiles(
    tiles: &mut Vec<TileDictionaryEntry>,
    name: &str,
    x: u32,
    y: u32,
    attributes: &str,
) -> (added: bool)
    ensures
        match tiles_of(name@, x, y, attributes@) {
            Some(more) => added && shapes(final(tiles)@) == shapes(old(tiles)@) + more,
            None => !added && final(tiles)@ == old(tiles)@,
        },
{
    let ghost before = shapes(tiles@);
    let chars = chars_of(attributes);
    let left: i32 = wrap(x);
    let down: i32 = wrap(y);
    if chars.len() > 0 && chars[0] == '"' {
        let count: usize = if chars.len() >= 2 {
            chars.len() - 2
        } else {
            0
        };
        if count > i32::MAX as usize || left as i64 + count as i64 > i32::MAX as i64 + 1 {
            return false;
        }
        let ghost row = tiles_of(name@, x, y, attributes@)->Some_0;
        let mut dx: usize = 0;
        assert(shapes(tiles@) =~= before + row.take(0));
        while dx < count
            invariant
                dx <= count,
                count == letters(chars@).len(),
                count <= i32::MAX,
                left + count <= i32::MAX + 1,
                chars@ == attributes@,
                left == wrapped(x),
                down == wrapped(y),
                tiles_of(name@, x, y, attributes@) == Some(row),
                row.len() == count,
                forall|k: int|
                    0 <= k < count ==> #[trigger] row[k] == letter_tile(
                        letters(chars@)[k],
                        left as int,
                        down as int,
                        k,
                    ),
                shapes(tiles@) == before + row.take(dx as int),
            decreases count - dx,
        {
            let ghost filled = shapes(tiles@);
            let letter: char = chars[dx + 1];
            assert(letters(chars@)[dx as int] == letter);
            let mut names: Vec<String> = Vec::new();
            names.push(letter_name(letter));
            let tile = TileDictionaryEntry {
                name: letter_name(letter),
                x: left + dx as i32,
                y: down,
                attributes: names,
            };
            assert(tile@.attributes =~= seq![seq![letter]]);
            assert(tile@ == row[dx as int]);
            tiles.push(tile);
            dx += 1;
            assert(shapes(tiles@) =~= filled.push(row[dx - 1]));
            assert(filled.push(row[dx - 1]) =~= before + row.take(dx as int));
        }
        assert(row.take(count as int) =~= row);
        true
    } else {
        let pieces = split_at(&chars, ',');
        let mut names: Vec<String> = Vec::new();
        let mut i: usize = 0;
        while i < pieces.len()
            invariant
                i <= pieces.len(),
                names.len() == i,
                forall|k: int| 0 <= k < i ==> (#[trigger] names@[k])@ == trimmed(pieces@[k]@),
            decreases pieces.len() - i,
        {
            let kept = trim(&pieces[i]);
            names.push(string_of(&kept));
            i += 1;
        }
        let tile = TileDictionaryEntry {
            name: String::from_str(name),
            x: left,
            y: down,
            attributes: names,
        };
        assert(tile@.attributes =~= pieces@.map_values(|piece: Vec<char>| piece@).map_values(
            |piece: Seq<char>| trimmed(piece),
        ));
        tiles.push(tile);
        assert(shapes(tiles@) =~= before + tiles_of(name@, x, y, attributes@)->Some_0);
        true
    }
}

impl TileDictionary {
    /// The dictionary that the rows of a table make; none where a row lacks
    /// its name or its place, or has a tile that does not fit.
    pub fn from(rows: &Vec<Vec<Field>>) -> (dictionary: Option<TileDictionary>)
        ensures
            match dictionary {
                Some(dictionary) => table_tiles(rows_of(rows@)) == Some(dictionary@),
                None => table_tiles(rows_of(rows@)) is None,
            },
    {
        let mut entries: Vec<TileDictionaryEntry> = Vec::new();
        let mut i: usize = 0;
        assert(rows_of(rows@).take(0) =~= Seq::<Seq<(Seq<char>, Seq<char>)>>::empty());
        assert(shapes(entries@) =~= Seq::<Shape>::empty());
        while i < rows.len()
            invariant
                i <= rows.len(),
                table_tiles(rows_of(rows@).take(i as int)) == Some(shapes(entries@)),
            decreases rows.len() - i,
        {
            assert(rows_of(rows@).take(i + 1).drop_last() =~= rows_of(rows@).take(i as int));
            assert(rows_of(rows@).take(i + 1).last() == pairs(rows@[i as int]@));
            proof {
                lemma_broken_row(rows_of(rows@), i as int);
            }
            let row = &rows[i];
            let Some(name) = field(row, "name") else {
                return None;
            };
            let Some(x) = field(row, "x") else {
                return None;
            };
            let Some(x) = parse_u32(&chars_of(x.as_str())) else {
                return None;
            };
            let Some(y) = field(row, "y") else {
                return None;
            };
            let Some(y) = parse_u32(&chars_of(y.as_str())) else {
                return None;
            };
            if let Some(attributes) = field(row, "attributes") {
                if !add_tiles(&mut entries, name.as_str(), x, y, attributes.as_str()) {
                    return None;
                }
            } else {
                assert(shapes(entries@) + Seq::<Shape>::empty() =~= shapes(entries@));
            }
            i += 1;
        }
        assert(rows_of(rows@).take(rows.len() as int) =~= rows_of(rows@));
        Some(TileDictionary { entries })
    }

    /// The places in the dictionary of the tiles with an attribute, in
    /// rising order, each place as often as the tile lists the attribute.
    pub fn with_attribute(&self, attribute: &str) -> (places: Vec<usize>)
        ensures
            places@ == carriers(self@, attribute@),
    {
        let wanted = String::from_str(attribute);
        let mut places: Vec<usize> = Vec::new();
        let mut i: usize = 0;
        assert(self@.take(0) =~= Seq::<Shape>::empty());
        while i < self.entries.len()
            invariant
                i <= self.entries.len(),
                wanted@ == attribute@,
                places@ == carriers(self@.take(i as int), attribute@),
            decreases self.entries.len() - i,
        {
            let ghost before = places@;
            let attributes = &self.entries[i].attributes;
            let ghost listed = self@[i as int].attributes;
            assert(self@.take(i + 1).drop_last() =~= self@.take(i as int));
            let mut j: usize = 0;
            assert(listed.take(0) =~= Seq::<Seq<char>>::empty());
            assert(places@ =~= before + Seq::new(0, |k: int| i));
            while j < attributes.len()
                invariant
                    j <= attributes.len(),
                    wanted@ == attribute@,
                    listed == attributes@.map_values(|attribute: String| attribute@),
                    places@ == before + Seq::new(
                        count(listed.take(j as int), attribute@),
                        |k: int| i,
                    ),
                decreases attributes.len() - j,
            {
                let ghost filled = places@;
                assert(listed.take(j + 1).drop_last() =~= listed.take(j as int));
                if attributes[j] == wanted {
                    places.push(i);
                    assert(places@ =~= before + Seq::new(
                        count(listed.take(j + 1), attribute@),
                        |k: int| i,
                    ));
                }
                j += 1;
            }
            assert(listed.take(attributes.len() as int) =~= listed);
            i += 1;
        }
        assert(self@.take(self.entries.len() as int) =~= self@);
        places
    }
}

/// A table with a row that stands for no tiles stands for none, however
/// many rows follow.
proof fn lemma_broken_row(rows: Seq<Seq<(Seq<char>, Seq<char>)>>, i: int)
    requires
        0 <= i < rows.len(),
    ensures
        table_tiles(rows.take(i + 1)) is None ==> table_tiles(rows) is None,
    decreases rows.len() - i,
{
    if i + 1 < rows.len() {
        lemma_broken_row(rows, i + 1);
        assert(rows.take(i + 2).drop_last() =~= rows.take(i + 1));
    } else {
        assert(rows.take(i + 1) =~= rows);
    }
}

} // verus!
