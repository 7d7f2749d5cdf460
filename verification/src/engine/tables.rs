//! Rows of the tables that describe grids and tilesets.
//!
//! A table has a line of headers and one row per line. A row is read as a
//! list of fields, each a header with the row's text under it; where a
//! header occurs twice the later field counts.

use vstd::prelude::*;
use vstd::string::{StrSliceExecFns, StringExecFns};
use super::numbers::{i32_of, parse_i32};
use super::text::chars_of;

verus! {

/// One field of a row: the header and the text under it.
pub type Field = (String, String);

/// The mathematical content of a list of fields.
pub open spec fn pairs(fields: Seq<Field>) -> Seq<(Seq<char>, Seq<char>)> {
    fields.map_values(|field: Field| (field.0@, field.1@))
}

/// The mathematical content of a text that may be absent.
pub open spec fn text_of(text: Option<String>) -> Option<Seq<char>> {
    match text {
        Some(text) => Some(text@),
        None => None,
    }
}

/// The text under a header, if the row has the header: that of the last
/// field with it.
pub open spec fn lookup(row: Seq<(Seq<char>, Seq<char>)>, header: Seq<char>) -> Option<Seq<char>>
    decreases row.len(),
{
    if row.len() == 0 {
        None
    } else if row.last().0 == header {
        Some(row.last().1)
    } else {
        lookup(row.drop_last(), header)
    }
}

/// The text under a header, if the row has the header.
pub fn field(row: &Vec<Field>, header: &str) -> (found: Option<String>)
    ensures
        text_of(found) == lookup(pairs(row@), header@),
{
    let wanted = String::from_str(header);
    let mut upto: usize = row.len();
    assert(pairs(row@).take(upto as int) =~= pairs(row@));
    while upto > 0
        invariant
            upto <= row.len(),
            wanted@ == header@,
            lookup(pairs(row@), header@) == lookup(pairs(row@).take(upto as int), header@),
        decreases upto,
    {
        assert(pairs(row@).take(upto as int).drop_last() =~= pairs(row@).take(upto - 1));
        if row[upto - 1].0 == wanted {
            return Some(row[upto - 1].1.clone());
        }
        upto -= 1;
    }
    None
}

/// What the cells of a grid hold.
#[derive(Clone, Copy, Debug, PartialEq, Eq, Structural)]
pub enum GridKind {
    Boolean,
    Entity,
    Glyph,
    Number,
}

impl Default for GridKind {
    fn default() -> (kind: GridKind)
        ensures
            kind == GridKind::Boolean,
    {
        GridKind::Boolean
    }
}

/// The kind that a word names.
pub open spec fn kind_of(word: Seq<char>) -> Option<GridKind> {
    if word == "boolean"@ {
        Some(GridKind::Boolean)
    } else if word == "entity"@ {
        Some(GridKind::Entity)
    } else if word == "number"@ {
        Some(GridKind::Number)
    } else if word == "glyph"@ {
        Some(GridKind::Glyph)
    } else {
        None
    }
}

impl GridKind {
    /// The kind that a word names: `boolean`, `entity`, `number` or `glyph`.
    pub fn from(s: &str) -> (kind: Option<GridKind>)
        ensures
            kind == kind_of(s@),
    {
        let word = String::from_str(s);
        if word == String::from_str("boolean") {
            Some(GridKind::Boolean)
        } else if word == String::from_str("entity") {
            Some(GridKind::Entity)
        } else if word == String::from_str("number") {
            Some(GridKind::Number)
        } else if word == String::from_str("glyph") {
            Some(GridKind::Glyph)
        } else {
            None
        }
    }
}

/// A grid as its table describes it.
#[derive(Debug)]
pub struct GridRow {
    pub name: String,
    pub dimensions: (i32, i32),
    pub grid_kind: GridKind,
    pub tileset: Option<String>,
}

/// The mathematical content of a [`GridRow`].
pub struct GridSheet {
    pub name: Seq<char>,
    pub dimensions: (i32, i32),
    pub grid_kind: GridKind,
    pub tileset: Option<Seq<char>>,
}

impl View for GridRow {
    type V = GridSheet;

    open spec fn view(&self) -> GridSheet {
        GridSheet {
            name: self.name@,
            dimensions: self.dimensions,
            grid_kind: self.grid_kind,
            tileset: text_of(self.tileset),
        }
    }
}

/// The grid that a row describes. The row must have a `name`, a `kind` that
/// names a kind, and a `grid size x` and a `grid size y` that are numbers;
/// it may have a `tileset`.
pub open spec fn grid_of(row: Seq<(Seq<char>, Seq<char>)>) -> Option<GridSheet> {
    match (
        lookup(row, "name"@),
        lookup(row, "kind"@),
        lookup(row, "grid size x"@),
        lookup(row, "grid size y"@),
    ) {
        (Some(name), Some(kind), Some(width), Some(height)) => match (
            kind_of(kind),
            i32_of(width),
            i32_of(height),
        ) {
            (Some(grid_kind), Some(w), Some(h)) => Some(
                GridSheet { name, dimensions: (w, h), grid_kind, tileset: lookup(row, "tileset"@) },
            ),
            _ => None,
        },
        _ => None,
    }
}

impl GridRow {
    /// The grid that a row describes, if it describes one.
    pub fn from(row: &Vec<Field>) -> (grid: Option<GridRow>)
        ensures
            match grid {
                Some(grid) => grid_of(pairs(row@)) == Some(grid@),
                None => grid_of(pairs(row@)) is None,
            },
    {
        let Some(name) = field(row, "name") else {
            return None;
        };
        let Some(kind) = field(row, "kind") else {
            return None;
        };
        let Some(grid_kind) = GridKind::from(kind.as_str()) else {
            return None;
        };
        let tileset = field(row, "tileset");
        let Some(width) = field(row, "grid size x") else {
            return None;
        };
        let Some(w) = parse_i32(&chars_of(width.as_str())) else {
            return None;
        };
        let Some(height) = field(row, "grid size y") else {
            return None;
        };
        let Some(h) = parse_i32(&chars_of(height.as_str())) else {
            return None;
        };
        Some(GridRow { name, dimensions: (w, h), grid_kind, tileset })
    }
}

/// One picture file of a tileset as its table describes it.
#[derive(Debug)]
pub struct InvariantTileset {
    pub name: String,
    pub file: String,
    pub weight: i32,
    pub tile_size: Option<(i32, i32)>,
    pub dictionary: Option<String>,
}

/// The mathematical content of an [`InvariantTileset`].
pub struct TilesetSheet {
    pub name: Seq<char>,
    pub file: Seq<char>,
    pub weight: i32,
    pub tile_size: Option<(i32, i32)>,
    pub dictionary: Option<Seq<char>>,
}

impl View for InvariantTileset {
    type V = TilesetSheet;

    open spec fn view(&self) -> TilesetSheet {
        TilesetSheet {
            name: self.name@,
            file: self.file@,
            weight: self.weight,
            tile_size: self.tile_size,
            dictionary: text_of(self.dictionary),
        }
    }
}

/// The size of a tile, where both its width and its height are numbers.
pub open spec fn size_of(width: Seq<char>, height: Seq<char>) -> Option<(i32, i32)> {
    match (i32_of(width), i32_of(height)) {
        (Some(w), Some(h)) => Some((w, h)),
        _ => None,
    }
}

/// The picture file that a row describes. The row must have a `name`, a
/// `file`, a `weight` that is a number, a `width` and a `height`; it may
/// have a `dictionary`. The size is known only where width and height are
/// both numbers.
pub open spec fn tileset_of(row: Seq<(Seq<char>, Seq<char>)>) -> Option<TilesetSheet> {
    match (
        lookup(row, "name"@),
        lookup(row, "file"@),
        lookup(row, "weight"@),
        lookup(row, "width"@),
        lookup(row, "height"@),
    ) {
        (Some(name), Some(file), Some(weight), Some(width), Some(height)) => match i32_of(weight) {
            Some(weight) => Some(
                TilesetSheet {
                    name,
                    file,
                    weight,
                    tile_size: size_of(width, height),
                    dictionary: lookup(row, "dictionary"@),
                },
            ),
            None => None,
        },
        _ => None,
    }
}

impl InvariantTileset {
    /// The picture file that a row describes, if it describes one.
    pub fn from(row: &Vec<Field>) -> (tileset: Option<InvariantTileset>)
        ensures
            match tileset {
                Some(tileset) => tileset_of(pairs(row@)) == Some(tileset@),
                None => tileset_of(pairs(row@)) is None,
            },
    {
        let Some(name) = field(row, "name") else {
            return None;
        };
        let dictionary = field(row, "dictionary");
        let Some(file) = field(row, "file") else {
            return None;
        };
        let Some(weight) = field(row, "weight") else {
            return None;
        };
        let Some(weight) = parse_i32(&chars_of(weight.as_str())) else {
            return None;
        };
        let Some(width) = field(row, "width") else {
            return None;
        };
        let Some(height) = field(row, "height") else {
            return None;
        };
        let tile_size = match (
            parse_i32(&chars_of(width.as_str())),
            parse_i32(&chars_of(height.as_str())),
        ) {
            (Some(w), Some(h)) => Some((w, h)),
            _ => None,
        };
        Some(InvariantTileset { name, file, weight, tile_size, dictionary })
    }
}

/// A tileset put together from its rows: its picture files by weight, the
/// size of its tiles and the file of its dictionary.
#[derive(Debug)]
pub struct TilesetPlan {
    pub name: String,
    pub variants: Vec<(i32, String)>,
    pub tile_size: (i32, i32),
    pub dictionary: String,
}

/// The mathematical content of a [`TilesetPlan`].
pub struct TilesetGroup {
    pub name: Seq<char>,
    pub variants: Seq<(i32, Seq<char>)>,
    pub tile_size: (i32, i32),
    pub dictionary: Seq<char>,
}

/// The mathematical content of a list of picture files by weight.
pub open spec fn files(variants: Seq<(i32, String)>) -> Seq<(i32, Seq<char>)> {
    variants.map_values(|variant: (i32, String)| (variant.0, variant.1@))
}

impl View for TilesetPlan {
    type V = TilesetGroup;

    open spec fn view(&self) -> TilesetGroup {
        TilesetGroup {
            name: self.name@,
            variants: files(self.variants@),
            tile_size: self.tile_size,
            dictionary: self.dictionary@,
        }
    }
}

/// The mathematical content of a list of rows of tilesets.
pub open spec fn sheets(rows: Seq<InvariantTileset>) -> Seq<TilesetSheet> {
    rows.map_values(|row: InvariantTileset| row@)
}

/// The mathematical content of a list of plans.
pub open spec fn groups(plans: Seq<TilesetPlan>) -> Seq<TilesetGroup> {
    plans.map_values(|plan: TilesetPlan| plan@)
}

/// The size of the tiles of a tileset: that of the last row of the name
/// that has a size.
pub open spec fn last_size(rows: Seq<TilesetSheet>, name: Seq<char>) -> Option<(i32, i32)>
    decreases rows.len(),
{
    if rows.len() == 0 {
        None
    } else if rows.last().name == name && rows.last().tile_size is Some {
        rows.last().tile_size
    } else {
        last_size(rows.drop_last(), name)
    }
}

/// The row names a dictionary: it has one, and not the empty text.
pub open spec fn names_dictionary(row: TilesetSheet) -> bool {
    row.dictionary matches Some(file) && file.len() > 0
}

/// The dictionary of a tileset: that of the last row of the name that
/// names one.
pub open spec fn last_dictionary(rows: Seq<TilesetSheet>, name: Seq<char>) -> Option<Seq<char>>
    decreases rows.len(),
{
    if rows.len() == 0 {
        None
    } else if rows.last().name == name && names_dictionary(rows.last()) {
        rows.last().dictionary
    } else {
        last_dictionary(rows.drop_last(), name)
    }
}

/// The rows in runs: rows that follow each other under one name make one
/// run, with the name and each row's weight and file.
pub open spec fn runs(rows: Seq<TilesetSheet>) -> Seq<(Seq<char>, Seq<(i32, Seq<char>)>)>
    decreases rows.len(),
{
    if rows.len() == 0 {
        Seq::empty()
    } else {
        let before = runs(rows.drop_last());
        let row = rows.last();
        if before.len() > 0 && before.last().0 == row.name {
            before.drop_last().push((row.name, before.last().1.push((row.weight, row.file))))
        } else {
            before.push((row.name, seq![(row.weight, row.file)]))
        }
    }
}

/// The plan for one run: its files, with the size and the dictionary that
/// the table as a whole gives its name; none where the table gives no size
/// or no dictionary.
pub open spec fn plan_of(rows: Seq<TilesetSheet>, run: (Seq<char>, Seq<(i32, Seq<char>)>)) -> Option<
    TilesetGroup,
> {
    match (last_size(rows, run.0), last_dictionary(rows, run.0)) {
        (Some(tile_size), Some(dictionary)) => Some(
            TilesetGroup { name: run.0, variants: run.1, tile_size, dictionary },
        ),
        _ => None,
    }
}

/// The plans for the first `n` runs, in order; none if one of them has
/// none.
pub open spec fn plans_upto(
    rows: Seq<TilesetSheet>,
    n: int,
) -> Option<Seq<TilesetGroup>>
    decreases n,
{
    if n <= 0 {
        Some(Seq::empty())
    } else {
        match (plans_upto(rows, n - 1), plan_of(rows, runs(rows)[n - 1])) {
            (Some(before), Some(plan)) => Some(before.push(plan)),
            _ => None,
        }
    }
}

/// The plans for all runs of a table, in order; none if one run has none.
pub open spec fn plans_of(rows: Seq<TilesetSheet>) -> Option<Seq<TilesetGroup>> {
    plans_upto(rows, runs(rows).len() as int)
}

/// The size of the tiles of a tileset, if the table gives one.
fn size_for(rows: &Vec<InvariantTileset>, name: &String) -> (size: Option<(i32, i32)>)
    ensures
        size == last_size(sheets(rows@), name@),
{
    let mut upto: usize = rows.len();
    assert(sheets(rows@).take(upto as int) =~= sheets(rows@));
    while upto > 0
        invariant
            upto <= rows.len(),
            last_size(sheets(rows@), name@) == last_size(sheets(rows@).take(upto as int), name@),
        decreases upto,
    {
        assert(sheets(rows@).take(upto as int).drop_last() =~= sheets(rows@).take(upto - 1));
        if rows[upto - 1].name == *name {
            if let Some(size) = rows[upto - 1].tile_size {
                return Some(size);
            }
        }
        upto -= 1;
    }
    None
}

/// The dictionary of a tileset, if the table names one.
fn dictionary_for(rows: &Vec<InvariantTileset>, name: &String) -> (file: Option<String>)
    ensures
        text_of(file) == last_dictionary(sheets(rows@), name@),
{
    let mut upto: usize = rows.len();
    assert(sheets(rows@).take(upto as int) =~= sheets(rows@));
    while upto > 0
        invariant
            upto <= rows.len(),
            last_dictionary(sheets(rows@), name@) == last_dictionary(
                sheets(rows@).take(upto as int),
                name@,
            ),
        decreases upto,
    {
        assert(sheets(rows@).take(upto as int).drop_last() =~= sheets(rows@).take(upto - 1));
        if rows[upto - 1].name == *name {
            if let Some(file) = &rows[upto - 1].dictionary {
                if file.as_str().unicode_len() > 0 {
                    return Some(file.clone());
                }
            }
        }
        upto -= 1;
    }
    None
}

/// The mathematical content of a list of runs.
pub open spec fn run_views(runs: Seq<(String, Vec<(i32, String)>)>) -> Seq<
    (Seq<char>, Seq<(i32, Seq<char>)>),
> {
    runs.map_values(|run: (String, Vec<(i32, String)>)| (run.0@, files(run.1@)))
}

/// The rows in runs of one name.
fn runs_in(rows: &Vec<InvariantTileset>) -> (found: Vec<(String, Vec<(i32, String)>)>)
    ensures
        run_views(found@) == runs(sheets(rows@)),
{
    let mut found: Vec<(String, Vec<(i32, String)>)> = Vec::new();
    let mut i: usize = 0;
    assert(sheets(rows@).take(0) =~= Seq::<TilesetSheet>::empty());
    assert(run_views(found@) =~= Seq::<(Seq<char>, Seq<(i32, Seq<char>)>)>::empty());
    while i < rows.len()
        invariant
            i <= rows.len(),
            run_views(found@) == runs(sheets(rows@).take(i as int)),
        decreases rows.len() - i,
    {
        let ghost before = run_views(found@);
        let row = &rows[i];
        assert(sheets(rows@).take(i + 1).drop_last() =~= sheets(rows@).take(i as int));
        assert(sheets(rows@).take(i + 1).last() == row@);
        let same: bool = found.len() > 0 && found[found.len() - 1].0 == row.name;
        if same {
            let (name, mut variants) = match found.pop() {
                Some(run) => run,
                None => (String::new(), Vec::new()),
            };
            let ghost kept = files(variants@);
            variants.push((row.weight, row.file.clone()));
            assert(files(variants@) =~= kept.push((row.weight, row.file@)));
            found.push((name, variants));
            assert(run_views(found@) =~= before.drop_last().push(
                (row.name@, before.last().1.push((row.weight, row.file@))),
            ));
        } else {
            let mut variants: Vec<(i32, String)> = Vec::new();
            variants.push((row.weight, row.file.clone()));
            assert(files(variants@) =~= seq![(row.weight, row.file@)]);
            found.push((row.name.clone(), variants));
            assert(run_views(found@) =~= before.push((row.name@, seq![(row.weight, row.file@)])));
        }
        i += 1;
    }
    assert(sheets(rows@).take(rows.len() as int) =~= sheets(rows@));
    found
}

/// The tilesets that the rows of a table make, one for each run of rows
/// under one name, in the order of the table; none where the table gives
/// one of them no size or no dictionary.
pub fn plans(rows: &Vec<InvariantTileset>) -> (made: Option<Vec<TilesetPlan>>)
    ensures
        match made {
            Some(made) => plans_of(sheets(rows@)) == Some(groups(made@)),
            None => plans_of(sheets(rows@)) is None,
        },
{
    let mut found = runs_in(rows);
    let ghost all = runs(sheets(rows@));
    let mut made: Vec<TilesetPlan> = Vec::new();
    assert(groups(made@) =~= Seq::<TilesetGroup>::empty());
    assert(all.skip(0) =~= all);
    while found.len() > 0
        invariant
            all == runs(sheets(rows@)),
            made.len() + found.len() == all.len(),
            run_views(found@) == all.skip(made.len() as int),
            plans_upto(sheets(rows@), made.len() as int) == Some(groups(made@)),
        decreases found.len(),
    {
        let ghost done = groups(made@);
        let ghost left = run_views(found@);
        let ghost had = found@;
        let (name, variants) = found.remove(0);
        assert forall|k: int| 0 <= k < found.len() implies run_views(found@)[k] == left[k + 1] by {
            assert(found@[k] == had[k + 1]);
        }
        assert(run_views(found@) =~= left.skip(1));
        assert(left.skip(1) =~= all.skip(made.len() + 1));
        assert((name@, files(variants@)) == left[0]);
        assert(left[0] == all[made.len() as int]);
        match (size_for(rows, &name), dictionary_for(rows, &name)) {
            (Some(tile_size), Some(dictionary)) => {
                let plan = TilesetPlan { name, variants, tile_size, dictionary };
                assert(plan_of(sheets(rows@), all[made.len() as int]) == Some(plan@));
                made.push(plan);
                assert(groups(made@) =~= done.push(made@[made.len() - 1]@));
            },
            _ => {
                proof {
                    lemma_no_plan(sheets(rows@), made.len() as int, all.len() as int);
                }
                return None;
            },
        }
    }
    Some(made)
}

/// Where one run has no plan, the table has none.
proof fn lemma_no_plan(rows: Seq<TilesetSheet>, at: int, n: int)
    requires
        0 <= at < n,
        plan_of(rows, runs(rows)[at]) is None,
    ensures
        plans_upto(rows, n) is None,
    decreases n,
{
    if at < n - 1 {
        lemma_no_plan(rows, at, n - 1);
    }
}

} // verus!
