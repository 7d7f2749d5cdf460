//! Cutting printed text into words.
//!
//! A printed text mixes plain text with the names of glyphs. A slash opens a
//! name and the next slash closes it: `C:>/block/ed` is the text `C:>`, the
//! glyph named `block`, and the text `ed`. Two slashes in a row stand for
//! one slash of plain text.

use vstd::prelude::*;

verus! {

/// A piece of a printed text: plain text, or the name of a glyph.
#[derive(Debug)]
pub enum Token {
    Token(Vec<char>),
    Var(Vec<char>),
}

/// The mathematical content of a [`Token`].
pub enum Piece {
    Text(Seq<char>),
    Var(Seq<char>),
}

impl View for Token {
    type V = Piece;

    open spec fn view(&self) -> Piece {
        match self {
            Token::Token(text) => Piece::Text(text@),
            Token::Var(name) => Piece::Var(name@),
        }
    }
}

/// Where a reader stands in a printed text: the pieces that are complete,
/// the characters of the piece it is in, and whether that piece is a name.
pub struct Scan {
    pub done: Seq<Piece>,
    pub open: Seq<char>,
    pub in_name: bool,
}

impl Scan {
    /// The reader before the first character: in plain text, with nothing
    /// read.
    pub open spec fn start() -> Scan {
        Scan { done: Seq::empty(), open: Seq::empty(), in_name: false }
    }

    /// The piece that a slash closes. In plain text it is the text read, if
    /// there is any. In a name it is the name, or one slash of plain text
    /// where the name is empty.
    pub open spec fn closed(self) -> Seq<Piece> {
        if self.in_name {
            if self.open.len() == 0 {
                seq![Piece::Text(seq!['/'])]
            } else {
                seq![Piece::Var(self.open)]
            }
        } else {
            if self.open.len() == 0 {
                Seq::empty()
            } else {
                seq![Piece::Text(self.open)]
            }
        }
    }

    /// The reader after one more character. A slash closes the piece and
    /// switches between plain text and name; any other character joins the
    /// piece.
    pub open spec fn feed(self, c: char) -> Scan {
        if c == '/' {
            Scan { done: self.done + self.closed(), open: Seq::empty(), in_name: !self.in_name }
        } else {
            Scan { open: self.open.push(c), ..self }
        }
    }

    /// The pieces once the text has ended. What is left of the last piece
    /// counts if it is not empty, as a name if a slash had opened one.
    pub open spec fn finish(self) -> Seq<Piece> {
        if self.open.len() == 0 {
            self.done
        } else if self.in_name {
            self.done.push(Piece::Var(self.open))
        } else {
            self.done.push(Piece::Text(self.open))
        }
    }
}

/// The reader after the whole of `text`.
pub open spec fn scan(text: Seq<char>) -> Scan
    decreases text.len(),
{
    if text.len() == 0 {
        Scan::start()
    } else {
        scan(text.drop_last()).feed(text.last())
    }
}

/// The pieces of a printed text, in order.
pub open spec fn pieces(text: Seq<char>) -> Seq<Piece> {
    scan(text).finish()
}

/// The views of a list of tokens.
pub open spec fn views(tokens: Seq<Token>) -> Seq<Piece> {
    tokens.map_values(|token: Token| token@)
}

/// Cuts a printed text into its pieces.
pub fn tokenize(text: &Vec<char>) -> (tokens: Vec<Token>)
    ensures
        views(tokens@) == pieces(text@),
{
    let mut tokens: Vec<Token> = Vec::new();
    let mut open: Vec<char> = Vec::new();
    let mut in_name: bool = false;
    let mut i: usize = 0;
    assert(text@.take(0) =~= Seq::<char>::empty());
    assert(views(tokens@) =~= Seq::<Piece>::empty());
    while i < text.len()
        invariant
            i <= text.len(),
            scan(text@.take(i as int)) == (Scan { done: views(tokens@), open: open@, in_name }),
        decreases text.len() - i,
    {
        let ghost reader = scan(text@.take(i as int));
        let c: char = text[i];
        assert(text@.take(i + 1).drop_last() =~= text@.take(i as int));
        if c == '/' {
            if in_name {
                if open.len() == 0 {
                    let mut slash: Vec<char> = Vec::new();
                    slash.push('/');
                    assert(slash@ =~= seq!['/']);
                    tokens.push(Token::Token(slash));
                } else {
                    tokens.push(Token::Var(open));
                }
            } else {
                if open.len() > 0 {
                    tokens.push(Token::Token(open));
                }
            }
            assert(views(tokens@) =~= reader.done + reader.closed());
            open = Vec::new();
            in_name = !in_name;
        } else {
            open.push(c);
        }
        i += 1;
    }
    assert(text@.take(text.len() as int) =~= text@);
    let ghost before = views(tokens@);
    if open.len() > 0 {
        if in_name {
            tokens.push(Token::Var(open));
            assert(views(tokens@) =~= before.push(Piece::Var(scan(text@).open)));
        } else {
            tokens.push(Token::Token(open));
            assert(views(tokens@) =~= before.push(Piece::Text(scan(text@).open)));
        }
    }
    tokens
}

/// The glyph names that a piece puts on a grid, one per cell: plain text
/// takes one cell for each character, under the character's own name; the
/// name of a glyph takes one cell.
pub open spec fn piece_labels(piece: Piece) -> Seq<Seq<char>> {
    match piece {
        Piece::Text(text) => Seq::new(text.len(), |i: int| seq![text[i]]),
        Piece::Var(name) => seq![name],
    }
}

/// The glyph names that a list of pieces puts on a grid, cell after cell.
pub open spec fn labels(pieces: Seq<Piece>) -> Seq<Seq<char>>
    decreases pieces.len(),
{
    if pieces.len() == 0 {
        Seq::empty()
    } else {
        labels(pieces.drop_last()) + piece_labels(pieces.last())
    }
}

/// The texts of a list of character vectors.
pub open spec fn texts(cells: Seq<Vec<char>>) -> Seq<Seq<char>> {
    cells.map_values(|cell: Vec<char>| cell@)
}

/// A piece can be printed: plain text cell by cell only where each of its
/// characters is ASCII, one byte long; the name of a glyph always.
pub open spec fn printable(piece: Piece) -> bool {
    piece matches Piece::Text(text) ==> forall|k: int|
        0 <= k < text.len() ==> is_ascii(#[trigger] text[k])
}

/// The character is one of the 128 ASCII characters.
pub open spec fn is_ascii(c: char) -> bool {
    c as u32 <= 127
}

/// Every piece of a list can be printed.
pub open spec fn all_printable(pieces: Seq<Piece>) -> bool {
    forall|i: int| 0 <= i < pieces.len() ==> printable(#[trigger] pieces[i])
}

/// The glyph names that one piece puts on a grid, cell after cell; nothing
/// where the piece cannot be printed.
pub fn token_labels(token: &Token) -> (cells: Option<Vec<Vec<char>>>)
    ensures
        match cells {
            Some(cells) => printable(token@) && texts(cells@) == piece_labels(token@),
            None => !printable(token@),
        },
{
    let mut cells: Vec<Vec<char>> = Vec::new();
    match token {
        Token::Token(plain) => {
            let mut at: usize = 0;
            assert(texts(cells@) =~= Seq::new(0, |k: int| seq![plain@[k]]));
            while at < plain.len()
                invariant
                    at <= plain.len(),
                    token@ == Piece::Text(plain@),
                    texts(cells@) == Seq::new(at as nat, |k: int| seq![plain@[k]]),
                    forall|k: int| 0 <= k < at ==> is_ascii(#[trigger] plain@[k]),
                decreases plain.len() - at,
            {
                if plain[at] as u32 > 127 {
                    assert(!is_ascii(token@->Text_0[at as int]));
                    return None;
                }
                let ghost filled = texts(cells@);
                let mut cell: Vec<char> = Vec::new();
                cell.push(plain[at]);
                assert(cell@ =~= seq![plain@[at as int]]);
                cells.push(cell);
                at += 1;
                assert(texts(cells@) =~= filled.push(seq![plain@[at - 1]]));
                assert(filled.push(seq![plain@[at - 1]]) =~= Seq::new(
                    at as nat,
                    |k: int| seq![plain@[k]],
                ));
            }
        },
        Token::Var(name) => {
            let mut cell: Vec<char> = Vec::new();
            let mut at: usize = 0;
            while at < name.len()
                invariant
                    at <= name.len(),
                    cell@ == name@.take(at as int),
                decreases name.len() - at,
            {
                cell.push(name[at]);
                at += 1;
                assert(name@.take(at as int) =~= name@.take(at - 1).push(name@[at - 1]));
            }
            assert(name@.take(name.len() as int) =~= name@);
            cells.push(cell);
            assert(texts(cells@) =~= seq![name@]);
        },
    }
    Some(cells)
}

/// The glyph names that a printed text puts on a grid, cell after cell from
/// the place where printing starts; nothing where a piece of the text cannot
/// be printed.
pub fn print_labels(text: &Vec<char>) -> (cells: Option<Vec<Vec<char>>>)
    ensures
        match cells {
            Some(cells) => all_printable(pieces(text@)) && texts(cells@) == labels(pieces(text@)),
            None => !all_printable(pieces(text@)),
        },
{
    let tokens = tokenize(text);
    let mut cells: Vec<Vec<char>> = Vec::new();
    let mut i: usize = 0;
    assert(views(tokens@).take(0) =~= Seq::<Piece>::empty());
    assert(texts(cells@) =~= Seq::<Seq<char>>::empty());
    while i < tokens.len()
        invariant
            i <= tokens.len(),
            views(tokens@) == pieces(text@),
            texts(cells@) == labels(views(tokens@).take(i as int)),
            all_printable(views(tokens@).take(i as int)),
        decreases tokens.len() - i,
    {
        let ghost before = texts(cells@);
        let ghost seen = views(tokens@).take(i as int);
        assert(views(tokens@).take(i + 1).drop_last() =~= seen);
        match token_labels(&tokens[i]) {
            Some(mut more) => {
                let ghost added = texts(more@);
                cells.append(&mut more);
                assert(texts(cells@) =~= before + added);
            },
            None => {
                assert(!printable(views(tokens@)[i as int]));
                return None;
            },
        }
        i += 1;
        assert forall|j: int| 0 <= j < i implies printable(
            #[trigger] views(tokens@).take(i as int)[j],
        ) by {
            if j < i - 1 {
                assert(seen[j] == views(tokens@).take(i as int)[j]);
            }
        }
    }
    assert(views(tokens@).take(tokens.len() as int) =~= views(tokens@));
    Some(cells)
}

} // verus!
