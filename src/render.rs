use crate::grid::{Grid, GridView};
use vstd::prelude::*;

verus! {

/// The character for a cell: `#` for wall, `.` for floor.
pub open spec fn cell_char(wall: bool) -> char {
    if wall {
        '#'
    } else {
        '.'
    }
}

/// Text of a grid row: its cells framed by wall.
pub open spec fn row_text(g: GridView, r: int) -> Seq<char> {
    seq!['#'] + Seq::new(g.width, |c: int| cell_char(g.wall_at(r, c))) + seq!['#']
}

/// The first `n` rows, each ending in a line break.
pub open spec fn rows_text(g: GridView, n: nat) -> Seq<char>
    decreases n,
{
    if n == 0 {
        seq![]
    } else {
        rows_text(g, (n - 1) as nat) + row_text(g, n - 1) + seq!['\n']
    }
}

/// A full line of wall, as wide as the framed grid.
pub open spec fn border_text(w: nat) -> Seq<char> {
    Seq::new(w + 2, |i: int| '#')
}

/// The grid drawn with `#` for wall and `.` for floor, inside a frame of wall.
pub open spec fn grid_text(g: GridView) -> Seq<char> {
    border_text(g.width) + seq!['\n'] + rows_text(g, g.height) + border_text(g.width)
}

/// Relies on `String`'s `FromIterator<char>`: the characters in order.
#[verifier::external_body]
fn string_from_chars(chars: Vec<char>) -> (r: String)
    ensures
        r@ == chars@,
{
    chars.into_iter().collect()
}

/// Appends a full line of wall for a grid `width` cells wide.
fn push_border(out: &mut Vec<char>, width: usize)
    ensures
        final(out)@ == old(out)@ + border_text(width as nat),
{
    out.push('#');
    let mut j: usize = 0;
    while j < width
        invariant
            j <= width,
            out@ == old(out)@ + Seq::new(j as nat + 1, |i: int| '#'),
        decreases width - j,
    {
        out.push('#');
        j += 1;
        assert(out@ =~= old(out)@ + Seq::new(j as nat + 1, |i: int| '#'));
    }
    out.push('#');
    assert(out@ =~= old(out)@ + border_text(width as nat));
}

impl Grid {
    /// Draws the grid with `#` for wall and `.` for floor, framed by a line
    /// of wall on every side, rows separated by line breaks.
    pub fn render(&self) -> (r: String)
        requires
            self.wf(),
        ensures
            r@ == grid_text(self@),
    {
        let ghost g = self@;
        let mut out: Vec<char> = Vec::new();
        push_border(&mut out, self.width);
        out.push('\n');
        let ghost head = out@;
        assert(head == border_text(g.width) + seq!['\n']);
        let mut i: usize = 0;
        while i < self.height
            invariant
                self.wf(),
                g == self@,
                head == border_text(g.width) + seq!['\n'],
                i <= self.height,
                out@ == head + rows_text(g, i as nat),
            decreases self.height - i,
        {
            let ghost before = out@;
            out.push('#');
            let mut j: usize = 0;
            while j < self.width
                invariant
                    self.wf(),
                    g == self@,
                    i < self.height,
                    j <= self.width,
                    out@ == before + seq!['#'] + Seq::new(
                        j as nat,
                        |c: int| cell_char(g.wall_at(i as int, c)),
                    ),
                decreases self.width - j,
            {
                let c = if self.get(i, j) {
                    '#'
                } else {
                    '.'
                };
                out.push(c);
                j += 1;
                assert(out@ =~= before + seq!['#'] + Seq::new(
                    j as nat,
                    |c: int| cell_char(g.wall_at(i as int, c)),
                ));
            }
            out.push('#');
            out.push('\n');
            assert(out@ =~= head + rows_text(g, i as nat + 1));
            i += 1;
        }
        push_border(&mut out, self.width);
        assert(out@ =~= grid_text(g));
        string_from_chars(out)
    }
}

} // verus!
