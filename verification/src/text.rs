//! The text formatter: a grid of characters as one string, every character
//! written twice, since a character cell is about twice as high as it is
//! wide, and the rows joined by carriage return and line feed.

use vstd::prelude::*;

verus! {

/// The views of a list of texts.
pub open spec fn texts(lines: Seq<Vec<char>>) -> Seq<Seq<char>> {
    lines.map_values(|line: Vec<char>| line@)
}

/// A line with every character written twice.
pub open spec fn doubled(line: Seq<char>) -> Seq<char> {
    Seq::new(2 * line.len(), |i: int| line[i / 2])
}

/// What separates two rows.
pub open spec fn line_break() -> Seq<char> {
    seq!['\r', '\n']
}

/// The rows of a grid, doubled and joined by line breaks. Nothing follows
/// the last row.
pub open spec fn format_lines(grid: Seq<Seq<char>>) -> Seq<char>
    decreases grid.len(),
{
    if grid.len() == 0 {
        Seq::<char>::empty()
    } else if grid.len() == 1 {
        doubled(grid[0])
    } else {
        format_lines(grid.drop_last()) + line_break() + doubled(grid.last())
    }
}

/// Trusted wrapper of `String::push`: the character is appended.
#[verifier::external_body]
fn push_char(text: &mut String, c: char)
    ensures
        final(text)@ == old(text)@.push(c),
{
    text.push(c)
}

/// Serializes a grid of characters.
pub fn format_grid(grid: &Vec<Vec<char>>) -> (text: String)
    ensures
        text@ == format_lines(texts(grid@)),
{
    let mut text = String::new();
    let ghost lines = texts(grid@);
    let mut y: usize = 0;
    assert(lines.take(0) =~= Seq::<Seq<char>>::empty());
    while y < grid.len()
        invariant
            y <= grid.len(),
            lines == texts(grid@),
            text@ == format_lines(lines.take(y as int)),
        decreases grid.len() - y,
    {
        let ghost done = text@;
        if y > 0 {
            push_char(&mut text, '\r');
            push_char(&mut text, '\n');
            assert(text@ =~= done + line_break());
        }
        let ghost start = text@;
        let line = &grid[y];
        assert(lines[y as int] == line@);
        let mut x: usize = 0;
        assert(start + doubled(line@.take(0)) =~= start);
        while x < line.len()
            invariant
                x <= line.len(),
                text@ == start + doubled(line@.take(x as int)),
            decreases line.len() - x,
        {
            let c: char = line[x];
            let ghost before = text@;
            push_char(&mut text, c);
            push_char(&mut text, c);
            assert(doubled(line@.take(x + 1)) =~= doubled(line@.take(x as int)).push(c).push(c));
            assert(text@ =~= start + doubled(line@.take(x + 1)));
            x = x + 1;
        }
        assert(line@.take(x as int) =~= line@);
        proof {
            let grown = lines.take(y + 1);
            assert(grown.drop_last() =~= lines.take(y as int));
            assert(grown.last() == line@);
            if y == 0 {
                assert(start =~= Seq::<char>::empty());
                assert(text@ =~= doubled(line@));
            }
        }
        y = y + 1;
    }
    assert(lines.take(y as int) =~= lines);
    text
}

} // verus!
