//! The board encoder: serializes a sample grid into the fixed ASCII board
//! format. Each cell is rendered as a 4-wide, 2-tall block of characters
//! (`1` for filled, space for empty), the grid is framed by `+`/`-`/`|`
//! borders, and two trailer lines follow the bottom border.

use vstd::prelude::*;

use crate::sampler::SampleGrid;

verus! {

/// ASCII `+`, the border corner character.
pub const CORNER: u8 = 43;

/// ASCII `-`, the border dash character.
pub const DASH: u8 = 45;

/// ASCII `|`, the side border character.
pub const SIDE: u8 = 124;

/// ASCII `1`, the filled-cell character.
pub const FILLED: u8 = 49;

/// ASCII space, the empty-cell character.
pub const EMPTY: u8 = 32;

/// ASCII newline; every line of the board is newline-terminated.
pub const NEWLINE: u8 = 10;


/// The byte that renders one cell: `1` when filled, a space when empty.
pub open spec fn cell_byte(filled: bool) -> u8 {
    if filled {
        FILLED
    } else {
        EMPTY
    }
}

/// A horizontal border line: `+`, then four dashes per cell column, then `+`.
pub open spec fn border_line(x_steps: int) -> Seq<u8> {
    Seq::new(
        (4 * x_steps + 2) as nat,
        |i: int| if i == 0 || i == 4 * x_steps + 1 {
            CORNER
        } else {
            DASH
        },
    )
}

/// One rendered line of a grid row: `|`, then four copies of each cell's
/// byte, then `|`.
pub open spec fn content_line(row: Seq<bool>) -> Seq<u8> {
    Seq::new(
        (4 * row.len() + 2) as nat,
        |i: int| if i == 0 || i == 4 * row.len() + 1 {
            SIDE
        } else {
            cell_byte(row[(i - 1) / 4])
        },
    )
}

/// The legend trailer line: the ASCII bytes of `1: filled`.
pub open spec fn legend_line() -> Seq<u8> {
    seq![49u8, 58u8, 32u8, 102u8, 105u8, 108u8, 108u8, 101u8, 100u8]
}

/// The attribution trailer line naming the generating tool: the ASCII bytes
/// of `Automatically generated using img2yaya`.
pub open spec fn attribution_line() -> Seq<u8> {
    seq![
        65u8, 117u8, 116u8, 111u8, 109u8, 97u8, 116u8, 105u8, 99u8, 97u8, 108u8, 108u8, 121u8, 32u8,
        103u8, 101u8, 110u8, 101u8, 114u8, 97u8, 116u8, 101u8, 100u8, 32u8, 117u8, 115u8, 105u8, 110u8,
        103u8, 32u8, 105u8, 109u8, 103u8, 50u8, 121u8, 97u8, 121u8, 97u8,
    ]
}

/// The first `2 * k` rendered content lines: each grid row is rendered twice.
pub open spec fn content_lines(grid: Seq<Seq<bool>>, k: int) -> Seq<Seq<u8>> {
    Seq::new((2 * k) as nat, |i: int| content_line(grid[i / 2]))
}

/// Every line of the rendered board, in order and without newlines: the top
/// border, two identical content lines per grid row, the bottom border, and
/// the two trailer lines.
pub open spec fn board_lines(grid: Seq<Seq<bool>>, x_steps: int) -> Seq<Seq<u8>> {
    seq![border_line(x_steps)] + content_lines(grid, grid.len() as int)
        + seq![border_line(x_steps), legend_line(), attribution_line()]
}

/// The lines joined into one byte string, each line newline-terminated.
pub open spec fn join_lines(lines: Seq<Seq<u8>>) -> Seq<u8>
    decreases lines.len(),
{
    if lines.len() == 0 {
        Seq::empty()
    } else {
        join_lines(lines.drop_last()) + lines.last() + seq![NEWLINE]
    }
}

/// The complete rendered board as one byte string.
pub open spec fn board_bytes(grid: Seq<Seq<bool>>, x_steps: int) -> Seq<u8> {
    join_lines(board_lines(grid, x_steps))
}

proof fn lemma_join_lines_push(lines: Seq<Seq<u8>>, line: Seq<u8>)
    ensures
        join_lines(lines.push(line)) == join_lines(lines) + line + seq![NEWLINE],
{
    assert(lines.push(line).drop_last() =~= lines);
    assert(lines.push(line).last() == line);
}

/// Appends one border line, newline-terminated.
fn push_border_line(out: &mut Vec<u8>, x_steps: u32)
    requires
        4 * (x_steps as int) + 2 <= usize::MAX,
    ensures
        final(out)@ == old(out)@ + border_line(x_steps as int) + seq![NEWLINE],
{
    let ghost out0 = out@;
    out.push(CORNER);
    let n: usize = 4 * (x_steps as usize);
    let mut i: usize = 0;
    while i < n
        invariant
            n == 4 * (x_steps as int),
            0 <= i <= n,
            out@ == out0 + seq![CORNER] + Seq::new(i as nat, |j: int| DASH),
        decreases n - i,
    {
        out.push(DASH);
        proof {
            assert(out0 + seq![CORNER] + Seq::new((i + 1) as nat, |j: int| DASH)
                =~= (out0 + seq![CORNER] + Seq::new(i as nat, |j: int| DASH)).push(DASH));
        }
        i = i + 1;
    }
    out.push(CORNER);
    out.push(NEWLINE);
    proof {
        assert(out@ =~= out0 + border_line(x_steps as int) + seq![NEWLINE]);
    }
}

/// Appends one rendered content line for the given row, newline-terminated.
fn push_content_line(out: &mut Vec<u8>, row: &Vec<bool>)
    requires
        4 * row@.len() + 2 <= usize::MAX,
    ensures
        final(out)@ == old(out)@ + content_line(row@) + seq![NEWLINE],
{
    let ghost out0 = out@;
    out.push(SIDE);
    let mut x: usize = 0;
    while x < row.len()
        invariant
            4 * row@.len() + 2 <= usize::MAX,
            0 <= x <= row@.len(),
            out@ == out0 + seq![SIDE] + Seq::new((4 * x) as nat, |i: int| cell_byte(row@[i / 4])),
        decreases row@.len() - x,
    {
        let b: u8 = if row[x] {
            FILLED
        } else {
            EMPTY
        };
        out.push(b);
        out.push(b);
        out.push(b);
        out.push(b);
        proof {
            assert(out0 + seq![SIDE] + Seq::new((4 * (x + 1)) as nat, |i: int| cell_byte(row@[i / 4]))
                =~= (out0 + seq![SIDE] + Seq::new((4 * x) as nat, |i: int| cell_byte(row@[i / 4])))
                    .push(b).push(b).push(b).push(b));
        }
        x = x + 1;
    }
    out.push(SIDE);
    out.push(NEWLINE);
    proof {
        assert(out@ =~= out0 + content_line(row@) + seq![NEWLINE]);
    }
}

/// Appends the two trailer lines, each newline-terminated.
fn push_trailer(out: &mut Vec<u8>)
    ensures
        final(out)@ == old(out)@ + legend_line() + seq![NEWLINE] + attribution_line() + seq![NEWLINE],
{
    let ghost out0 = out@;
    // the legend line, byte by byte
    out.push(49u8);
    out.push(58u8);
    out.push(32u8);
    out.push(102u8);
    out.push(105u8);
    out.push(108u8);
    out.push(108u8);
    out.push(101u8);
    out.push(100u8);
    out.push(NEWLINE);
    // the attribution line, byte by byte
    out.push(65u8);
    out.push(117u8);
    out.push(116u8);
    out.push(111u8);
    out.push(109u8);
    out.push(97u8);
    out.push(116u8);
    out.push(105u8);
    out.push(99u8);
    out.push(97u8);
    out.push(108u8);
    out.push(108u8);
    out.push(121u8);
    out.push(32u8);
    out.push(103u8);
    out.push(101u8);
    out.push(110u8);
    out.push(101u8);
    out.push(114u8);
    out.push(97u8);
    out.push(116u8);
    out.push(101u8);
    out.push(100u8);
    out.push(32u8);
    out.push(117u8);
    out.push(115u8);
    out.push(105u8);
    out.push(110u8);
    out.push(103u8);
    out.push(32u8);
    out.push(105u8);
    out.push(109u8);
    out.push(103u8);
    out.push(50u8);
    out.push(121u8);
    out.push(97u8);
    out.push(121u8);
    out.push(97u8);
    out.push(NEWLINE);
    proof {
        assert(out@ =~= out0 + legend_line() + seq![NEWLINE] + attribution_line() + seq![NEWLINE]);
    }
}

/// Serializes the sample grid into the complete board byte string.
pub fn encode_board(grid: &SampleGrid) -> (out: Vec<u8>)
    requires
        grid.wf(),
        4 * (grid.x_steps as int) + 2 <= usize::MAX,
    ensures
        out@ == board_bytes(grid@, grid.x_steps as int),
{
    let ghost xs = grid.x_steps as int;
    let mut out: Vec<u8> = Vec::new();
    push_border_line(&mut out, grid.x_steps);
    proof {
        assert(seq![border_line(xs)].drop_last() =~= Seq::<Seq<u8>>::empty());
        assert(join_lines(Seq::<Seq<u8>>::empty()) == Seq::<u8>::empty());
        assert(join_lines(seq![border_line(xs)]) =~= out@);
        assert(seq![border_line(xs)] + content_lines(grid@, 0) =~= seq![border_line(xs)]);
    }
    let mut y: usize = 0;
    while y < grid.rows.len()
        invariant
            grid.wf(),
            4 * (grid.x_steps as int) + 2 <= usize::MAX,
            xs == grid.x_steps as int,
            0 <= y <= grid.rows@.len(),
            out@ == join_lines(seq![border_line(xs)] + content_lines(grid@, y as int)),
        decreases grid.rows@.len() - y,
    {
        let ghost lines0 = seq![border_line(xs)] + content_lines(grid@, y as int);
        let ghost line = content_line(grid@[y as int]);
        let row = &grid.rows[y];
        proof {
            assert(grid@[y as int] == row@);
        }
        push_content_line(&mut out, row);
        push_content_line(&mut out, row);
        proof {
            lemma_join_lines_push(lines0, line);
            lemma_join_lines_push(lines0.push(line), line);
            assert(seq![border_line(xs)] + content_lines(grid@, y + 1)
                =~= lines0.push(line).push(line));
        }
        y = y + 1;
    }
    let ghost body = seq![border_line(xs)] + content_lines(grid@, grid@.len() as int);
    push_border_line(&mut out, grid.x_steps);
    push_trailer(&mut out);
    proof {
        lemma_join_lines_push(body, border_line(xs));
        lemma_join_lines_push(body.push(border_line(xs)), legend_line());
        lemma_join_lines_push(body.push(border_line(xs)).push(legend_line()), attribution_line());
        assert(board_lines(grid@, xs)
            =~= body.push(border_line(xs)).push(legend_line()).push(attribution_line()));
        assert(out@ =~= join_lines(board_lines(grid@, xs)));
    }
    out
}

/// Encoding is deterministic: one grid has exactly one rendered board, so
/// encoding the same sample grid twice yields byte-identical output.
pub proof fn lemma_encode_deterministic(g1: Seq<Seq<bool>>, g2: Seq<Seq<bool>>, x_steps: int)
    requires
        g1 == g2,
    ensures
        board_bytes(g1, x_steps) == board_bytes(g2, x_steps),
{
}

/// Format invariants of the rendered board: the line count is the two
/// borders plus two lines per grid row plus the two trailer lines; the first
/// and the bottom border line are border lines of length `4 * x_steps + 2`;
/// every content line between them also has length `4 * x_steps + 2`
/// (including its two `|` characters); and the board ends with the legend
/// and attribution lines.
pub proof fn lemma_board_format(grid: Seq<Seq<bool>>, x_steps: int)
    requires
        x_steps >= 0,
        forall|y: int| 0 <= y < grid.len() ==> (#[trigger] grid[y]).len() == x_steps,
    ensures
        board_lines(grid, x_steps).len() == 2 + 2 * grid.len() + 2,
        board_lines(grid, x_steps)[0] == border_line(x_steps),
        board_lines(grid, x_steps)[1 + 2 * grid.len() as int] == border_line(x_steps),
        border_line(x_steps).len() == 4 * x_steps + 2,
        forall|i: int| 1 <= i < 1 + 2 * grid.len()
            ==> (#[trigger] board_lines(grid, x_steps)[i]).len() == 4 * x_steps + 2,
        board_lines(grid, x_steps)[2 + 2 * grid.len() as int] == legend_line(),
        board_lines(grid, x_steps)[3 + 2 * grid.len() as int] == attribution_line(),
{
    assert forall|i: int| 1 <= i < 1 + 2 * grid.len() implies
        (#[trigger] board_lines(grid, x_steps)[i]).len() == 4 * x_steps + 2 by {
        assert(board_lines(grid, x_steps)[i] == content_line(grid[(i - 1) / 2]));
        assert(0 <= (i - 1) / 2 < grid.len());
    }
}

} // verus!
