//! Patterns for the 5x5 LED matrix.
use vstd::prelude::*;

verus! {

/// Rotates a 5x5 matrix 90 degrees clockwise: row `r`, column `c` moves to
/// row `c`, column `4 - r`.
pub fn rotate_90(matrix: [[u8; 5]; 5]) -> (rotated: [[u8; 5]; 5])
    ensures
        forall|r: int, c: int|
            0 <= r < 5 && 0 <= c < 5 ==> #[trigger] rotated[c][4 - r] == matrix[r][c],
{
    let mut rotated = [[0u8; 5]; 5];
    for row in 0..5usize
        invariant
            forall|r: int, c: int|
                0 <= r < row && 0 <= c < 5 ==> #[trigger] rotated[c][4 - r] == matrix[r][c],
    {
        for col in 0..5usize
            invariant
                0 <= row < 5,
                forall|r: int, c: int|
                    0 <= r < row && 0 <= c < 5 ==> #[trigger] rotated[c][4 - r] == matrix[r][c],
                forall|c: int| 0 <= c < col ==> #[trigger] rotated[c][4 - row] == matrix[row as int][c],
        {
            let mut line = rotated[col];
            line[4 - row] = matrix[row][col];
            rotated[col] = line;
        }
    }
    rotated
}

} // verus!
