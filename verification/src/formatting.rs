//! How the spread of the rigid body motions is written out: a table to the
//! mirror, a line to the segment, with the translations and the rotations of
//! the segment.

use crate::layout::{MIRROR_DOF, N_DOF, SEGMENTS, SEGMENT_AXES, SEGMENT_DOF};
use vstd::prelude::*;
use vstd::string::*;

verus! {

/// How the rigid body motions are written out.
#[derive(Debug, Clone, Copy, PartialEq, Eq, Structural)]
pub enum Formatting {
    /// As lists of numbers.
    AdHoc,
    /// As the rows of a LaTeX table.
    Latex,
}

/// The numeral of `n`, a number from 1 to 7.
pub open spec fn spec_numeral(n: int) -> Seq<char> {
    if n == 1 {
        "1"@
    } else if n == 2 {
        "2"@
    } else if n == 3 {
        "3"@
    } else if n == 4 {
        "4"@
    } else if n == 5 {
        "5"@
    } else if n == 6 {
        "6"@
    } else {
        "7"@
    }
}

/// The numeral of `n`, a number from 1 to 7.
fn numeral(n: usize) -> (text: &'static str)
    requires
        1 <= n <= 7,
    ensures
        text@ == spec_numeral(n as int),
{
    if n == 1 {
        "1"
    } else if n == 2 {
        "2"
    } else if n == 3 {
        "3"
    } else if n == 4 {
        "4"
    } else if n == 5 {
        "5"
    } else if n == 6 {
        "6"
    } else {
        "7"
    }
}

/// The cells `first`, `first + 1` and `first + 2`, with `separator` between
/// them.
pub open spec fn spec_three(cells: Seq<String>, first: int, separator: Seq<char>) -> Seq<char> {
    cells[first]@ + separator + cells[first + 1]@ + separator + cells[first + 2]@
}

/// The line of segment `segment`, from 0 to 6, of the mirror whose cells start
/// at `offset`: the number of the segment, its three translations and its
/// three rotations.
pub open spec fn spec_line(
    format: Formatting,
    cells: Seq<String>,
    offset: int,
    segment: int,
) -> Seq<char> {
    let first = offset + 6 * segment;
    match format {
        Formatting::AdHoc => " - #"@ + spec_numeral(segment + 1) + " ["@ + spec_three(
            cells,
            first,
            ", "@,
        ) + "] ["@ + spec_three(cells, first + 3, ", "@) + "]\n"@,
        Formatting::Latex => " "@ + spec_numeral(segment + 1) + " &  "@ + spec_three(
            cells,
            first,
            " & "@,
        ) + " & "@ + spec_three(cells, first + 3, " & "@) + " \\\\\n"@,
    }
}

/// What stands above the lines of mirror `mirror`, 1 or 2.
pub open spec fn spec_head(format: Formatting, mirror: int) -> Seq<char> {
    match format {
        Formatting::AdHoc => "M"@ + spec_numeral(mirror) + " RBM [Txyz[nm]]  [Rxyz[mas]] STD :\n"@,
        Formatting::Latex => "\\begin{tabular}{ccccccc}\nM"@ + spec_numeral(mirror)
            + " & \\multicolumn{3}{c}{Txyz[nm]} & \\multicolumn{3}{c}{Rxyz[mas]} \\\\\n"@,
    }
}

/// What stands below the lines of a mirror.
pub open spec fn spec_foot(format: Formatting) -> Seq<char> {
    match format {
        Formatting::AdHoc => Seq::empty(),
        Formatting::Latex => "\\end{tabular}\n"@,
    }
}

/// The lines of the first `n` segments of the mirror whose cells start at
/// `offset`.
pub open spec fn spec_lines(format: Formatting, cells: Seq<String>, offset: int, n: int) -> Seq<
    char,
>
    decreases n,
{
    if n <= 0 {
        Seq::empty()
    } else {
        spec_lines(format, cells, offset, n - 1) + spec_line(format, cells, offset, n - 1)
    }
}

/// The table of mirror `mirror`, 1 or 2: its head, the lines of its 7 segments
/// and its foot.
pub open spec fn spec_mirror_table(format: Formatting, cells: Seq<String>, mirror: int) -> Seq<
    char,
> {
    spec_head(format, mirror) + spec_lines(format, cells, 42 * (mirror - 1), 7) + spec_foot(
        format,
    )
}

/// The table of M1, then that of M2.
pub open spec fn spec_table(format: Formatting, cells: Seq<String>) -> Seq<char> {
    spec_mirror_table(format, cells, 1) + spec_mirror_table(format, cells, 2)
}

impl Formatting {
    /// Appends the cells `first`, `first + 1` and `first + 2` to `text`, with
    /// `separator` between them.
    fn three(text: &mut String, cells: &[String], first: usize, separator: &str)
        requires
            first + 3 <= 84,
            cells@.len() == 84,
        ensures
            final(text)@ == old(text)@ + spec_three(cells@, first as int, separator@),
    {
        text.append(cells[first].as_str());
        text.append(separator);
        text.append(cells[first + 1].as_str());
        text.append(separator);
        text.append(cells[first + 2].as_str());
    }

    /// Appends the line of segment `segment` of the mirror whose cells start
    /// at `offset` to `text`.
    fn line(self, text: &mut String, cells: &[String], offset: usize, segment: usize)
        requires
            segment < 7,
            offset <= 42,
            cells@.len() == 84,
        ensures
            final(text)@ == old(text)@ + spec_line(self, cells@, offset as int, segment as int),
    {
        let first = offset + SEGMENT_DOF * segment;
        match self {
            Formatting::AdHoc => {
                text.append(" - #");
                text.append(numeral(segment + 1));
                text.append(" [");
                Self::three(text, cells, first, ", ");
                text.append("] [");
                Self::three(text, cells, first + SEGMENT_AXES, ", ");
                text.append("]\n");
            },
            Formatting::Latex => {
                text.append(" ");
                text.append(numeral(segment + 1));
                text.append(" &  ");
                Self::three(text, cells, first, " & ");
                text.append(" & ");
                Self::three(text, cells, first + SEGMENT_AXES, " & ");
                text.append(" \\\\\n");
            },
        }
    }

    /// Appends the table of mirror `mirror`, 1 or 2, to `text`.
    fn mirror_table(self, text: &mut String, cells: &[String], mirror: usize)
        requires
            1 <= mirror <= 2,
            cells@.len() == 84,
        ensures
            final(text)@ == old(text)@ + spec_mirror_table(self, cells@, mirror as int),
    {
        let offset = MIRROR_DOF * (mirror - 1);
        match self {
            Formatting::AdHoc => {
                text.append("M");
                text.append(numeral(mirror));
                text.append(" RBM [Txyz[nm]]  [Rxyz[mas]] STD :\n");
            },
            Formatting::Latex => {
                text.append("\\begin{tabular}{ccccccc}\nM");
                text.append(numeral(mirror));
                text.append(
                    " & \\multicolumn{3}{c}{Txyz[nm]} & \\multicolumn{3}{c}{Rxyz[mas]} \\\\\n",
                );
            },
        }
        let mut segment: usize = 0;
        while segment < SEGMENTS
            invariant
                segment <= 7,
                offset == 42 * (mirror - 1),
                1 <= mirror <= 2,
                cells@.len() == 84,
                text@ == old(text)@ + spec_head(self, mirror as int) + spec_lines(
                    self,
                    cells@,
                    offset as int,
                    segment as int,
                ),
            decreases 7 - segment,
        {
            self.line(text, cells, offset, segment);
            segment = segment + 1;
        }
        match self {
            Formatting::AdHoc => {},
            Formatting::Latex => {
                text.append("\\end{tabular}\n");
            },
        }
    }

    /// The spread of the rigid body motions, written out: the table of M1, then
    /// that of M2, each with a line to the segment.
    ///
    /// `cells` holds the 84 numbers of the tables as they are to be written,
    /// in the order of the rows of a motion sample. None where it holds
    /// another number of them.
    pub fn table(self, cells: &[String]) -> (text: Option<String>)
        ensures
            match text {
                Some(t) => cells@.len() == 84 && t@ == spec_table(self, cells@),
                None => cells@.len() != 84,
            },
    {
        if cells.len() != N_DOF {
            return None;
        }
        let mut text = String::new();
        self.mirror_table(&mut text, cells, 1);
        self.mirror_table(&mut text, cells, 2);
        Some(text)
    }
}

} // verus!
