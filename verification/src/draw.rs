//! The terminal commands that paint an original data square: a header, the
//! grid, and the legend.

use vstd::prelude::*;
use vstd::string::StringExecFns;
use crate::cell::CellView;
use crate::digest::Rgb;
use crate::legend::{legend_of, record_row, record_rows, Legend};
use crate::ods::{OdsView, ODS};

verus! {

/// One command to the terminal.
#[derive(Debug, PartialEq, Eq)]
pub enum Command {
    /// Back to the terminal's own colours.
    ResetColor,
    /// What follows is printed on this background colour.
    SetBackgroundColor(Rgb),
    /// Prints the text.
    Print(String),
    /// Prints the number in decimal.
    PrintNumber(u64),
    /// Hands everything issued so far to the terminal.
    Flush,
}

/// What a command says.
pub enum CommandView {
    ResetColor,
    SetBackgroundColor(Rgb),
    Print(Seq<char>),
    PrintNumber(u64),
    Flush,
}

impl View for Command {
    type V = CommandView;

    open spec fn view(&self) -> CommandView {
        match self {
            Command::ResetColor => CommandView::ResetColor,
            Command::SetBackgroundColor(rgb) => CommandView::SetBackgroundColor(*rgb),
            Command::Print(text) => CommandView::Print(text@),
            Command::PrintNumber(n) => CommandView::PrintNumber(*n),
            Command::Flush => CommandView::Flush,
        }
    }
}

/// What a sequence of commands says.
pub open spec fn views(commands: Seq<Command>) -> Seq<CommandView> {
    commands.map_values(|command: Command| command@)
}

/// The header: the block height on a line of its own, after an empty line.
pub open spec fn header(height: u64) -> Seq<CommandView> {
    seq![
        CommandView::ResetColor,
        CommandView::Print("\nHeight: "@),
        CommandView::PrintNumber(height),
        CommandView::Print("\n"@),
    ]
}

/// One cell: two blanks on the colour of the cell.
pub open spec fn block(rgb: Rgb) -> Seq<CommandView> {
    seq![
        CommandView::SetBackgroundColor(rgb),
        CommandView::Print("  "@),
        CommandView::ResetColor,
    ]
}

/// The cells of a row from left to right.
pub open spec fn blocks(row: Seq<CellView>) -> Seq<CommandView>
    decreases row.len(),
{
    if row.len() == 0 {
        Seq::empty()
    } else {
        blocks(row.drop_last()) + block(row.last().rgb)
    }
}

/// The rows of a grid from top to bottom, each closed by a line break.
pub open spec fn grid_lines(rows: Seq<Seq<CellView>>) -> Seq<CommandView>
    decreases rows.len(),
{
    if rows.len() == 0 {
        Seq::empty()
    } else {
        grid_lines(rows.drop_last()) + blocks(rows.last()) + seq![CommandView::Print("\n"@)]
    }
}

/// One legend entry: the identifier on its colour, on a line of its own.
pub open spec fn legend_line(entry: CellView) -> Seq<CommandView> {
    seq![
        CommandView::SetBackgroundColor(entry.rgb),
        CommandView::Print(entry.id),
        CommandView::ResetColor,
        CommandView::Print("\n"@),
    ]
}

/// The legend entries in order.
pub open spec fn legend_lines(entries: Seq<CellView>) -> Seq<CommandView>
    decreases entries.len(),
{
    if entries.len() == 0 {
        Seq::empty()
    } else {
        legend_lines(entries.drop_last()) + legend_line(entries.last())
    }
}

/// Everything that is issued for one original data square: the header, the
/// grid, the legend under its heading, and one flush at the very end.
pub open spec fn drawing(ods: OdsView) -> Seq<CommandView> {
    header(ods.height) + grid_lines(ods.cells) + seq![CommandView::Print("\nLegend: \n"@)]
        + legend_lines(legend_of(ods.cells)) + seq![CommandView::Flush]
}

/// Adds one command at the end.
fn issue(commands: &mut Vec<Command>, command: Command)
    ensures
        views(final(commands)@) == views(old(commands)@) + seq![command@],
{
    commands.push(command);
    assert(views(commands@) =~= views(old(commands)@) + seq![command@]);
}

/// Adds the printing of a text at the end.
fn issue_text(commands: &mut Vec<Command>, text: &str)
    ensures
        views(final(commands)@) == views(old(commands)@) + seq![CommandView::Print(text@)],
{
    issue(commands, Command::Print(String::from_str(text)));
}

impl ODS {
    /// The legend of the grid: every identifier once, in the order in which
    /// the identifiers first occur row by row, each with the colour of the
    /// last cell that carries it.
    pub fn legend(&self) -> (legend: Legend)
        ensures
            legend.wf(),
            legend@ == legend_of(self@.cells),
    {
        let ghost rows = self@.cells;
        let mut legend = Legend::new();
        let mut i: usize = 0;
        assert(rows.take(0) =~= Seq::empty());
        while i < self.cells.len()
            invariant
                rows == self@.cells,
                i <= self.cells@.len(),
                legend.wf(),
                legend@ == record_rows(Seq::empty(), rows.take(i as int)),
            decreases self.cells@.len() - i,
        {
            let row = &self.cells[i];
            let ghost before = legend@;
            let mut j: usize = 0;
            assert(rows[i as int].take(0) =~= Seq::empty());
            while j < row.len()
                invariant
                    rows == self@.cells,
                    i < self.cells@.len(),
                    row == &self.cells@[i as int],
                    j <= row@.len(),
                    legend.wf(),
                    legend@ == record_row(before, rows[i as int].take(j as int)),
                decreases row@.len() - j,
            {
                legend.record(&row[j]);
                proof {
                    let upto = rows[i as int].take(j + 1);
                    assert(upto.drop_last() =~= rows[i as int].take(j as int));
                    assert(upto.last() == row@[j as int]@);
                }
                j += 1;
            }
            proof {
                assert(rows[i as int].take(j as int) =~= rows[i as int]);
                let upto = rows.take(i + 1);
                assert(upto.drop_last() =~= rows.take(i as int));
                assert(upto.last() == rows[i as int]);
            }
            i += 1;
        }
        assert(rows.take(i as int) =~= rows);
        legend
    }

    /// The commands that paint this square, in the order in which they are
    /// to be carried out.
    pub fn draw_grid(&self) -> (commands: Vec<Command>)
        ensures
            views(commands@) == drawing(self@),
    {
        let ghost rows = self@.cells;
        let mut commands: Vec<Command> = Vec::new();
        assert(views(commands@) =~= Seq::empty());
        issue(&mut commands, Command::ResetColor);
        issue_text(&mut commands, "\nHeight: ");
        issue(&mut commands, Command::PrintNumber(self.height));
        issue_text(&mut commands, "\n");
        assert(views(commands@) =~= header(self.height));

        let mut i: usize = 0;
        assert(rows.take(0) =~= Seq::empty());
        while i < self.cells.len()
            invariant
                rows == self@.cells,
                i <= self.cells@.len(),
                views(commands@) == header(self.height) + grid_lines(rows.take(i as int)),
            decreases self.cells@.len() - i,
        {
            let row = &self.cells[i];
            let ghost before = views(commands@);
            let mut j: usize = 0;
            assert(rows[i as int].take(0) =~= Seq::empty());
            while j < row.len()
                invariant
                    rows == self@.cells,
                    i < self.cells@.len(),
                    row == &self.cells@[i as int],
                    j <= row@.len(),
                    views(commands@) == before + blocks(rows[i as int].take(j as int)),
                decreases row@.len() - j,
            {
                let ghost so_far = views(commands@);
                issue(&mut commands, Command::SetBackgroundColor(row[j].rgb));
                issue_text(&mut commands, "  ");
                issue(&mut commands, Command::ResetColor);
                proof {
                    let upto = rows[i as int].take(j + 1);
                    assert(upto.drop_last() =~= rows[i as int].take(j as int));
                    assert(upto.last() == row@[j as int]@);
                    assert(views(commands@) =~= so_far + block(row@[j as int]@.rgb));
                    assert(views(commands@) =~= before + blocks(upto));
                }
                j += 1;
            }
            issue_text(&mut commands, "\n");
            proof {
                assert(rows[i as int].take(j as int) =~= rows[i as int]);
                let upto = rows.take(i + 1);
                assert(upto.drop_last() =~= rows.take(i as int));
                assert(upto.last() == rows[i as int]);
                assert(views(commands@) =~= header(self.height) + grid_lines(upto));
            }
            i += 1;
        }
        assert(rows.take(i as int) =~= rows);

        issue_text(&mut commands, "\nLegend: \n");
        let legend = self.legend();
        let ghost entries = legend@;
        let ghost before = views(commands@);
        let mut k: usize = 0;
        assert(entries.take(0) =~= Seq::empty());
        while k < legend.entries.len()
            invariant
                entries == legend@,
                k <= legend.entries@.len(),
                views(commands@) == before + legend_lines(entries.take(k as int)),
            decreases legend.entries@.len() - k,
        {
            let entry = &legend.entries[k];
            let ghost so_far = views(commands@);
            issue(&mut commands, Command::SetBackgroundColor(entry.rgb));
            issue(&mut commands, Command::Print(entry.id.clone()));
            issue(&mut commands, Command::ResetColor);
            issue_text(&mut commands, "\n");
            proof {
                let upto = entries.take(k + 1);
                assert(upto.drop_last() =~= entries.take(k as int));
                assert(upto.last() == entry@);
                assert(views(commands@) =~= so_far + legend_line(entry@));
                assert(views(commands@) =~= before + legend_lines(upto));
            }
            k += 1;
        }
        assert(entries.take(k as int) =~= entries);
        issue(&mut commands, Command::Flush);
        commands
    }
}

} // verus!
