//! The connection log tab: the protocol exchange line by line, and a hex dump
//! of the latest caster response that could not be classified.
use vstd::prelude::*;
use vstd::utf8::encode_utf8;

use crate::state::{joined, Ring};
use crate::text::{dec, dec_string, hex, hex_pad, push_dec, push_hex_pad};
use crate::ui::text::{contains_ci, contains_ignore_ascii_case, indices};
use crate::ui::theme::{Color, ACCENT, SUCCESS};

verus! {

/// What the tab remembers between frames.
#[derive(Debug)]
pub struct ViewState {
    /// Live filter over the lines.
    pub filter: String,
    /// Whether the hex dump replaces the lines.
    pub show_hex: bool,
}

impl Default for ViewState {
    fn default() -> (r: ViewState)
        ensures
            r.filter@ == Seq::<char>::empty(),
            !r.show_hex,
    {
        ViewState { filter: String::new(), show_hex: false }
    }
}

// ---------------------------------------------------------------------
// Lines
// ---------------------------------------------------------------------

/// The named lines, each followed by a line feed.
pub open spec fn lines_text(lines: Seq<Seq<char>>, idx: Seq<usize>) -> Seq<char>
    decreases idx.len(),
{
    if idx.len() == 0 {
        Seq::empty()
    } else {
        let before = lines_text(lines, idx.drop_last());
        if idx.last() < lines.len() {
            before + lines[idx.last() as int] + "\n"@
        } else {
            before
        }
    }
}

/// Join the lines named by `idx`, one per line.
pub fn join_lines(conn: &Ring, idx: &Vec<usize>) -> (r: String)
    ensures
        r@ == lines_text(conn@.lines, idx@),
{
    let mut out = String::new();
    let mut k: usize = 0;
    assert(idx@.take(0) =~= Seq::<usize>::empty());
    while k < idx.len()
        invariant
            k <= idx@.len(),
            out@ == lines_text(conn@.lines, idx@.take(k as int)),
        decreases idx.len() - k,
    {
        assert(idx@.take(k + 1).drop_last() =~= idx@.take(k as int));
        if let Some(line) = conn.get(idx[k]) {
            out.append(line.as_str());
            out.append("\n");
        }
        k += 1;
    }
    assert(idx@.take(k as int) =~= idx@);
    out
}

/// Who a line of the exchange is from.
#[derive(Debug, Clone, Copy, PartialEq, Eq, Structural)]
pub enum Direction {
    /// Client to caster.
    Tx,
    /// Caster to client.
    Rx,
    /// Everything else.
    Note,
}

/// The bytes of a line behind its "HH:MM:SS " stamp, if it has one.
pub open spec fn unstamped(b: Seq<u8>) -> Seq<u8> {
    if b.len() >= 9 && b[2] == 0x3A && b[5] == 0x3A && b[8] == 0x20 {
        b.skip(9)
    } else {
        b
    }
}

/// The direction of a line: by its first two bytes behind the stamp.
pub open spec fn line_direction(line: Seq<char>) -> Direction {
    let rest = unstamped(encode_utf8(line));
    if rest.len() >= 2 && rest[0] == 0x3E && rest[1] == 0x20 {
        Direction::Tx
    } else if rest.len() >= 2 && rest[0] == 0x3C && rest[1] == 0x20 {
        Direction::Rx
    } else {
        Direction::Note
    }
}

/// Classify a line. The stamp is recognised by its shape, so that an
/// unstamped line classifies too, and a line that merely contains a direction
/// mark does not.
pub fn direction(line: &str) -> (r: Direction)
    ensures
        r == line_direction(line@),
{
    let b = line.as_bytes();
    let start: usize = if b.len() >= 9 && b[2] == 0x3A && b[5] == 0x3A && b[8] == 0x20 {
        9
    } else {
        0
    };
    let ghost rest = unstamped(b@);
    assert(rest.len() == b@.len() - start);
    assert(forall|i: int| 0 <= i < rest.len() ==> rest[i] == b@[i + start]);
    if b.len() - start < 2 || b[start + 1] != 0x20 {
        return Direction::Note;
    }
    if b[start] == 0x3E {
        Direction::Tx
    } else if b[start] == 0x3C {
        Direction::Rx
    } else {
        Direction::Note
    }
}

/// The ink of a direction; notes keep the default one.
pub fn direction_color(d: &Direction) -> (r: Option<Color>)
    ensures
        r == match *d {
            Direction::Tx => Some(ACCENT),
            Direction::Rx => Some(SUCCESS),
            Direction::Note => None,
        },
{
    match d {
        Direction::Tx => Some(ACCENT),
        Direction::Rx => Some(SUCCESS),
        Direction::Note => None,
    }
}

// ---------------------------------------------------------------------
// Hex dump
// ---------------------------------------------------------------------

pub const BYTES_PER_ROW: usize = 16;

/// The bytes of a row.
pub open spec fn row_bytes(data: Seq<u8>, row: int) -> Seq<u8> {
    let start = row * 16;
    data.subrange(
        start,
        if start + 16 < data.len() {
            start + 16
        } else {
            data.len() as int
        },
    )
}

/// The hex column's cell for position `i`, with the gap before it.
pub open spec fn hex_cell(chunk: Seq<u8>, i: int) -> Seq<char> {
    (if i == 8 {
        "  "@
    } else {
        " "@
    }) + (if i < chunk.len() {
        hex_pad(chunk[i] as nat, 2)
    } else {
        "  "@
    })
}

/// The hex column up to position `n`.
pub open spec fn hex_cells(chunk: Seq<u8>, n: nat) -> Seq<char>
    decreases n,
{
    if n == 0 {
        Seq::empty()
    } else {
        hex_cells(chunk, (n - 1) as nat) + hex_cell(chunk, n - 1)
    }
}

/// The printable character of a byte, or a dot.
pub open spec fn shown_char(b: u8) -> char {
    if 0x20 <= b <= 0x7E {
        b as char
    } else {
        '.'
    }
}

/// The text column.
pub open spec fn shown_chars(chunk: Seq<u8>) -> Seq<char> {
    Seq::new(chunk.len(), |i: int| shown_char(chunk[i]))
}

/// One row of the dump: offset, hex column padded to full width, and text
/// column.
pub open spec fn hex_row_text(data: Seq<u8>, row: int) -> Seq<char> {
    let chunk = row_bytes(data, row);
    hex_pad((row * 16) as nat, 8) + " "@ + hex_cells(chunk, 16) + "  |"@ + shown_chars(chunk)
        + "|"@
}

/// Rows of a dump of `len` bytes.
pub open spec fn rows_of(len: nat) -> nat {
    (len + 15) / 16
}

/// Number of hex-dump rows for a payload of `len` bytes.
pub fn hex_rows(len: usize) -> (r: usize)
    ensures
        r == rows_of(len as nat),
{
    let whole: usize = len / BYTES_PER_ROW;
    if len % BYTES_PER_ROW == 0 {
        whole
    } else {
        whole + 1
    }
}

/// One row of the dump. A partial row keeps the text column aligned.
pub fn hex_row(data: &[u8], row: usize) -> (r: String)
    requires
        row * 16 <= data@.len(),
    ensures
        r@ == hex_row_text(data@, row as int),
{
    let n: usize = data.len();
    let start: usize = row * BYTES_PER_ROW;
    let end: usize = if n - start > BYTES_PER_ROW {
        start + BYTES_PER_ROW
    } else {
        n
    };
    let ghost chunk = row_bytes(data@, row as int);
    let mut out = String::new();
    push_hex_pad(&mut out, start as u64, 8);
    assert(out@ =~= hex_pad((row * 16) as nat, 8));
    out.append(" ");
    let ghost head = out@;
    let mut i: usize = 0;
    while i < BYTES_PER_ROW
        invariant
            i <= 16,
            n == data@.len(),
            start <= end <= n,
            end - start <= 16,
            chunk == data@.subrange(start as int, end as int),
            out@ == head + hex_cells(chunk, i as nat),
        decreases BYTES_PER_ROW - i,
    {
        let ghost before = out@;
        if i == 8 {
            out.append("  ");
        } else {
            out.append(" ");
        }
        if i < end - start {
            assert(chunk[i as int] == data@[start + i]);
            push_hex_pad(&mut out, data[start + i] as u64, 2);
        } else {
            out.append("  ");
        }
        assert(out@ =~= before + hex_cell(chunk, i as int));
        assert(out@ =~= head + hex_cells(chunk, (i + 1) as nat));
        i += 1;
    }
    out.append("  |");
    let ghost left = out@;
    let mut j: usize = start;
    while j < end
        invariant
            n == data@.len(),
            start <= j <= end <= n,
            chunk == data@.subrange(start as int, end as int),
            out@ == left + shown_chars(chunk).take(j - start),
        decreases end - j,
    {
        let b = data[j];
        assert(chunk[j - start] == b);
        out.push(
            if 0x20 <= b && b <= 0x7E {
                b as char
            } else {
                '.'
            },
        );
        assert(out@ =~= left + shown_chars(chunk).take(j + 1 - start));
        j += 1;
    }
    assert(shown_chars(chunk).take(end - start) =~= shown_chars(chunk));
    out.append("|");
    out
}

/// The first `n` rows, each followed by a line feed.
pub open spec fn dump_text(data: Seq<u8>, n: nat) -> Seq<char>
    decreases n,
{
    if n == 0 {
        Seq::empty()
    } else {
        dump_text(data, (n - 1) as nat) + hex_row_text(data, n - 1) + "\n"@
    }
}

/// The whole payload as dump text.
pub fn hex_dump(data: &[u8]) -> (r: String)
    ensures
        r@ == dump_text(data@, rows_of(data@.len())),
{
    let rows: usize = hex_rows(data.len());
    let mut out = String::new();
    let mut row: usize = 0;
    while row < rows
        invariant
            rows == rows_of(data@.len()),
            row <= rows,
            out@ == dump_text(data@, row as nat),
        decreases rows - row,
    {
        let line = hex_row(data, row);
        out.append(line.as_str());
        out.append("\n");
        row += 1;
    }
    out
}

proof fn lemma_hex_len(n: nat, k: nat, bound: nat)
    requires
        k >= 1,
        bound == pow16(k),
        n < bound,
    ensures
        1 <= hex(n).len() <= k,
    decreases k,
{
    if n >= 16 {
        assert(k >= 2) by {
            if k == 1 {
                reveal_with_fuel(pow16, 2);
            }
        }
        assert(pow16(k) == 16 * pow16((k - 1) as nat));
        lemma_hex_len(n / 16, (k - 1) as nat, pow16((k - 1) as nat));
    }
}

spec fn pow16(k: nat) -> nat
    decreases k,
{
    if k == 0 {
        1
    } else {
        16 * pow16((k - 1) as nat)
    }
}

proof fn lemma_cells_len(chunk: Seq<u8>, n: nat)
    requires
        n <= 16,
    ensures
        hex_cells(chunk, n).len() == 3 * n + if n > 8 {
            1int
        } else {
            0
        },
    decreases n,
{
    reveal_strlit(" ");
    reveal_strlit("  ");
    if n > 0 {
        lemma_cells_len(chunk, (n - 1) as nat);
        if n - 1 < chunk.len() {
            reveal_with_fuel(pow16, 3);
            lemma_hex_len(chunk[n - 1] as nat, 2, 256);
        }
    }
}

/// The text column opens at the same place in every row of a dump of up to
/// four gigabytes.
pub proof fn law_text_column_is_aligned(data: Seq<u8>, row: int)
    requires
        0 <= row * 16 <= data.len(),
        row * 16 < 0x1_0000_0000,
    ensures
        hex_row_text(data, row).len() == 62 + row_bytes(data, row).len(),
        hex_row_text(data, row)[60] == '|',
{
    let chunk = row_bytes(data, row);
    reveal_strlit(" ");
    reveal_strlit("  |");
    reveal_strlit("|");
    reveal_with_fuel(pow16, 9);
    lemma_hex_len((row * 16) as nat, 8, 0x1_0000_0000);
    lemma_cells_len(chunk, 16);
    let head = hex_pad((row * 16) as nat, 8) + " "@ + hex_cells(chunk, 16);
    assert(head.len() == 58);
    let full = hex_row_text(data, row);
    assert(full =~= head + ("  |"@ + shown_chars(chunk) + "|"@));
    assert(full[60] == ("  |"@ + shown_chars(chunk) + "|"@)[2]);
}

/// The lines of a text that end in a line feed, and what follows the last of
/// them.
pub open spec fn ended_lines(text: Seq<char>) -> (Seq<Seq<char>>, Seq<char>)
    decreases text.len(),
{
    if text.len() == 0 {
        (Seq::empty(), Seq::empty())
    } else {
        let (lines, open) = ended_lines(text.drop_last());
        if text.last() == '\n' {
            (lines.push(open), Seq::empty())
        } else {
            (lines, open.push(text.last()))
        }
    }
}

/// The value of an upper-case hexadecimal digit.
pub open spec fn digit_value(c: char) -> Option<int> {
    if '0' <= c <= '9' {
        Some(c as int - 48)
    } else if 'A' <= c <= 'F' {
        Some(c as int - 55)
    } else {
        None
    }
}

/// The column of the field for position `i` of a row.
pub open spec fn field_column(i: int) -> int {
    10 + 3 * i + if i >= 8 {
        1int
    } else {
        0
    }
}

/// The two digits of a row at position `i`, read as a byte; none where the
/// row has blanks.
pub open spec fn field_value(line: Seq<char>, i: int) -> Option<u8> {
    match (digit_value(line[field_column(i)]), digit_value(line[field_column(i) + 1])) {
        (Some(high), Some(low)) => Some((16 * high + low) as u8),
        _ => None,
    }
}

/// The bytes read from a row's first `n` fields.
pub open spec fn fields_read(line: Seq<char>, n: nat) -> Seq<u8>
    decreases n,
{
    if n == 0 {
        Seq::empty()
    } else {
        let before = fields_read(line, (n - 1) as nat);
        match field_value(line, n - 1) {
            Some(b) => before.push(b),
            None => before,
        }
    }
}

/// The bytes read from the fields of all rows, row after row.
pub open spec fn rows_read(lines: Seq<Seq<char>>) -> Seq<u8>
    decreases lines.len(),
{
    if lines.len() == 0 {
        Seq::empty()
    } else {
        rows_read(lines.drop_last()) + fields_read(lines.last(), 16)
    }
}

/// The rows of a dump.
pub open spec fn dump_rows(data: Seq<u8>, n: nat) -> Seq<Seq<char>> {
    Seq::new(n, |k: int| hex_row_text(data, k))
}

proof fn lemma_hex_has_no_line_feed(n: nat)
    ensures
        !hex(n).contains('\n'),
    decreases n,
{
    if n >= 16 {
        lemma_hex_has_no_line_feed(n / 16);
        let head = hex(n / 16);
        assert forall|i: int| 0 <= i < hex(n).len() implies hex(n)[i] != '\n' by {
            if i < head.len() {
                assert(hex(n)[i] == head[i]);
            }
        }
    }
}

proof fn lemma_cells_have_no_line_feed(chunk: Seq<u8>, n: nat)
    ensures
        !hex_cells(chunk, n).contains('\n'),
    decreases n,
{
    reveal_strlit(" ");
    reveal_strlit("  ");
    if n > 0 {
        lemma_cells_have_no_line_feed(chunk, (n - 1) as nat);
        let head = hex_cells(chunk, (n - 1) as nat);
        let cell = hex_cell(chunk, n - 1);
        if n - 1 < chunk.len() {
            lemma_hex_has_no_line_feed(chunk[n - 1] as nat);
        }
        assert(!cell.contains('\n'));
        assert forall|i: int| 0 <= i < hex_cells(chunk, n).len() implies hex_cells(chunk, n)[i]
            != '\n' by {
            if i < head.len() {
                assert(hex_cells(chunk, n)[i] == head[i]);
            } else {
                assert(hex_cells(chunk, n)[i] == cell[i - head.len()]);
            }
        }
    }
}

proof fn lemma_row_has_no_line_feed(data: Seq<u8>, row: int)
    requires
        0 <= row * 16 <= data.len(),
    ensures
        !hex_row_text(data, row).contains('\n'),
{
    let chunk = row_bytes(data, row);
    let offset = hex_pad((row * 16) as nat, 8);
    let cells = hex_cells(chunk, 16);
    reveal_strlit(" ");
    reveal_strlit("  |");
    reveal_strlit("|");
    lemma_hex_has_no_line_feed((row * 16) as nat);
    lemma_cells_have_no_line_feed(chunk, 16);
    let full = hex_row_text(data, row);
    assert forall|i: int| 0 <= i < full.len() implies full[i] != '\n' by {
        let at_cells = offset.len() + 1;
        let at_bar = at_cells + cells.len();
        if offset.len() <= i < at_cells {
            assert(full[i] == " "@[i - offset.len()]);
        } else if at_cells <= i < at_bar {
            assert(full[i] == cells[i - at_cells]);
        } else if at_bar <= i < at_bar + 3 {
            assert(full[i] == "  |"@[i - at_bar]);
        } else if at_bar + 3 <= i < full.len() - 1 {
            assert(full[i] == shown_chars(chunk)[i - at_bar - 3]);
        } else if i == full.len() - 1 {
            assert(full[i] == "|"@[0]);
        } else {
            assert(full[i] == offset[i]);
        }
    }
}

proof fn lemma_line_is_read(text: Seq<char>, line: Seq<char>)
    requires
        ended_lines(text).1.len() == 0,
        !line.contains('\n'),
    ensures
        ended_lines(text + line) == (ended_lines(text).0, line),
    decreases line.len(),
{
    let (lines, open) = ended_lines(text);
    if line.len() == 0 {
        assert(text + line =~= text);
        assert(open =~= line);
    } else {
        assert forall|i: int| 0 <= i < line.drop_last().len() implies line.drop_last()[i]
            != '\n' by {
            assert(line.contains(line[i]));
        }
        assert(line.contains(line.last()));
        lemma_line_is_read(text, line.drop_last());
        assert((text + line).drop_last() =~= text + line.drop_last());
        assert(line.drop_last().push(line.last()) =~= line);
    }
}

proof fn lemma_byte_digits(b: u8)
    ensures
        hex_pad(b as nat, 2).len() == 2,
        digit_value(hex_pad(b as nat, 2)[0]) == Some((b / 16) as int),
        digit_value(hex_pad(b as nat, 2)[1]) == Some((b % 16) as int),
{
    reveal_with_fuel(hex, 2);
}

/// Where the digits of position `i` stand in the hex column.
proof fn lemma_cell_digits(chunk: Seq<u8>, n: nat, i: int)
    requires
        0 <= i < n <= 16,
    ensures
        ({
            let at = field_column(i) - 9;
            let cells = hex_cells(chunk, n);
            &&& at + 1 < cells.len()
            &&& i < chunk.len() ==> cells[at] == hex_pad(chunk[i] as nat, 2)[0] && cells[at + 1]
                == hex_pad(chunk[i] as nat, 2)[1]
            &&& i >= chunk.len() ==> cells[at] == ' '
        }),
    decreases n,
{
    reveal_strlit(" ");
    reveal_strlit("  ");
    lemma_cells_len(chunk, n);
    lemma_cells_len(chunk, (n - 1) as nat);
    let head = hex_cells(chunk, (n - 1) as nat);
    let at = field_column(i) - 9;
    if i < n - 1 {
        lemma_cell_digits(chunk, (n - 1) as nat, i);
    } else {
        let cell = hex_cell(chunk, i);
        if i < chunk.len() {
            lemma_byte_digits(chunk[i]);
        }
        assert(hex_cells(chunk, n)[at] == cell[at - head.len()]);
        assert(hex_cells(chunk, n)[at + 1] == cell[at + 1 - head.len()]);
    }
}

proof fn lemma_row_reads_back(data: Seq<u8>, row: int, n: nat)
    requires
        0 <= row * 16 <= data.len(),
        row * 16 < 0x1_0000_0000,
        n <= 16,
    ensures
        ({
            let chunk = row_bytes(data, row);
            fields_read(hex_row_text(data, row), n) == chunk.take(
                if n <= chunk.len() {
                    n as int
                } else {
                    chunk.len() as int
                },
            )
        }),
    decreases n,
{
    let chunk = row_bytes(data, row);
    let line = hex_row_text(data, row);
    if n == 0 {
        assert(chunk.take(0) =~= Seq::<u8>::empty());
    } else {
        lemma_row_reads_back(data, row, (n - 1) as nat);
        let i = n - 1;
        let at = field_column(i);
        reveal_strlit(" ");
        reveal_with_fuel(pow16, 9);
        lemma_hex_len((row * 16) as nat, 8, 0x1_0000_0000);
        lemma_cells_len(chunk, 16);
        lemma_cell_digits(chunk, 16, i);
        let head = hex_pad((row * 16) as nat, 8) + " "@;
        assert(head.len() == 9);
        assert(line[at] == hex_cells(chunk, 16)[at - 9]);
        assert(line[at + 1] == hex_cells(chunk, 16)[at - 8]);
        if i < chunk.len() {
            let b = chunk[i];
            lemma_byte_digits(b);
            assert(16 * (b / 16) + b % 16 == b);
            assert(field_value(line, i) == Some(b));
            assert(chunk.take(i).push(b) =~= chunk.take(n as int));
        } else {
            assert(field_value(line, i) is None);
        }
    }
}

proof fn lemma_dump_reads_back(data: Seq<u8>, n: nat)
    requires
        n <= rows_of(data.len()),
        data.len() <= 0x1_0000_0000,
    ensures
        ended_lines(dump_text(data, n)) == (dump_rows(data, n), Seq::<char>::empty()),
        rows_read(dump_rows(data, n)) == data.take(
            if 16 * n <= data.len() {
                16 * n as int
            } else {
                data.len() as int
            },
        ),
    decreases n,
{
    reveal_strlit("\n");
    if n == 0 {
        assert(dump_rows(data, 0) =~= Seq::<Seq<char>>::empty());
        assert(data.take(0) =~= Seq::<u8>::empty());
    } else {
        let k = (n - 1) as nat;
        lemma_dump_reads_back(data, k);
        let row = hex_row_text(data, k as int);
        let chunk = row_bytes(data, k as int);
        lemma_row_has_no_line_feed(data, k as int);
        lemma_line_is_read(dump_text(data, k), row);
        let text = dump_text(data, k) + row;
        assert(dump_text(data, n).drop_last() =~= text);
        assert(dump_rows(data, n) =~= dump_rows(data, k).push(row));
        assert(dump_rows(data, n).drop_last() =~= dump_rows(data, k));
        lemma_row_reads_back(data, k as int, 16);
        assert(chunk.take(chunk.len() as int) =~= chunk);
        assert(rows_read(dump_rows(data, n)) =~= data.take(
            if 16 * n <= data.len() {
                16 * n as int
            } else {
                data.len() as int
            },
        ));
    }
}

/// A dump of up to four gigabytes is its rows, each ended by a line feed, and
/// reads back: the two-digit fields of all rows, in order, are the payload.
pub proof fn law_dump_reads_back(data: Seq<u8>)
    requires
        data.len() <= 0x1_0000_0000,
    ensures
        ({
            let dump = dump_text(data, rows_of(data.len()));
            &&& ended_lines(dump) == (dump_rows(data, rows_of(data.len())), Seq::<char>::empty())
            &&& rows_read(ended_lines(dump).0) == data
            &&& data.len() == 0 ==> dump.len() == 0
        }),
{
    lemma_dump_reads_back(data, rows_of(data.len()));
    assert(data.take(data.len() as int) =~= data);
}

// ---------------------------------------------------------------------
// Tab
// ---------------------------------------------------------------------

/// What the tab shows.
#[derive(Debug)]
pub struct ConnTab {
    pub hex_active: bool,
    /// The lines that the filter lets through, when one is active.
    pub filtered: Option<Vec<usize>>,
    pub count: String,
    /// Whether the hex dump can be switched on or off.
    pub toggle_enabled: bool,
}

/// Whether the hex dump shows: it is switched on and there is evidence.
pub open spec fn hex_shows(view: ViewState, raw: Option<&Vec<u8>>) -> bool {
    view.show_hex && raw is Some
}

/// The lines that a filter lets through.
pub open spec fn passing(lines: Seq<Seq<char>>, filter: Seq<char>) -> Seq<usize> {
    indices(lines.len(), |i: int| contains_ci(lines[i], filter))
}

fn filter_rows(conn: &Ring, filter: &str) -> (r: Vec<usize>)
    ensures
        r@ == passing(conn@.lines, filter@),
{
    let ghost lines = conn@.lines;
    let ghost f = |i: int| contains_ci(lines[i], filter@);
    let mut r: Vec<usize> = Vec::new();
    let mut i: usize = 0;
    let n: usize = conn.len();
    while i < n
        invariant
            lines == conn@.lines,
            n == lines.len(),
            i <= n,
            f == (|i: int| contains_ci(lines[i], filter@)),
            r@ == indices(i as nat, f),
        decreases n - i,
    {
        if let Some(line) = conn.get(i) {
            if contains_ignore_ascii_case(line.as_str(), filter) {
                r.push(i);
            }
        }
        i += 1;
    }
    r
}

/// What the tab shows of the ring and of the latest unclassified response.
pub fn tab(view: &ViewState, conn: &Ring, raw: Option<&Vec<u8>>) -> (r: ConnTab)
    ensures
        r.hex_active == hex_shows(*view, raw),
        r.toggle_enabled == (raw is Some),
        match r.filtered {
            Some(idx) => view.filter@.len() > 0 && !r.hex_active && idx@ == passing(
                conn@.lines,
                view.filter@,
            ),
            None => view.filter@.len() == 0 || r.hex_active,
        },
        r.count@ == (if r.hex_active {
            dec(raw->0@.len()) + " bytes"@
        } else if view.filter@.len() > 0 {
            dec(passing(conn@.lines, view.filter@).len()) + " of "@ + dec(conn@.lines.len())
                + " lines"@
        } else {
            dec(conn@.lines.len()) + " lines"@
        }),
{
    let hex_active = view.show_hex && raw.is_some();
    let filtered = if !view.filter.as_str().is_empty() && !hex_active {
        Some(filter_rows(conn, view.filter.as_str()))
    } else {
        None
    };
    let count = match (hex_active, raw) {
        (true, Some(bytes)) => {
            let mut s = dec_string(bytes.len() as u64);
            s.append(" bytes");
            s
        },
        _ => match &filtered {
            Some(idx) => {
                let mut s = dec_string(idx.len() as u64);
                s.append(" of ");
                push_dec(&mut s, conn.len() as u64);
                s.append(" lines");
                s
            },
            None => {
                let mut s = dec_string(conn.len() as u64);
                s.append(" lines");
                s
            },
        },
    };
    ConnTab { hex_active, filtered, count, toggle_enabled: raw.is_some() }
}

/// The text that copying the current view yields.
pub fn copy_text(view: &ViewState, conn: &Ring, raw: Option<&Vec<u8>>) -> (r: String)
    ensures
        r@ == (if hex_shows(*view, raw) {
            dump_text(raw->0@, rows_of(raw->0@.len()))
        } else if view.filter@.len() > 0 {
            lines_text(conn@.lines, passing(conn@.lines, view.filter@))
        } else {
            joined(conn@.lines)
        }),
{
    match (view.show_hex, raw) {
        (true, Some(bytes)) => hex_dump(bytes.as_slice()),
        _ => if view.filter.as_str().is_empty() {
            conn.join()
        } else {
            join_lines(conn, &filter_rows(conn, view.filter.as_str()))
        },
    }
}

/// The line in row `r` of the current view.
pub fn row_line<'a>(conn: &'a Ring, filtered: &Option<Vec<usize>>, r: usize) -> (l: Option<
    &'a String,
>)
    ensures
        match l {
            Some(line) => {
                let i = match *filtered {
                    Some(v) => v@[r as int],
                    None => r,
                };
                (filtered matches Some(v) ==> r < v@.len()) && i < conn@.lines.len() && line@
                    == conn@.lines[i as int]
            },
            None => match *filtered {
                Some(v) => r >= v@.len() || v@[r as int] >= conn@.lines.len(),
                None => r >= conn@.lines.len(),
            },
        },
{
    match filtered {
        Some(v) => if r < v.len() {
            conn.get(v[r])
        } else {
            None
        },
        None => conn.get(r),
    }
}

/// A click on the hex switch.
pub fn toggle_hex(view: &mut ViewState)
    ensures
        *final(view) == (ViewState { show_hex: !old(view).show_hex, ..*old(view) }),
{
    view.show_hex = !view.show_hex;
}

} // verus!
