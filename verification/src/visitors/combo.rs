//! The combo table reshaper: from table rows to template calls by column key.

use crate::edit::{edits_view, Edit, EditView};
use crate::error::RewriteError;
use crate::lists::texts_view;
use crate::node::{node_span, Node, TableCell, TableCellType, TableRow};
use crate::parse::{lemma_walk_keeps, walk_nodes, WikiVisitor};
use crate::parse_ext_traits::{content_text, text_at, NodeExt, TableCellExt};
use crate::text::{lowercase, str_eq, to_lowercase, trim, trimmed};
use vstd::prelude::*;
use vstd::string::*;

verus! {

/// The key of one column of a combo table, in the order in which a rewritten row lists
/// them.
#[derive(Clone, Copy, Debug, PartialEq, Eq, Structural)]
pub enum Column {
    Combo,
    Position,
    Damage,
    TensionGain,
    WorksOn,
    Difficulty,
    Notes,
    Video,
    RecipePC,
    RecipePS,
}

/// The name under which a rewritten row lists a column.
pub open spec fn key_name(key: Column) -> Seq<char> {
    match key {
        Column::Combo => "combo"@,
        Column::Position => "position"@,
        Column::Damage => "damage"@,
        Column::TensionGain => "tensionGain"@,
        Column::WorksOn => "worksOn"@,
        Column::Difficulty => "difficulty"@,
        Column::Notes => "notes"@,
        Column::Video => "video"@,
        Column::RecipePC => "recipePC"@,
        Column::RecipePS => "recipePS"@,
    }
}

/// Whether a lone dash in the column stands for no value.
pub open spec fn dash_is_empty(key: Column) -> bool {
    key == Column::Video || key == Column::RecipePC || key == Column::RecipePS
}

/// The column that a caption, in lower case, stands for.
pub open spec fn caption_key(caption: Seq<char>) -> Option<Column> {
    if caption == "combo"@ {
        Some(Column::Combo)
    } else if caption == "position"@ {
        Some(Column::Position)
    } else if caption == "damage"@ {
        Some(Column::Damage)
    } else if caption == "tension gain"@ {
        Some(Column::TensionGain)
    } else if caption == "works on:"@ || caption == "works on"@ {
        Some(Column::WorksOn)
    } else if caption == "difficulty"@ {
        Some(Column::Difficulty)
    } else if caption == "video"@ || caption == "video demonstration"@ {
        Some(Column::Video)
    } else if caption == "notes"@ {
        Some(Column::Notes)
    } else if caption == "recipe"@ || caption == "combo recipe no."@ || caption == "recipe id"@
        || caption == "recipes (pc)"@ || caption == "combo recipe (pc)"@ {
        Some(Column::RecipePC)
    } else {
        None
    }
}

/// What the header row of a table says about the table.
pub enum Header {
    /// The table is a combo table with these columns.
    Columns(Seq<Column>),
    /// The table lists notation and is to be left alone.
    Skip,
}

/// Whether the cell of a caption stands for two columns: a `recipe` cell whose one
/// attribute reads `colspan=2`.
pub open spec fn spans_two(text: Seq<char>, caption: Seq<char>, cell: TableCell) -> Result<
    bool,
    RewriteError,
> {
    match cell.attributes {
        Some(attributes) => if caption == "recipe"@ && attributes@.len() == 1 {
            match text_at(text, node_span(attributes@[0])) {
                Ok(attribute) => Ok(lowercase(attribute) == "colspan=2"@),
                Err(e) => Err(e),
            }
        } else {
            Ok(false)
        },
        None => Ok(false),
    }
}

/// The header after one more cell was read.
pub open spec fn header_with(text: Seq<char>, order: Seq<Column>, cell: TableCell) -> Result<
    Header,
    RewriteError,
> {
    match content_text(text, cell.content@) {
        Err(e) => Err(e),
        Ok(content) => {
            let caption = lowercase(content);
            if caption == "notation"@ {
                Ok(Header::Skip)
            } else {
                match caption_key(caption) {
                    None => Err(RewriteError::UnknownCaption),
                    Some(key) => match spans_two(text, caption, cell) {
                        Err(e) => Err(e),
                        Ok(true) => Ok(Header::Columns(order.push(key).push(Column::RecipePS))),
                        Ok(false) => Ok(Header::Columns(order.push(key))),
                    },
                }
            }
        },
    }
}

/// What the cells of a header row say when they are read one after the other, `order`
/// being the columns read so far.
pub open spec fn header_from(text: Seq<char>, cells: Seq<TableCell>, order: Seq<Column>) -> Result<
    Header,
    RewriteError,
>
    decreases cells.len(),
{
    if cells.len() == 0 {
        Ok(Header::Columns(order))
    } else {
        match header_with(text, order, cells[0]) {
            Ok(Header::Columns(longer)) => header_from(text, cells.drop_first(), longer),
            other => other,
        }
    }
}

/// What the cells of a header row say, read from the first cell on: the columns they
/// name, or that the table is to be skipped, or the failure at the first cell that
/// cannot be read.
pub open spec fn read_header(text: Seq<char>, cells: Seq<TableCell>) -> Result<
    Header,
    RewriteError,
> {
    header_from(text, cells, Seq::empty())
}

/// Whether every cell is a heading cell.
pub open spec fn all_headings(cells: Seq<TableCell>) -> bool {
    forall|i: int| 0 <= i < cells.len() ==> (#[trigger] cells[i]).type_ == TableCellType::Heading
}

/// The texts of the cells behind those that were read already.
pub open spec fn texts_from(text: Seq<char>, cells: Seq<TableCell>, read: Seq<Seq<char>>) -> Result<
    Seq<Seq<char>>,
    RewriteError,
>
    decreases cells.len(),
{
    if cells.len() == 0 {
        Ok(read)
    } else {
        match content_text(text, cells[0].content@) {
            Ok(t) => texts_from(text, cells.drop_first(), read.push(t)),
            Err(e) => Err(e),
        }
    }
}

/// The texts of the cells, or the failure at the first cell whose text cannot be read.
pub open spec fn cell_texts(text: Seq<char>, cells: Seq<TableCell>) -> Result<
    Seq<Seq<char>>,
    RewriteError,
> {
    texts_from(text, cells, Seq::empty())
}

/// The value of a column in a row: that of the last cell under this key.
pub open spec fn value_of(columns: Seq<Column>, values: Seq<Seq<char>>, key: Column) -> Option<
    Seq<char>,
>
    decreases columns.len(),
{
    if columns.len() == 0 {
        None
    } else if columns.last() == key {
        Some(values[columns.len() - 1])
    } else {
        value_of(columns.drop_last(), values, key)
    }
}

/// The line of one column in a rewritten row: nothing where the row has no value for
/// the column; else the key and the value without the white space around it, a lone dash
/// counting as no text in the columns where it stands for none.
pub open spec fn field_line(key: Column, value: Option<Seq<char>>) -> Seq<char> {
    match value {
        None => Seq::empty(),
        Some(v) => {
            let shown = if dash_is_empty(key) && trimmed(v) == "-"@ {
                Seq::empty()
            } else {
                trimmed(v)
            };
            "|"@ + key_name(key) + " = "@ + shown + "\n"@
        },
    }
}

/// The lines of the columns from `Combo` up to, and without, the `upto`-th of the ten.
pub open spec fn field_lines(columns: Seq<Column>, values: Seq<Seq<char>>, upto: int) -> Seq<char>
    decreases upto,
{
    if upto <= 0 {
        Seq::empty()
    } else {
        field_lines(columns, values, upto - 1) + field_line(
            listed(upto - 1),
            value_of(columns, values, listed(upto - 1)),
        )
    }
}

/// The column at a place of the fixed order in which a rewritten row lists them.
pub open spec fn listed(place: int) -> Column {
    if place == 0 {
        Column::Combo
    } else if place == 1 {
        Column::Position
    } else if place == 2 {
        Column::Damage
    } else if place == 3 {
        Column::TensionGain
    } else if place == 4 {
        Column::WorksOn
    } else if place == 5 {
        Column::Difficulty
    } else if place == 6 {
        Column::Notes
    } else if place == 7 {
        Column::Video
    } else if place == 8 {
        Column::RecipePC
    } else {
        Column::RecipePS
    }
}

/// The template call that stands for a data row.
pub open spec fn row_text(columns: Seq<Column>, values: Seq<Seq<char>>) -> Seq<char> {
    "|-\n{{GGST-ComboTableRow\n"@ + field_lines(columns, values, 10) + "|checkedVersion = \n"@
        + "}}"@
}

/// The marker that stands for a header row.
pub open spec fn header_text() -> Seq<char> {
    "|-\n{{GGST-ComboTableHeader}}"@
}

/// A row that does not fit the header of its table: where it stands, how many cells it
/// has, and how many columns the header has.
#[derive(Clone, Copy, Debug, PartialEq, Eq, Structural)]
pub struct Misfit {
    pub start: usize,
    pub end: usize,
    pub cells: usize,
    pub columns: usize,
}

/// What the reshaper knows while it walks a document.
pub struct ComboState {
    pub text: Seq<char>,
    pub in_table: bool,
    pub skip_table: bool,
    pub columns: Option<Seq<Column>>,
    pub edits: Seq<EditView>,
    /// The rows that did not fit, in the order in which they were met.
    pub misfits: Seq<Misfit>,
}

/// The state after a row was shown.
///
/// A row without cells, and any row of a table that is to be skipped, changes nothing.
/// While the table has no header, a row of at most three cells changes nothing either:
/// such a table is no combo table. The first longer row must hold heading cells only
/// and is read as the header: it either marks the table to be skipped or fixes the
/// columns and is replaced by the header marker. Once the columns are fixed, every row
/// with another number of cells than the header has columns, a short one too, is put
/// on record as a misfit and left as it is; any other is replaced by its template call.
pub open spec fn row_step(m: ComboState, row: TableRow) -> Result<ComboState, RewriteError> {
    let cells = row.cells@;
    if cells.len() == 0 || m.skip_table {
        Ok(m)
    } else {
        match m.columns {
            None => if cells.len() <= 3 {
                Ok(m)
            } else if !all_headings(cells) {
                Err(RewriteError::HeaderExpected)
            } else {
                match read_header(m.text, cells) {
                    Err(e) => Err(e),
                    Ok(Header::Skip) => Ok(ComboState { skip_table: true, ..m }),
                    Ok(Header::Columns(order)) => Ok(
                        ComboState {
                            columns: Some(order),
                            edits: m.edits.push(
                                EditView {
                                    replacement: header_text(),
                                    start: row.start as int,
                                    end: row.end as int,
                                },
                            ),
                            ..m
                        },
                    ),
                }
            },
            Some(columns) => if cells.len() != columns.len() {
                Ok(
                    ComboState {
                        misfits: m.misfits.push(
                            Misfit {
                                start: row.start,
                                end: row.end,
                                cells: cells.len() as usize,
                                columns: columns.len() as usize,
                            },
                        ),
                        ..m
                    },
                )
            } else {
                match cell_texts(m.text, cells) {
                    Err(e) => Err(e),
                    Ok(values) => Ok(
                        ComboState {
                            edits: m.edits.push(
                                EditView {
                                    replacement: row_text(columns, values),
                                    start: row.start as int,
                                    end: row.end as int,
                                },
                            ),
                            ..m
                        },
                    ),
                }
            },
        }
    }
}

impl Column {
    /// The name under which a rewritten row lists the column.
    pub fn name(self) -> (r: &'static str)
        ensures
            r@ == key_name(self),
    {
        match self {
            Column::Combo => "combo",
            Column::Position => "position",
            Column::Damage => "damage",
            Column::TensionGain => "tensionGain",
            Column::WorksOn => "worksOn",
            Column::Difficulty => "difficulty",
            Column::Notes => "notes",
            Column::Video => "video",
            Column::RecipePC => "recipePC",
            Column::RecipePS => "recipePS",
        }
    }

    /// The column that a caption, in lower case, stands for.
    pub fn from_caption(caption: &str) -> (r: Option<Column>)
        ensures
            r == caption_key(caption@),
    {
        if str_eq(caption, "combo") {
            Some(Column::Combo)
        } else if str_eq(caption, "position") {
            Some(Column::Position)
        } else if str_eq(caption, "damage") {
            Some(Column::Damage)
        } else if str_eq(caption, "tension gain") {
            Some(Column::TensionGain)
        } else if str_eq(caption, "works on:") || str_eq(caption, "works on") {
            Some(Column::WorksOn)
        } else if str_eq(caption, "difficulty") {
            Some(Column::Difficulty)
        } else if str_eq(caption, "video") || str_eq(caption, "video demonstration") {
            Some(Column::Video)
        } else if str_eq(caption, "notes") {
            Some(Column::Notes)
        } else if str_eq(caption, "recipe") || str_eq(caption, "combo recipe no.") || str_eq(
            caption,
            "recipe id",
        ) || str_eq(caption, "recipes (pc)") || str_eq(caption, "combo recipe (pc)") {
            Some(Column::RecipePC)
        } else {
            None
        }
    }

    /// The column at a place of the fixed order in which a rewritten row lists them.
    pub fn at(place: usize) -> (r: Column)
        ensures
            r == listed(place as int),
    {
        if place == 0 {
            Column::Combo
        } else if place == 1 {
            Column::Position
        } else if place == 2 {
            Column::Damage
        } else if place == 3 {
            Column::TensionGain
        } else if place == 4 {
            Column::WorksOn
        } else if place == 5 {
            Column::Difficulty
        } else if place == 6 {
            Column::Notes
        } else if place == 7 {
            Column::Video
        } else if place == 8 {
            Column::RecipePC
        } else {
            Column::RecipePS
        }
    }
}


/// Whether every cell is a heading cell.
fn headings_only(cells: &Vec<TableCell>) -> (r: bool)
    ensures
        r == all_headings(cells@),
{
    let mut i: usize = 0;
    while i < cells.len()
        invariant
            i <= cells.len(),
            forall|k: int| 0 <= k < i ==> (#[trigger] cells@[k]).type_ == TableCellType::Heading,
        decreases cells.len() - i,
    {
        if cells[i].type_ != TableCellType::Heading {
            return false;
        }
        i += 1;
    }
    true
}

/// Whether the cell of a caption stands for two columns.
fn cell_spans_two(text: &str, caption: &str, cell: &TableCell) -> (r: Result<bool, RewriteError>)
    ensures
        r == spans_two(text@, caption@, *cell),
{
    match &cell.attributes {
        Some(attributes) => {
            if str_eq(caption, "recipe") && attributes.len() == 1 {
                let attribute = attributes[0].as_str(text)?;
                let lowered = to_lowercase(attribute);
                Ok(str_eq(lowered.as_str(), "colspan=2"))
            } else {
                Ok(false)
            }
        },
        None => Ok(false),
    }
}

/// Reads the cells of a header row: the columns they name, or `None` where the table
/// is to be skipped.
fn read_header_row(text: &str, cells: &Vec<TableCell>) -> (r: Result<
    Option<Vec<Column>>,
    RewriteError,
>)
    ensures
        match read_header(text@, cells@) {
            Ok(Header::Columns(order)) => r is Ok && r.unwrap() is Some && r.unwrap().unwrap()@
                == order,
            Ok(Header::Skip) => r is Ok && r.unwrap() is None,
            Err(e) => r is Err && r.unwrap_err() == e,
        },
{
    let mut order: Vec<Column> = Vec::new();
    let mut i: usize = 0;
    assert(cells@.skip(0) =~= cells@);
    while i < cells.len()
        invariant
            i <= cells.len(),
            read_header(text@, cells@) == header_from(text@, cells@.skip(i as int), order@),
        decreases cells.len() - i,
    {
        assert(cells@.skip(i as int).drop_first() =~= cells@.skip(i + 1));
        assert(cells@.skip(i as int)[0] == cells@[i as int]);
        let cell = &cells[i];
        let content = cell.text_content(text)?;
        let caption = to_lowercase(content);
        if str_eq(caption.as_str(), "notation") {
            return Ok(None);
        }
        let key = match Column::from_caption(caption.as_str()) {
            Some(key) => key,
            None => {
                return Err(RewriteError::UnknownCaption);
            },
        };
        let twice = cell_spans_two(text, caption.as_str(), cell)?;
        order.push(key);
        if twice {
            order.push(Column::RecipePS);
        }
        i += 1;
    }
    Ok(Some(order))
}

/// Reads the texts of the cells of a row.
fn cell_values<'a>(text: &'a str, cells: &Vec<TableCell>) -> (r: Result<
    Vec<&'a str>,
    RewriteError,
>)
    ensures
        match cell_texts(text@, cells@) {
            Ok(values) => r is Ok && texts_view(r.unwrap()@) == values && r.unwrap()@.len()
                == cells@.len(),
            Err(e) => r is Err && r.unwrap_err() == e,
        },
{
    let mut values: Vec<&str> = Vec::new();
    let mut i: usize = 0;
    assert(cells@.skip(0) =~= cells@);
    assert(texts_view(values@) =~= Seq::<Seq<char>>::empty());
    while i < cells.len()
        invariant
            i <= cells.len(),
            values@.len() == i,
            cell_texts(text@, cells@) == texts_from(
                text@,
                cells@.skip(i as int),
                texts_view(values@),
            ),
        decreases cells.len() - i,
    {
        assert(cells@.skip(i as int).drop_first() =~= cells@.skip(i + 1));
        assert(cells@.skip(i as int)[0] == cells@[i as int]);
        let content = cells[i].text_content(text)?;
        assert(texts_view(values@.push(content)) =~= texts_view(values@).push(content@));
        values.push(content);
        i += 1;
    }
    Ok(values)
}

/// The value of a column in a row.
fn find_value<'a>(columns: &Vec<Column>, values: &Vec<&'a str>, key: Column) -> (r: Option<
    &'a str,
>)
    requires
        columns@.len() == values@.len(),
    ensures
        match value_of(columns@, texts_view(values@), key) {
            Some(v) => r is Some && r.unwrap()@ == v,
            None => r is None,
        },
{
    let mut i: usize = columns.len();
    assert(columns@.take(i as int) =~= columns@);
    while i > 0
        invariant
            i <= columns@.len(),
            columns@.len() == values@.len(),
            value_of(columns@, texts_view(values@), key) == value_of(
                columns@.take(i as int),
                texts_view(values@),
                key,
            ),
        decreases i,
    {
        assert(columns@.take(i as int).drop_last() =~= columns@.take(i - 1));
        assert(columns@.take(i as int).last() == columns@[i - 1]);
        if columns[i - 1] == key {
            return Some(values[i - 1]);
        }
        i -= 1;
    }
    None
}

/// The view of a value that may be missing.
pub open spec fn text_view(value: Option<&str>) -> Option<Seq<char>> {
    match value {
        Some(v) => Some(v@),
        None => None,
    }
}

/// Adds the line of one column to a row that is being written.
fn push_field(out: &mut String, key: Column, value: Option<&str>)
    ensures
        final(out)@ == old(out)@ + field_line(key, text_view(value)),
{
    match value {
        None => {
            assert(out@ + Seq::<char>::empty() =~= out@);
        },
        Some(v) => {
            let ghost before = out@;
            let t = trim(v);
            let media = match key {
                Column::Video | Column::RecipePC | Column::RecipePS => true,
                _ => false,
            };
            let shown = if media && str_eq(t, "-") {
                proof {
                    reveal_strlit("");
                    assert(""@ =~= Seq::<char>::empty());
                }
                ""
            } else {
                t
            };
            out.append("|");
            out.append(key.name());
            out.append(" = ");
            out.append(shown);
            out.append("\n");
            assert(out@ =~= before + ("|"@ + key_name(key) + " = "@ + shown@ + "\n"@));
        },
    }
}

/// Writes the template call that stands for a data row.
fn render_row(columns: &Vec<Column>, values: &Vec<&str>) -> (out: String)
    requires
        columns@.len() == values@.len(),
    ensures
        out@ == row_text(columns@, texts_view(values@)),
{
    let mut out = String::from_str("|-\n{{GGST-ComboTableRow\n");
    let ghost head = out@;
    let mut place: usize = 0;
    assert(out@ =~= head + field_lines(columns@, texts_view(values@), 0));
    while place < 10
        invariant
            place <= 10,
            columns@.len() == values@.len(),
            head == "|-\n{{GGST-ComboTableRow\n"@,
            out@ == head + field_lines(columns@, texts_view(values@), place as int),
        decreases 10 - place,
    {
        let key = Column::at(place);
        let value = find_value(columns, values, key);
        push_field(&mut out, key, value);
        assert(out@ =~= head + field_lines(columns@, texts_view(values@), place + 1));
        place += 1;
    }
    out.append("|checkedVersion = \n");
    out.append("}}");
    out
}

/// The reshaper of combo tables: it turns the header row of a combo table into a header
/// marker and every data row into a template call that lists the row's values by
/// column key.
pub struct ComboTableVisitor {
    base_text: String,
    in_table: bool,
    skip_table: bool,
    column_order: Option<Vec<Column>>,
    replacements: Vec<Edit>,
    misfits: Vec<Misfit>,
}

/// The columns as a mathematical value.
pub open spec fn columns_view(columns: Option<Vec<Column>>) -> Option<Seq<Column>> {
    match columns {
        Some(c) => Some(c@),
        None => None,
    }
}

/// What a reshaper knows that has seen nothing yet.
pub open spec fn fresh() -> ComboState {
    ComboState {
        text: Seq::empty(),
        in_table: false,
        skip_table: false,
        columns: None,
        edits: Seq::empty(),
        misfits: Seq::empty(),
    }
}

impl ComboTableVisitor {
    /// A reshaper that has seen nothing yet.
    pub fn new() -> (r: Self)
        ensures
            r.model() == fresh(),
    {
        let r = ComboTableVisitor {
            base_text: String::new(),
            in_table: false,
            skip_table: false,
            column_order: None,
            replacements: Vec::new(),
            misfits: Vec::new(),
        };
        assert(edits_view(r.replacements@) =~= Seq::<EditView>::empty());
        r
    }

    /// Whether a row was met that did not fit its table's header.
    pub fn has_errors(&self) -> (r: bool)
        ensures
            r == (self.model().misfits.len() > 0),
    {
        self.misfits.len() > 0
    }

    /// The rows that did not fit the header of their table, in the order in which they
    /// were met.
    pub fn misfits(&self) -> (r: &Vec<Misfit>)
        ensures
            r@ == self.model().misfits,
    {
        &self.misfits
    }

    /// The rows that did not fit, handed over for good.
    pub fn into_misfits(self) -> (r: Vec<Misfit>)
        ensures
            r@ == self.model().misfits,
    {
        self.misfits
    }

    /// The columns of the table that was entered last, once its header was read.
    pub fn columns(&self) -> (r: &Option<Vec<Column>>)
        ensures
            columns_view(*r) == self.model().columns,
    {
        &self.column_order
    }
}

impl Default for ComboTableVisitor {
    fn default() -> (r: Self)
        ensures
            r.model() == fresh(),
    {
        ComboTableVisitor::new()
    }
}

impl WikiVisitor for ComboTableVisitor {
    type Model = ComboState;

    closed spec fn model(&self) -> ComboState {
        ComboState {
            text: self.base_text@,
            in_table: self.in_table,
            skip_table: self.skip_table,
            columns: columns_view(self.column_order),
            edits: edits_view(self.replacements@),
            misfits: self.misfits@,
        }
    }

    open spec fn with_text(m: ComboState, text: Seq<char>) -> Result<ComboState, RewriteError> {
        Ok(ComboState { text, ..m })
    }

    /// The edits are handed over only where no row is on record as a misfit.
    open spec fn edits_of(m: ComboState) -> Result<Seq<EditView>, RewriteError> {
        if m.misfits.len() > 0 {
            Err(RewriteError::ValidationFailed)
        } else {
            Ok(m.edits)
        }
    }

    open spec fn after_template(m: ComboState, node: Node) -> Result<ComboState, RewriteError> {
        Ok(m)
    }

    /// A table may not start inside a table; a new table has no columns yet.
    open spec fn after_table_start(m: ComboState, node: Node) -> Result<ComboState, RewriteError> {
        if m.in_table {
            Err(RewriteError::UnbalancedTable)
        } else {
            Ok(ComboState { in_table: true, skip_table: false, columns: None, ..m })
        }
    }

    open spec fn after_table_row(m: ComboState, row: TableRow) -> Result<ComboState, RewriteError> {
        row_step(m, row)
    }

    /// A table may end only where one has started.
    open spec fn after_table_end(m: ComboState, node: Node) -> Result<ComboState, RewriteError> {
        if !m.in_table {
            Err(RewriteError::UnbalancedTable)
        } else {
            Ok(ComboState { in_table: false, skip_table: false, ..m })
        }
    }

    open spec fn after_start_tag(m: ComboState, node: Node) -> Result<ComboState, RewriteError> {
        Ok(m)
    }

    open spec fn after_heading(m: ComboState, node: Node) -> Result<ComboState, RewriteError> {
        Ok(m)
    }

    fn set_base_text(&mut self, base_text: &str) -> (r: Result<(), RewriteError>) {
        self.base_text = String::from_str(base_text);
        Ok(())
    }

    fn get_replacements(&self) -> (r: Result<&Vec<Edit>, RewriteError>) {
        if self.misfits.len() > 0 {
            return Err(RewriteError::ValidationFailed);
        }
        Ok(&self.replacements)
    }

    fn visit_template(&mut self, node: &Node) -> (r: Result<(), RewriteError>) {
        Ok(())
    }

    fn visit_table_start(&mut self, node: &Node) -> (r: Result<(), RewriteError>) {
        if self.in_table {
            return Err(RewriteError::UnbalancedTable);
        }
        self.in_table = true;
        self.skip_table = false;
        self.column_order = None;
        Ok(())
    }

    fn visit_table_row(&mut self, row: &TableRow) -> (r: Result<(), RewriteError>) {
        let count = row.cells.len();
        if count == 0 || self.skip_table {
            return Ok(());
        }
        let out = match &self.column_order {
            None => {
                if count <= 3 {
                    return Ok(());
                }
                if !headings_only(&row.cells) {
                    return Err(RewriteError::HeaderExpected);
                }
                match read_header_row(self.base_text.as_str(), &row.cells)? {
                    None => {
                        self.skip_table = true;
                        return Ok(());
                    },
                    Some(order) => {
                        self.column_order = Some(order);
                        String::from_str("|-\n{{GGST-ComboTableHeader}}")
                    },
                }
            },
            Some(columns) => {
                if count != columns.len() {
                    self.misfits.push(
                        Misfit {
                            start: row.start,
                            end: row.end,
                            cells: count,
                            columns: columns.len(),
                        },
                    );
                    return Ok(());
                }
                let values = cell_values(self.base_text.as_str(), &row.cells)?;
                render_row(columns, &values)
            },
        };
        let ghost before = self.replacements@;
        let edit = Edit::new(out, row.start, row.end);
        self.replacements.push(edit);
        assert(edits_view(self.replacements@) =~= edits_view(before).push(edit@));
        Ok(())
    }

    fn visit_table_end(&mut self, node: &Node) -> (r: Result<(), RewriteError>) {
        if !self.in_table {
            return Err(RewriteError::UnbalancedTable);
        }
        self.skip_table = false;
        self.in_table = false;
        Ok(())
    }

    fn visit_start_tag(&mut self, node: &Node) -> (r: Result<(), RewriteError>) {
        Ok(())
    }

    fn visit_heading(&mut self, node: &Node) -> (r: Result<(), RewriteError>) {
        Ok(())
    }
}

/// Once a row is on record as a misfit, the reshaper hands over no edits, whatever it
/// is shown afterwards.
pub proof fn lemma_failure_keeps_edits_back(m: ComboState, nodes: Seq<Node>)
    requires
        m.misfits.len() > 0,
    ensures
        walk_nodes::<ComboTableVisitor>(m, nodes) matches Ok(after) ==> ComboTableVisitor::edits_of(
            after,
        ) == Err::<Seq<EditView>, RewriteError>(RewriteError::ValidationFailed),
{
    lemma_walk_keeps::<ComboTableVisitor>(|m: ComboState| m.misfits.len() > 0, m, nodes);
}

/// Every column has its place in the order in which a rewritten row lists them, so
/// that no value of a row is left over.
pub proof fn lemma_every_column_listed(key: Column)
    ensures
        exists|place: int| 0 <= place < 10 && listed(place) == key,
{
    match key {
        Column::Combo => assert(listed(0) == key),
        Column::Position => assert(listed(1) == key),
        Column::Damage => assert(listed(2) == key),
        Column::TensionGain => assert(listed(3) == key),
        Column::WorksOn => assert(listed(4) == key),
        Column::Difficulty => assert(listed(5) == key),
        Column::Notes => assert(listed(6) == key),
        Column::Video => assert(listed(7) == key),
        Column::RecipePC => assert(listed(8) == key),
        Column::RecipePS => assert(listed(9) == key),
    }
}

} // verus!
