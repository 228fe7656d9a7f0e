//! What is drawn on the screen, step by step.

use crate::layout::{Constraint, Rect};
use crate::style::{Line, LineView, Style, Text, TextView};
use vstd::prelude::*;

verus! {

/// A frame with borders on all sides.
pub struct Block {
    pub title: Option<Line>,
    pub style: Style,
}

/// What a frame holds.
#[verifier::ext_equal]
pub struct BlockView {
    pub title: Option<LineView>,
    pub style: Style,
}

impl View for Block {
    type V = BlockView;

    open spec fn view(&self) -> BlockView {
        BlockView {
            title: match self.title {
                Some(title) => Some(title@),
                None => None,
            },
            style: self.style,
        }
    }
}

/// On which side the lines of a paragraph begin.
#[derive(Clone, Copy, Debug, PartialEq, Eq, Structural)]
pub enum Alignment {
    Left,
    Center,
}

/// Some lines of text, with a frame around them or without.
pub struct Paragraph {
    pub text: Text,
    pub style: Style,
    pub alignment: Alignment,
    /// Whether lines that are too long go on in the next line, without the spaces at its
    /// beginning.
    pub wrap: bool,
    pub block: Option<Block>,
}

/// What a paragraph holds.
#[verifier::ext_equal]
pub struct ParagraphView {
    pub text: TextView,
    pub style: Style,
    pub alignment: Alignment,
    pub wrap: bool,
    pub block: Option<BlockView>,
}

impl View for Paragraph {
    type V = ParagraphView;

    open spec fn view(&self) -> ParagraphView {
        ParagraphView {
            text: self.text@,
            style: self.style,
            alignment: self.alignment,
            wrap: self.wrap,
            block: match self.block {
                Some(block) => Some(block@),
                None => None,
            },
        }
    }
}

/// One cell of a table.
pub struct Cell {
    pub text: Text,
    pub style: Style,
}

/// What a cell holds.
#[verifier::ext_equal]
pub struct CellView {
    pub text: TextView,
    pub style: Style,
}

impl View for Cell {
    type V = CellView;

    open spec fn view(&self) -> CellView {
        CellView { text: self.text@, style: self.style }
    }
}

/// What the cells of a list hold.
pub open spec fn cell_views(cells: Seq<Cell>) -> Seq<CellView> {
    cells.map_values(|cell: Cell| cell@)
}

/// One row of a table.
pub struct Row {
    pub cells: Vec<Cell>,
    pub style: Style,
}

/// What a row holds.
#[verifier::ext_equal]
pub struct RowView {
    pub cells: Seq<CellView>,
    pub style: Style,
}

impl View for Row {
    type V = RowView;

    open spec fn view(&self) -> RowView {
        RowView { cells: cell_views(self.cells@), style: self.style }
    }
}

/// What the rows of a list hold.
pub open spec fn row_views(rows: Seq<Row>) -> Seq<RowView> {
    rows.map_values(|row: Row| row@)
}

/// A table with a frame around it.
pub struct Table {
    pub header: Row,
    pub rows: Vec<Row>,
    pub widths: Vec<Constraint>,
    pub column_spacing: u16,
    pub block: Block,
}

/// What a table holds.
#[verifier::ext_equal]
pub struct TableView {
    pub header: RowView,
    pub rows: Seq<RowView>,
    pub widths: Seq<Constraint>,
    pub column_spacing: u16,
    pub block: BlockView,
}

impl View for Table {
    type V = TableView;

    open spec fn view(&self) -> TableView {
        TableView {
            header: self.header@,
            rows: row_views(self.rows@),
            widths: self.widths@,
            column_spacing: self.column_spacing,
            block: self.block@,
        }
    }
}

/// One thing that is drawn.
pub enum Widget {
    /// A style for all cells of the area.
    Fill(Style),
    /// Empty cells.
    Clear,
    Block(Block),
    Paragraph(Paragraph),
    Table(Table),
}

/// What a thing that is drawn holds.
#[verifier::ext_equal]
pub enum WidgetView {
    Fill(Style),
    Clear,
    Block(BlockView),
    Paragraph(ParagraphView),
    Table(TableView),
}

impl View for Widget {
    type V = WidgetView;

    open spec fn view(&self) -> WidgetView {
        match self {
            Widget::Fill(style) => WidgetView::Fill(*style),
            Widget::Clear => WidgetView::Clear,
            Widget::Block(block) => WidgetView::Block(block@),
            Widget::Paragraph(paragraph) => WidgetView::Paragraph(paragraph@),
            Widget::Table(table) => WidgetView::Table(table@),
        }
    }
}

/// One step of drawing: a thing and the area that it is drawn in.
pub struct Drawing {
    pub area: Rect,
    pub widget: Widget,
}

/// What a step of drawing holds.
#[verifier::ext_equal]
pub struct DrawingView {
    pub area: Rect,
    pub widget: WidgetView,
}

impl View for Drawing {
    type V = DrawingView;

    open spec fn view(&self) -> DrawingView {
        DrawingView { area: self.area, widget: self.widget@ }
    }
}

/// What the steps of a list hold.
pub open spec fn drawing_views(drawings: Seq<Drawing>) -> Seq<DrawingView> {
    drawings.map_values(|drawing: Drawing| drawing@)
}

} // verus!
