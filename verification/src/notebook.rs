//! Conversion of a notebook, cell by cell, into a Typst document.

use vstd::prelude::*;
use crate::diagnostic::{reports_view, Diagnostic};
use crate::markdown::{convert_markdown, md_document};
use crate::mdast::{Entries, MdNode, MdTree};
use crate::media::{
    count_images, fresh_session, image_count, media_steps, media_view, process_media, FileWrite,
    MediaItem, MediaValue, Session, SessionView,
};
use crate::text::{
    concat, concat_strings, join_strings, joined, push_signed_decimal, signed_decimal,
    strings_view,
};
use crate::typst_content::TypstContent;

verus! {

/// One output of a code cell.
#[derive(Debug, PartialEq, Eq)]
pub enum Output {
    /// Data to display, in one or more representations.
    DisplayData(Vec<MediaItem>),
    /// The result of the execution, in one or more representations.
    ExecuteResult(Vec<MediaItem>),
    /// Text written to a stream.
    Stream(String),
    /// An error, with the lines of its traceback.
    Error(Vec<String>),
}

/// A cell of a notebook. A Markdown cell holds its parsed source, and the
/// local path of each of its images that has one.
#[derive(Debug)]
pub enum Cell {
    Code { execution_count: Option<i32>, source: Vec<String>, outputs: Vec<Output> },
    Markdown { ast: MdNode, media: Vec<(String, String)> },
    Raw { source: Vec<String> },
}

/// The cells of a notebook, and the name of its language where it gives
/// one.
#[derive(Debug)]
pub struct NotebookData {
    pub language: Option<String>,
    pub cells: Vec<Cell>,
}

/// A notebook, in the current format or in an older one.
#[derive(Debug)]
pub enum Notebook {
    V4(NotebookData),
    Legacy(NotebookData),
}

/// The mathematical value of an [`Output`].
pub ghost enum OutputView {
    DisplayData(Seq<MediaValue>),
    ExecuteResult(Seq<MediaValue>),
    Stream(Seq<char>),
    Error(Seq<Seq<char>>),
}

/// The mathematical value of a [`Cell`].
pub ghost enum CellView {
    Code { execution_count: Option<i32>, source: Seq<Seq<char>>, outputs: Seq<OutputView> },
    Markdown { ast: MdTree, media: Entries },
    Raw { source: Seq<Seq<char>> },
}

/// The mathematical value of a [`NotebookData`].
pub ghost struct NotebookView {
    pub language: Option<Seq<char>>,
    pub cells: Seq<CellView>,
}

impl View for Output {
    type V = OutputView;

    open spec fn view(&self) -> OutputView {
        match self {
            Output::DisplayData(media) => OutputView::DisplayData(media_view(media@)),
            Output::ExecuteResult(media) => OutputView::ExecuteResult(media_view(media@)),
            Output::Stream(text) => OutputView::Stream(text@),
            Output::Error(traceback) => OutputView::Error(strings_view(traceback@)),
        }
    }
}

/// The values of a list of outputs.
pub open spec fn outputs_view(outputs: Seq<Output>) -> Seq<OutputView> {
    Seq::new(outputs.len(), |i: int| outputs[i]@)
}

impl View for Cell {
    type V = CellView;

    open spec fn view(&self) -> CellView {
        match self {
            Cell::Code { execution_count, source, outputs } => CellView::Code {
                execution_count: *execution_count,
                source: strings_view(source@),
                outputs: outputs_view(outputs@),
            },
            Cell::Markdown { ast, media } => CellView::Markdown {
                ast: ast@,
                media: media.deep_view(),
            },
            Cell::Raw { source } => CellView::Raw { source: strings_view(source@) },
        }
    }
}

/// The values of a list of cells.
pub open spec fn cells_view(cells: Seq<Cell>) -> Seq<CellView> {
    Seq::new(cells.len(), |i: int| cells[i]@)
}

impl View for NotebookData {
    type V = NotebookView;

    open spec fn view(&self) -> NotebookView {
        NotebookView {
            language: crate::typst_content::optional_text(self.language),
            cells: cells_view(self.cells@),
        }
    }
}

/// The language of a notebook: the one it names, or `text`.
pub open spec fn language_of(language: Option<Seq<char>>) -> Seq<char> {
    match language {
        Some(name) => name,
        None => "text"@,
    }
}

/// The markup of the source of a code cell: a code block with the source,
/// the language and the execution count.
pub open spec fn code_text(
    source: Seq<Seq<char>>,
    count: Option<i32>,
    language: Seq<char>,
) -> Seq<char> {
    "#code-block("@ + "\""@ + concat(source, source.len()) + "\", "@ + "lang: \""@ + language
        + "\", count: "@ + (match count {
        Some(count) => signed_decimal(count as int),
        None => "none"@,
    }) + ")\n"@
}

/// An output block with the given text.
pub open spec fn output_block(text: Seq<char>) -> Seq<char> {
    "#output-block(\""@ + text + "\")\n"@
}

/// The markup of one output, and the session after it.
pub open spec fn output_step(output: OutputView, s: SessionView) -> (Seq<char>, SessionView) {
    match output {
        OutputView::DisplayData(media) => media_steps(media, media.len(), s),
        OutputView::ExecuteResult(media) => media_steps(media, media.len(), s),
        OutputView::Stream(text) => (output_block(text), s),
        OutputView::Error(traceback) => (
            output_block(joined(traceback, "\n"@, traceback.len())),
            s,
        ),
    }
}

/// The markup of the first `n` outputs, and the session after them.
pub open spec fn output_steps(outputs: Seq<OutputView>, n: nat, s: SessionView) -> (
    Seq<char>,
    SessionView,
)
    decreases n,
{
    if n == 0 || n > outputs.len() {
        (Seq::empty(), s)
    } else {
        let (before, mid) = output_steps(outputs, (n - 1) as nat, s);
        let (last, after) = output_step(outputs[n - 1], mid);
        (before + last, after)
    }
}

/// The markup of one cell, and the session after it.
pub open spec fn cell_step(cell: CellView, language: Seq<char>, s: SessionView) -> (
    Seq<char>,
    SessionView,
) {
    match cell {
        CellView::Code { execution_count, source, outputs } => {
            let (text, after) = output_steps(outputs, outputs.len(), s);
            (code_text(source, execution_count, language) + text, after)
        },
        CellView::Markdown { ast, media } => {
            let out = md_document(ast, media);
            (
                out.text,
                SessionView { ids: s.ids, next: s.next, files: s.files, notes: s.notes + out.notes },
            )
        },
        CellView::Raw { source } => (joined(source, "\n"@, source.len()), s),
    }
}

/// What a cell contributes to the document: in the current format a block
/// around its markup, in the older one the markup alone.
pub open spec fn framed(text: Seq<char>, blocks: bool) -> Seq<char> {
    if blocks {
        "#block[\n"@ + text + "]\n"@
    } else {
        text
    }
}

/// The markup of the first `n` cells, and the session after them.
pub open spec fn cell_steps(
    cells: Seq<CellView>,
    n: nat,
    language: Seq<char>,
    blocks: bool,
    s: SessionView,
) -> (Seq<char>, SessionView)
    decreases n,
{
    if n == 0 || n > cells.len() {
        (Seq::empty(), s)
    } else {
        let (before, mid) = cell_steps(cells, (n - 1) as nat, language, blocks, s);
        let (last, after) = cell_step(cells[n - 1], language, mid);
        (before + framed(last, blocks), after)
    }
}

/// The document of a notebook, and the session after the conversion.
pub open spec fn notebook_steps(notebook: NotebookView, blocks: bool, s: SessionView) -> (
    Seq<char>,
    SessionView,
) {
    cell_steps(notebook.cells, notebook.cells.len(), language_of(notebook.language), blocks, s)
}

/// The number of images among the first `n` outputs.
pub open spec fn output_images(outputs: Seq<OutputView>, n: nat) -> nat
    decreases n,
{
    if n == 0 || n > outputs.len() {
        0
    } else {
        output_images(outputs, (n - 1) as nat) + (match outputs[n - 1] {
            OutputView::DisplayData(media) => image_count(media, media.len()),
            OutputView::ExecuteResult(media) => image_count(media, media.len()),
            _ => 0nat,
        })
    }
}

/// The number of images in the outputs of the first `n` cells.
pub open spec fn cell_images(cells: Seq<CellView>, n: nat) -> nat
    decreases n,
{
    if n == 0 || n > cells.len() {
        0
    } else {
        cell_images(cells, (n - 1) as nat) + (match cells[n - 1] {
            CellView::Code { outputs, .. } => output_images(outputs, outputs.len()),
            _ => 0nat,
        })
    }
}

/// `n`, or the largest number that fits where `n` is larger.
pub open spec fn capped(n: nat) -> nat {
    if n <= usize::MAX {
        n
    } else {
        usize::MAX as nat
    }
}

/// The sum of two numbers, up to the largest number that fits.
fn capped_sum(a: usize, b: usize) -> (sum: usize)
    ensures
        sum == capped((a + b) as nat),
{
    if a > usize::MAX - b {
        usize::MAX
    } else {
        a + b
    }
}

/// The number of images in the outputs of a notebook, up to the largest
/// number that fits.
pub fn count_notebook_images(notebook: &NotebookData) -> (count: usize)
    ensures
        count == capped(cell_images(notebook@.cells, notebook@.cells.len())),
{
    let ghost cells = notebook@.cells;
    let mut count: usize = 0;
    let mut i: usize = 0;
    while i < notebook.cells.len()
        invariant
            i <= notebook.cells.len(),
            cells == cells_view(notebook.cells@),
            count == capped(cell_images(cells, i as nat)),
        decreases notebook.cells.len() - i,
    {
        match &notebook.cells[i] {
            Cell::Code { outputs, .. } => {
                let ghost outs = outputs_view(outputs@);
                let ghost base = cell_images(cells, i as nat);
                let mut j: usize = 0;
                while j < outputs.len()
                    invariant
                        j <= outputs.len(),
                        outs == outputs_view(outputs@),
                        count == capped(base + output_images(outs, j as nat)),
                    decreases outputs.len() - j,
                {
                    match &outputs[j] {
                        Output::DisplayData(media) => {
                            count = capped_sum(count, count_images(media));
                        },
                        Output::ExecuteResult(media) => {
                            count = capped_sum(count, count_images(media));
                        },
                        _ => {},
                    }
                    j += 1;
                }
            },
            _ => {},
        }
        i += 1;
    }
    count
}

/// The markup of the source of a code cell.
pub fn parse_code(code: &Vec<String>, count: &Option<i32>, language: &str) -> (text: String)
    ensures
        text@ == code_text(strings_view(code@), *count, language@),
{
    let mut text = String::new();
    text.append("#code-block(");
    text.append("\"");
    let source = concat_strings(code);
    text.append(source.as_str());
    text.append("\", ");
    text.append("lang: \"");
    text.append(language);
    text.append("\", count: ");
    match count {
        Some(count) => {
            push_signed_decimal(&mut text, *count);
        },
        None => {
            text.append("none");
        },
    }
    text.append(")\n");
    assert(text@ =~= code_text(strings_view(code@), *count, language@));
    text
}

/// An output block with the given text.
fn block_of(body: &str) -> (text: String)
    ensures
        text@ == output_block(body@),
{
    let mut text = String::new();
    text.append("#output-block(\"");
    text.append(body);
    text.append("\")\n");
    assert(text@ =~= output_block(body@));
    text
}

/// The markup of the outputs of a code cell.
pub fn parse_output(outputs: &Vec<Output>, session: &mut Session) -> (text: String)
    ensures
        text@ == output_steps(outputs_view(outputs@), outputs.len() as nat, old(session)@).0,
        final(session)@ == output_steps(
            outputs_view(outputs@),
            outputs.len() as nat,
            old(session)@,
        ).1,
{
    let ghost outs = outputs_view(outputs@);
    let mut text = String::new();
    let mut i: usize = 0;
    while i < outputs.len()
        invariant
            i <= outputs.len(),
            outs == outputs_view(outputs@),
            text@ == output_steps(outs, i as nat, old(session)@).0,
            session@ == output_steps(outs, i as nat, old(session)@).1,
        decreases outputs.len() - i,
    {
        let piece = match &outputs[i] {
            Output::DisplayData(media) => process_media(media, session),
            Output::ExecuteResult(media) => process_media(media, session),
            Output::Stream(body) => block_of(body.as_str()),
            Output::Error(traceback) => {
                let body = join_strings(traceback, "\n");
                block_of(body.as_str())
            },
        };
        text.append(piece.as_str());
        i += 1;
    }
    text
}

/// The markup of one cell.
pub fn convert_cell(cell: &Cell, language: &str, session: &mut Session) -> (text: String)
    ensures
        text@ == cell_step(cell@, language@, old(session)@).0,
        final(session)@ == cell_step(cell@, language@, old(session)@).1,
{
    match cell {
        Cell::Code { execution_count, source, outputs } => {
            let mut text = parse_code(source, execution_count, language);
            let results = parse_output(outputs, session);
            text.append(results.as_str());
            text
        },
        Cell::Markdown { ast, media } => {
            let markup = convert_markdown(ast, media);
            let mut reports = markup.diagnostics;
            let ghost added = reports_view(reports@);
            let ghost before = reports_view(session.diagnostics@);
            session.diagnostics.append(&mut reports);
            assert(reports_view(session.diagnostics@) =~= before + added);
            assert(session@ =~= cell_step(cell@, language@, old(session)@).1);
            markup.text
        },
        Cell::Raw { source } => join_strings(source, "\n"),
    }
}

/// The document of the cells of a notebook, each in a block or not.
pub fn convert_cells(notebook: &NotebookData, blocks: bool, session: &mut Session) -> (content:
    TypstContent)
    ensures
        content.content@ == notebook_steps(notebook@, blocks, old(session)@).0,
        final(session)@ == notebook_steps(notebook@, blocks, old(session)@).1,
{
    let language: &str = match &notebook.language {
        Some(name) => name.as_str(),
        None => "text",
    };
    let ghost cells = notebook@.cells;
    let mut result = String::new();
    let mut i: usize = 0;
    while i < notebook.cells.len()
        invariant
            i <= notebook.cells.len(),
            cells == cells_view(notebook.cells@),
            language@ == language_of(notebook@.language),
            result@ == cell_steps(cells, i as nat, language@, blocks, old(session)@).0,
            session@ == cell_steps(cells, i as nat, language@, blocks, old(session)@).1,
        decreases notebook.cells.len() - i,
    {
        let ghost before = result@;
        let text = convert_cell(&notebook.cells[i], language, session);
        if blocks {
            result.append("#block[\n");
            result.append(text.as_str());
            result.append("]\n");
            assert(result@ =~= before + framed(text@, blocks));
        } else {
            result.append(text.as_str());
        }
        i += 1;
    }
    TypstContent { content: result }
}

/// Converts a notebook in the current format: every cell goes into a block
/// of its own.
pub fn convert_v4_notebook(notebook: &NotebookData, session: &mut Session) -> (content:
    TypstContent)
    ensures
        content.content@ == notebook_steps(notebook@, true, old(session)@).0,
        final(session)@ == notebook_steps(notebook@, true, old(session)@).1,
{
    convert_cells(notebook, true, session)
}

/// Converts a notebook in an older format: the cells follow each other as
/// they are.
pub fn convert_legacy_notebook(notebook: &NotebookData, session: &mut Session) -> (content:
    TypstContent)
    ensures
        content.content@ == notebook_steps(notebook@, false, old(session)@).0,
        final(session)@ == notebook_steps(notebook@, false, old(session)@).1,
{
    convert_cells(notebook, false, session)
}

/// The cells and language of a notebook, whatever its format.
pub open spec fn data_of(notebook: Notebook) -> NotebookView {
    match notebook {
        Notebook::V4(data) => data@,
        Notebook::Legacy(data) => data@,
    }
}

/// A converted notebook: the document, the files to be written into the
/// download directory, and the reports about what was left out.
#[derive(Debug)]
pub struct Conversion {
    pub content: TypstContent,
    pub files: Vec<FileWrite>,
    pub diagnostics: Vec<Diagnostic>,
}

/// Converts a notebook with the identifiers of the given session.
pub fn convert_notebook_with(notebook: &Notebook, session: &mut Session) -> (content:
    TypstContent)
    ensures
        content.content@ == notebook_steps(
            data_of(*notebook),
            notebook is V4,
            old(session)@,
        ).0,
        final(session)@ == notebook_steps(data_of(*notebook), notebook is V4, old(session)@).1,
{
    match notebook {
        Notebook::V4(data) => convert_v4_notebook(data, session),
        Notebook::Legacy(data) => convert_legacy_notebook(data, session),
    }
}

/// Whether `conversion` is what the notebook converts to with exactly the
/// identifiers `ids` held ready, one for each image of its outputs.
pub open spec fn converted_with(
    notebook: Notebook,
    ids: Seq<Seq<char>>,
    conversion: Conversion,
) -> bool {
    let data = data_of(notebook);
    let end = notebook_steps(data, notebook is V4, fresh_session(ids));
    &&& ids.len() == capped(cell_images(data.cells, data.cells.len()))
    &&& conversion.content.content@ == end.0
    &&& crate::media::files_view(conversion.files@) == end.1.files
    &&& reports_view(conversion.diagnostics@) == end.1.notes
}

/// Converts a notebook to Typst. Each image of its outputs becomes a file
/// under a random identifier: the result is that of a conversion with as
/// many identifiers held ready as the outputs have images.
pub fn convert_notebook(notebook: &Notebook) -> (conversion: Conversion)
    ensures
        exists|ids: Seq<Seq<char>>| #[trigger] converted_with(*notebook, ids, conversion),
{
    let count = match notebook {
        Notebook::V4(data) => count_notebook_images(data),
        Notebook::Legacy(data) => count_notebook_images(data),
    };
    let mut session = Session::with_fresh_ids(count);
    let ghost start = session@;
    let content = convert_notebook_with(notebook, &mut session);
    let conversion = Conversion { content, files: session.files, diagnostics: session.diagnostics };
    proof {
        let ids = choose|ids: Seq<Seq<char>>| ids.len() == count && start == fresh_session(ids);
        assert(converted_with(*notebook, ids, conversion));
    }
    conversion
}

} // verus!
