//! The words of a printed invoice: who bills, when it is due, what each line
//! costs. Laying them out on paper is left to the renderer.

use vstd::prelude::*;
use vstd::string::*;
use crate::calendar::{day_number, long_date_text, parse_day_number, write_long_date};
use crate::database::{Artist, Invoice, Project, Store, StoreError, opt_text};
use crate::model::{ArtistView, InvoiceView, ProjectView};
use crate::page::{
    LINE_STEP, MARGIN, Mark, MarkView, PAGE_WIDTH, RIGHT_COLUMN, ROW, amount_mark, column_marks,
    line_mark, push_amount, push_column, push_line, push_row, push_text, row_marks, text_mark,
};
use crate::text::{
    group_marks, grouped, lines_of, pieces, signed_decimal, signed_marks, spell, split_newlines,
    text_lines, two_wide,
};

verus! {

/// One line of an invoice. `amount_bits` carries the amount as the bit
/// pattern of an IEEE 754 double.
#[derive(Debug)]
pub struct LineItem {
    pub description: String,
    pub amount_bits: u64,
}

pub struct LineItemView {
    pub description: Seq<char>,
    pub amount_bits: u64,
}

impl View for LineItem {
    type V = LineItemView;

    open spec fn view(&self) -> LineItemView {
        LineItemView { description: self.description@, amount_bits: self.amount_bits }
    }
}

impl DeepView for LineItem {
    type V = LineItemView;

    open spec fn deep_view(&self) -> LineItemView {
        self@
    }
}

/// All that one printed invoice shows.
#[derive(Debug)]
pub struct InvoiceData {
    pub invoice: Invoice,
    pub artist: Artist,
    pub project: Option<Project>,
    pub line_items: Vec<LineItem>,
}

pub struct InvoiceDataView {
    pub invoice: InvoiceView,
    pub artist: ArtistView,
    pub project: Option<ProjectView>,
    pub line_items: Seq<LineItemView>,
}

impl View for InvoiceData {
    type V = InvoiceDataView;

    open spec fn view(&self) -> InvoiceDataView {
        InvoiceDataView {
            invoice: self.invoice@,
            artist: self.artist@,
            project: match self.project {
                Some(p) => Some(p@),
                None => None,
            },
            line_items: self.line_items.deep_view(),
        }
    }
}

/// All that the invoice `invoice_id` is printed from: the invoice, its
/// artist, its project if it has one, and the line items handed in.
pub open spec fn invoice_data_of(
    store: crate::model::StoreView,
    invoice_id: Seq<char>,
    line_items: Seq<LineItemView>,
) -> InvoiceDataView {
    let invoice = store.invoice(invoice_id);
    InvoiceDataView {
        invoice: invoice,
        artist: store.artist(invoice.artist_id),
        project: match invoice.project_id {
            Some(id) => Some(store.project(id)),
            None => None,
        },
        line_items: line_items,
    }
}

/// Gathers what an invoice is printed from. Fails if no invoice has the id.
pub fn invoice_data(store: &Store, invoice_id: &String, line_items: Vec<LineItem>) -> (result:
    Result<InvoiceData, StoreError>)
    requires
        store@.wf(),
    ensures
        match result {
            Ok(data) => store@.has_invoice(invoice_id@) && data@ == invoice_data_of(
                store@,
                invoice_id@,
                line_items.deep_view(),
            ),
            Err(e) => e == StoreError::NotFound && !store@.has_invoice(invoice_id@),
        },
{
    let invoice = match store.get_invoice(invoice_id) {
        Some(invoice) => invoice,
        None => {
            return Err(StoreError::NotFound);
        },
    };
    proof {
        let k = store@.invoice_index(invoice_id@);
        assert(store@.has_artist(store@.invoices[k].artist_id));
        assert(store@.invoices[k].project_id matches Some(p) ==> store@.has_project(p));
    }
    let artist = match store.get_artist(&invoice.artist_id) {
        Some(artist) => artist,
        None => {
            return Err(StoreError::NotFound);
        },
    };
    let project = match &invoice.project_id {
        Some(id) => store.get_project(id),
        None => None,
    };
    Ok(InvoiceData { invoice, artist, project, line_items })
}

/// Why an invoice cannot be laid out.
#[derive(Debug, Clone, Copy, PartialEq, Eq, Structural)]
pub enum LayoutError {
    /// The line items reach further down than places can be counted.
    TooLong,
}

/// Whether a character is white space, as Unicode defines it.
pub open spec fn is_space(c: char) -> bool {
    let u = c as u32;
    ||| 0x09 <= u <= 0x0D
    ||| u == 0x20
    ||| u == 0x85
    ||| u == 0xA0
    ||| u == 0x1680
    ||| 0x2000 <= u <= 0x200A
    ||| u == 0x2028
    ||| u == 0x2029
    ||| u == 0x202F
    ||| u == 0x205F
    ||| u == 0x3000
}

/// Whether a text holds nothing but white space.
pub open spec fn is_blank(text: Seq<char>) -> bool {
    forall|i: int| 0 <= i < text.len() ==> is_space(#[trigger] text[i])
}

/// Decides `is_space`.
pub fn space(c: char) -> (yes: bool)
    ensures
        yes == is_space(c),
{
    let u: u32 = c as u32;
    (0x09 <= u && u <= 0x0D) || u == 0x20 || u == 0x85 || u == 0xA0 || u == 0x1680 || (0x2000 <= u
        && u <= 0x200A) || u == 0x2028 || u == 0x2029 || u == 0x202F || u == 0x205F || u == 0x3000
}

/// Decides `is_blank`.
pub fn blank(text: &str) -> (yes: bool)
    ensures
        yes == is_blank(text@),
{
    let n = text.unicode_len();
    let mut i: usize = 0;
    while i < n
        invariant
            i <= n,
            n == text@.len(),
            forall|k: int| 0 <= k < i ==> is_space(#[trigger] text@[k]),
        decreases n - i,
    {
        if !space(text.get_char(i)) {
            return false;
        }
        i = i + 1;
    }
    true
}

/// The name under which an artist bills: the artist's name, followed by the
/// company after " / " where a company is given and not blank.
pub open spec fn heading_text(name: Seq<char>, company_name: Option<Seq<char>>) -> Seq<char> {
    match company_name {
        Some(company) => if is_blank(company) {
            name
        } else {
            name + " / "@ + company
        },
        None => name,
    }
}

/// The name under which an artist bills.
pub fn artist_heading(artist: &Artist) -> (heading: String)
    ensures
        heading@ == heading_text(artist@.name, artist@.company_name),
{
    match &artist.company_name {
        Some(company) => {
            if blank(company.as_str()) {
                artist.name.clone()
            } else {
                let mut heading = artist.name.clone();
                heading.append(" / ");
                heading.append(company.as_str());
                heading
            }
        },
        None => artist.name.clone(),
    }
}

/// An amount of money in words: a dollar sign, the whole part with its
/// numeral cut into groups of three by commas, a point, and the cents at
/// least two characters wide.
pub open spec fn currency_text(whole: int, cents: int) -> Seq<char> {
    seq!['$'] + grouped(signed_decimal(whole)) + seq!['.'] + two_wide(signed_decimal(cents))
}

/// Writes an amount of money, given its whole part and its cents.
pub fn format_currency(whole: i64, cents: i64) -> (text: String)
    ensures
        text@ == currency_text(whole as int, cents as int),
{
    proof {
        reveal_strlit("$");
        reveal_strlit(".");
        reveal_strlit("0");
    }
    let whole_marks = group_marks(&signed_marks(whole));
    let cent_marks = signed_marks(cents);
    let mut text = String::from_str("$");
    text.append(spell(&whole_marks).as_str());
    text.append(".");
    if cent_marks.len() < 2 {
        text.append("0");
    }
    text.append(spell(&cent_marks).as_str());
    assert(text@ =~= currency_text(whole as int, cents as int));
    text
}

/// The days from one date to another, each spelled as year-month-day; zero
/// where either is no date.
pub open spec fn days_between(start: Seq<char>, end: Seq<char>) -> int {
    match (day_number(start), day_number(end)) {
        (Some(a), Some(b)) => b - a,
        _ => 0,
    }
}

/// Counts the days from one date to another.
pub fn calculate_days_difference(start_date: &str, end_date: &str) -> (days: i64)
    ensures
        days == days_between(start_date@, end_date@),
{
    match (parse_day_number(start_date), parse_day_number(end_date)) {
        (Some(start), Some(end)) => end as i64 - start as i64,
        _ => 0,
    }
}

/// The terms of payment in words: "Upon Receipt" where the invoice is due on
/// the day of issue, else "Net" and the number of days.
pub open spec fn due_text(same_day: bool, days: int) -> Seq<char> {
    if same_day || days == 0 {
        "Upon Receipt"@
    } else {
        "Net "@ + signed_decimal(days)
    }
}

/// Writes the terms of payment for an invoice that is due `days` days after
/// its issue; `same_day` says that both dates read alike.
pub fn due_terms_after(same_day: bool, days: i64) -> (text: String)
    ensures
        text@ == due_text(same_day, days as int),
{
    if same_day || days == 0 {
        String::from_str("Upon Receipt")
    } else {
        let mut text = String::from_str("Net ");
        text.append(spell(&signed_marks(days)).as_str());
        text
    }
}

/// Writes the terms of payment for an invoice, given its dates of issue and
/// of payment.
pub fn due_terms(issue_date: &String, due_date: &String) -> (text: String)
    ensures
        text@ == due_text(issue_date@ == due_date@, days_between(issue_date@, due_date@)),
{
    let same_day = *due_date == *issue_date;
    let days = if same_day {
        0
    } else {
        calculate_days_difference(issue_date.as_str(), due_date.as_str())
    };
    due_terms_after(same_day, days)
}

/// A date in words: day, month name and year where the text spells a date
/// as year-month-day, else the text as it stands.
pub open spec fn date_text(date: Seq<char>) -> Seq<char> {
    match day_number(date) {
        Some(day) => match long_date_text(day) {
            Some(words) => words,
            None => date,
        },
        None => date,
    }
}

/// Puts into words what was read of a date: the words if any were written,
/// else the text as it stands.
pub fn date_or_text(words: Option<String>, date_str: &str) -> (text: String)
    ensures
        text@ == match words {
            Some(w) => w@,
            None => date_str@,
        },
{
    match words {
        Some(w) => w,
        None => String::from_str(date_str),
    }
}

/// Writes a date in words.
pub fn format_date(date_str: &str) -> (text: String)
    ensures
        text@ == date_text(date_str@),
{
    let words = match parse_day_number(date_str) {
        Some(day) => write_long_date(day),
        None => None,
    };
    date_or_text(words, date_str)
}

/// The first `limit` lines of a text, or all of them where it has fewer.
pub open spec fn first_lines(text: Seq<char>, limit: nat) -> Seq<Seq<char>> {
    if text_lines(text).len() <= limit {
        text_lines(text)
    } else {
        text_lines(text).take(limit as int)
    }
}

/// Cuts a text into lines and keeps the first `limit` of them.
pub fn first_lines_of(text: &str, limit: usize) -> (lines: Vec<String>)
    ensures
        lines.deep_view() == first_lines(text@, limit as nat),
        lines@.len() <= limit,
{
    let mut lines = lines_of(text);
    let ghost all = lines.deep_view();
    assert(all.len() == lines@.len());
    if lines.len() > limit {
        lines.truncate(limit);
        assert(lines.deep_view() =~= all.take(limit as int));
    }
    lines
}

/// A field as it is printed: its text, unless it is missing or blank.
pub open spec fn shown_text(value: Option<Seq<char>>) -> Option<Seq<char>> {
    match value {
        Some(text) => if is_blank(text) {
            None
        } else {
            Some(text)
        },
        None => None,
    }
}

/// A field as it is printed: its text, unless it is missing or blank.
pub fn shown(value: &Option<String>) -> (text: Option<String>)
    ensures
        opt_text(text) == shown_text(opt_text(*value)),
{
    match value {
        Some(text) => {
            if blank(text.as_str()) {
                None
            } else {
                Some(text.clone())
            }
        },
        None => None,
    }
}

/// The lines printed of an address: the first three, none of a blank address.
pub open spec fn address_text(address: Option<Seq<char>>) -> Seq<Seq<char>> {
    match shown_text(address) {
        Some(text) => first_lines(text, 3),
        None => Seq::empty(),
    }
}

/// The lines printed of an artist's address.
pub fn address_lines(artist: &Artist) -> (lines: Vec<String>)
    ensures
        lines.deep_view() == address_text(artist@.address),
        lines@.len() <= 3,
{
    match &artist.address {
        Some(text) => {
            if blank(text.as_str()) {
                let lines: Vec<String> = Vec::new();
                assert(lines.deep_view() =~= Seq::empty());
                lines
            } else {
                first_lines_of(text.as_str(), 3)
            }
        },
        None => {
            let lines: Vec<String> = Vec::new();
            assert(lines.deep_view() =~= Seq::empty());
            lines
        },
    }
}

/// The lines printed under "BILL TO": the first four of the text given,
/// none of a blank text, and a stand-in where no text is given.
pub open spec fn bill_to_text(bill_to: Option<Seq<char>>) -> Seq<Seq<char>> {
    match bill_to {
        Some(text) => if is_blank(text) {
            Seq::empty()
        } else {
            first_lines(text, 4)
        },
        None => seq!["[Client Name]"@],
    }
}

/// The lines printed under "BILL TO".
pub fn bill_to_lines(invoice: &Invoice) -> (lines: Vec<String>)
    ensures
        lines.deep_view() == bill_to_text(invoice@.bill_to),
        lines@.len() <= 4,
{
    match &invoice.bill_to {
        Some(text) => {
            if blank(text.as_str()) {
                let lines: Vec<String> = Vec::new();
                assert(lines.deep_view() =~= Seq::empty());
                lines
            } else {
                first_lines_of(text.as_str(), 4)
            }
        },
        None => {
            let mut lines: Vec<String> = Vec::new();
            lines.push(String::from_str("[Client Name]"));
            assert(lines.deep_view() =~= seq!["[Client Name]"@]);
            lines
        },
    }
}

/// The lines printed under "PAYMENT DETAILS": of the first four lines of
/// the wire details those that are not blank; nothing at all, not even the
/// heading, where the details are missing or blank.
pub open spec fn payment_text(wire_details: Option<Seq<char>>) -> Option<Seq<Seq<char>>> {
    match shown_text(wire_details) {
        Some(text) => Some(first_lines(text, 4).filter(|line: Seq<char>| !is_blank(line))),
        None => None,
    }
}

/// The lines printed under "PAYMENT DETAILS", if the heading is printed.
pub fn payment_lines(artist: &Artist) -> (lines: Option<Vec<String>>)
    ensures
        match lines {
            Some(kept) => payment_text(artist@.wire_details) == Some(kept.deep_view())
                && kept@.len() <= 4,
            None => payment_text(artist@.wire_details) is None,
        },
{
    match &artist.wire_details {
        Some(text) => {
            if blank(text.as_str()) {
                None
            } else {
                let first = first_lines_of(text.as_str(), 4);
                let ghost all = first.deep_view();
                let ghost inked = |line: Seq<char>| !is_blank(line);
                let mut kept: Vec<String> = Vec::new();
                let mut i: usize = 0;
                assert(all.take(0) =~= Seq::empty());
                assert(all.take(0).filter(inked) =~= Seq::empty()) by {
                    reveal(Seq::filter);
                }
                assert(kept.deep_view() =~= Seq::empty());
                while i < first.len()
                    invariant
                        i <= first.len(),
                        all == first.deep_view(),
                        inked == |line: Seq<char>| !is_blank(line),
                        kept@.len() <= i,
                        kept.deep_view() == all.take(i as int).filter(inked),
                    decreases first.len() - i,
                {
                    let ghost before = kept.deep_view();
                    assert(all.take(i + 1) =~= all.take(i as int).push(all[i as int]));
                    proof {
                        all.take(i as int).lemma_filter_push(all[i as int], inked);
                    }
                    if !blank(first[i].as_str()) {
                        kept.push(first[i].clone());
                        assert(kept.deep_view() =~= before.push(all[i as int]));
                    }
                    i = i + 1;
                }
                assert(all.take(i as int) =~= all);
                Some(kept)
            }
        },
        None => None,
    }
}

/// The lines in which the description of a line item is printed: the
/// description cut at every newline. Each line takes one row of text.
pub fn description_lines(item: &LineItem) -> (lines: Vec<String>)
    ensures
        lines.deep_view() == pieces(item.description@),
        lines@.len() >= 1,
{
    proof {
        crate::text::lemma_pieces_nonempty(item.description@);
    }
    split_newlines(item.description.as_str())
}

/// The title of the document of an invoice.
pub fn document_title(invoice: &Invoice) -> (title: String)
    ensures
        title@ == "Invoice "@ + invoice@.invoice_number,
{
    let mut title = String::from_str("Invoice ");
    title.append(invoice.invoice_number.as_str());
    title
}

/// The invoice number as it is printed, behind a number sign.
pub fn number_label(invoice: &Invoice) -> (label: String)
    ensures
        label@ == "#"@ + invoice@.invoice_number,
{
    let mut label = String::from_str("#");
    label.append(invoice.invoice_number.as_str());
    label
}

/// The upper edge of the first row of line items.
pub const FIRST_ITEM: i64 = 5720;

/// How far the last marks of the table reach below the line items: the
/// rows of the terms and of the total.
pub const CLOSING: i64 = 800;

/// The height of the row of a line item: one row, and a line step for every
/// further line of its description.
pub open spec fn row_height(description: Seq<char>) -> int {
    ROW + LINE_STEP * (pieces(description).len() - 1)
}

/// Where the line items end: the upper edge of the row that would follow
/// the last of them.
pub open spec fn items_bottom(items: Seq<LineItemView>) -> int
    decreases items.len(),
{
    if items.len() == 0 {
        FIRST_ITEM as int
    } else {
        items_bottom(items.drop_last()) - row_height(items.last().description)
    }
}

/// The marks of one line item whose row starts at `y`: the frame of a row,
/// the description line by line, the first line a point higher than the
/// others, and the amount beside the first line.
pub open spec fn item_marks(item: LineItemView, y: int) -> Seq<MarkView> {
    (row_marks(y) + column_marks(
        pieces(item.description),
        11,
        10,
        MARGIN as int,
        y - LINE_STEP,
        LINE_STEP as int,
    )).push(amount_mark(item.amount_bits, 11, RIGHT_COLUMN as int, y - LINE_STEP, false))
}

/// The marks of the line items, each row starting where the one before ends.
pub open spec fn items_marks(items: Seq<LineItemView>) -> Seq<MarkView>
    decreases items.len(),
{
    if items.len() == 0 {
        Seq::empty()
    } else {
        items_marks(items.drop_last()) + item_marks(
            items.last(),
            items_bottom(items.drop_last()),
        )
    }
}

/// E-mail address and telephone number, one under the other from `y`
/// downwards, each only where it is shown.
pub open spec fn contact_marks(
    email: Option<Seq<char>>,
    phone: Option<Seq<char>>,
    y: int,
) -> Seq<MarkView> {
    let first = match email {
        Some(text) => seq![text_mark(text, 10, MARGIN as int, y, false)],
        None => Seq::empty(),
    };
    let below = if email is Some {
        y - LINE_STEP
    } else {
        y
    };
    let second = match phone {
        Some(text) => seq![text_mark(text, 10, MARGIN as int, below, false)],
        None => Seq::empty(),
    };
    first + second
}

/// Who bills, at the upper left: the heading, the address and how to reach
/// the artist.
pub open spec fn sender_marks(artist: ArtistView) -> Seq<MarkView> {
    let address = address_text(artist.address);
    seq![text_mark(heading_text(artist.name, artist.company_name), 16, MARGIN as int, 7920, true)]
        + column_marks(address, 10, 10, MARGIN as int, 7720, LINE_STEP as int) + contact_marks(
        shown_text(artist.email),
        shown_text(artist.phone),
        7720 - LINE_STEP * address.len(),
    )
}

/// What is billed and to whom: the word "INVOICE", the number and the date
/// of issue, at the upper right, and the addressee under "BILL TO:".
pub open spec fn subject_marks(invoice: InvoiceView) -> Seq<MarkView> {
    seq![
        text_mark("INVOICE"@, 20, RIGHT_COLUMN as int, 7920, true),
        text_mark("#"@ + invoice.invoice_number, 12, RIGHT_COLUMN as int, 7620, true),
        text_mark(date_text(invoice.issue_date), 12, RIGHT_COLUMN as int, 7420, false),
        text_mark("BILL TO:"@, 10, MARGIN as int, 6820, true),
    ] + column_marks(bill_to_text(invoice.bill_to), 10, 10, MARGIN as int, 6670, LINE_STEP as int)
}

/// The head of the table: a row with the titles of its two columns.
pub open spec fn table_head_marks() -> Seq<MarkView> {
    row_marks(6020) + seq![
        text_mark("ITEM"@, 12, MARGIN as int, 5870, true),
        text_mark("COST"@, 12, RIGHT_COLUMN as int, 5870, true),
    ]
}

/// The head of the page, down to the head of the table.
pub open spec fn head_marks(data: InvoiceDataView) -> Seq<MarkView> {
    sender_marks(data.artist) + subject_marks(data.invoice) + table_head_marks()
}

/// The row of the terms of payment, with its upper edge at `y`.
pub open spec fn due_marks(invoice: InvoiceView, y: int) -> Seq<MarkView> {
    row_marks(y) + seq![
        text_mark("Due"@, 12, MARGIN as int, y - LINE_STEP, true),
        text_mark(
            due_text(
                invoice.issue_date == invoice.due_date,
                days_between(invoice.issue_date, invoice.due_date),
            ),
            11,
            RIGHT_COLUMN as int,
            y - LINE_STEP,
            false,
        ),
    ]
}

/// The row of the total, with its upper edge at `y`.
pub open spec fn total_marks(invoice: InvoiceView, y: int) -> Seq<MarkView> {
    row_marks(y) + seq![
        text_mark("Total"@, 12, MARGIN as int, y - LINE_STEP, true),
        amount_mark(invoice.amount_bits, 12, RIGHT_COLUMN as int, y - LINE_STEP, true),
    ]
}

/// The end of the table, a gap below the line items that end at `bottom`:
/// the row of the terms of payment and the row of the total.
pub open spec fn closing_marks(data: InvoiceDataView, bottom: int) -> Seq<MarkView> {
    due_marks(data.invoice, bottom - 200) + total_marks(data.invoice, bottom - 200 - ROW)
}

/// The foot of the page: a rule, and under it the payment details where the
/// artist has given any.
pub open spec fn foot_marks(data: InvoiceDataView) -> Seq<MarkView> {
    seq![line_mark(MARGIN as int, 1200, PAGE_WIDTH - MARGIN, 1200)] + (match payment_text(
        data.artist.wire_details,
    ) {
        Some(lines) => seq![text_mark("PAYMENT DETAILS"@, 10, 2575, 1000, true)] + column_marks(
            lines,
            8,
            8,
            MARGIN as int,
            850,
            120,
        ),
        None => Seq::empty(),
    })
}

/// All marks of the invoice, in the order in which they are drawn.
pub open spec fn invoice_marks(data: InvoiceDataView) -> Seq<MarkView> {
    head_marks(data) + items_marks(data.line_items) + closing_marks(
        data,
        items_bottom(data.line_items),
    ) + foot_marks(data)
}

/// Whether the table ends at a place that can still be counted.
pub open spec fn page_fits(data: InvoiceDataView) -> bool {
    items_bottom(data.line_items) - CLOSING >= i64::MIN
}

/// Every further line item ends the table further down.
pub proof fn lemma_bottom_descends(items: Seq<LineItemView>, k: int)
    requires
        0 <= k <= items.len(),
    ensures
        items_bottom(items) <= items_bottom(items.take(k)),
    decreases items.len(),
{
    if k == items.len() {
        assert(items.take(k) =~= items);
    } else {
        crate::text::lemma_pieces_nonempty(items.last().description);
        assert(LINE_STEP * (pieces(items.last().description).len() - 1) >= 0) by (nonlinear_arith)
            requires
                pieces(items.last().description).len() >= 1,
        ;
        lemma_bottom_descends(items.drop_last(), k);
        assert(items.drop_last().take(k) =~= items.take(k));
    }
}

/// Lays out who bills.
fn lay_sender(marks: &mut Vec<Mark>, artist: &Artist)
    ensures
        final(marks).deep_view() == old(marks).deep_view() + sender_marks(artist@),
{
    let ghost before = marks.deep_view();
    push_text(marks, artist_heading(artist), 16, MARGIN, 7920, true);
    let address = address_lines(artist);
    push_column(marks, &address, 10, 10, MARGIN, 7720, LINE_STEP);
    let top: i64 = 7720 - LINE_STEP * (address.len() as i64);
    let ghost so_far = marks.deep_view();
    assert(so_far =~= before + (seq![
        text_mark(heading_text(artist@.name, artist@.company_name), 16, MARGIN as int, 7920, true),
    ] + column_marks(
        address_text(artist@.address),
        10,
        10,
        MARGIN as int,
        7720,
        LINE_STEP as int,
    )));
    let email = shown(&artist.email);
    let phone = shown(&artist.phone);
    let below: i64 = if email.is_some() {
        top - LINE_STEP
    } else {
        top
    };
    match email {
        Some(text) => {
            push_text(marks, text, 10, MARGIN, top, false);
        },
        None => {},
    }
    match phone {
        Some(text) => {
            push_text(marks, text, 10, MARGIN, below, false);
        },
        None => {},
    }
    assert(marks.deep_view() =~= so_far + contact_marks(
        shown_text(artist@.email),
        shown_text(artist@.phone),
        top as int,
    ));
    assert(marks.deep_view() =~= before + sender_marks(artist@));
}

/// Lays out what is billed and to whom.
fn lay_subject(marks: &mut Vec<Mark>, invoice: &Invoice)
    ensures
        final(marks).deep_view() == old(marks).deep_view() + subject_marks(invoice@),
{
    let ghost before = marks.deep_view();
    push_text(marks, String::from_str("INVOICE"), 20, RIGHT_COLUMN, 7920, true);
    push_text(marks, number_label(invoice), 12, RIGHT_COLUMN, 7620, true);
    push_text(marks, format_date(invoice.issue_date.as_str()), 12, RIGHT_COLUMN, 7420, false);
    push_text(marks, String::from_str("BILL TO:"), 10, MARGIN, 6820, true);
    let ghost titled = marks.deep_view();
    assert(titled =~= before + seq![
        text_mark("INVOICE"@, 20, RIGHT_COLUMN as int, 7920, true),
        text_mark("#"@ + invoice@.invoice_number, 12, RIGHT_COLUMN as int, 7620, true),
        text_mark(date_text(invoice@.issue_date), 12, RIGHT_COLUMN as int, 7420, false),
        text_mark("BILL TO:"@, 10, MARGIN as int, 6820, true),
    ]);
    let bill_to = bill_to_lines(invoice);
    push_column(marks, &bill_to, 10, 10, MARGIN, 6670, LINE_STEP);
    assert(marks.deep_view() =~= before + subject_marks(invoice@));
}

/// Lays out the head of the table.
fn lay_table_head(marks: &mut Vec<Mark>)
    ensures
        final(marks).deep_view() == old(marks).deep_view() + table_head_marks(),
{
    let ghost before = marks.deep_view();
    push_row(marks, 6020);
    push_text(marks, String::from_str("ITEM"), 12, MARGIN, 5870, true);
    push_text(marks, String::from_str("COST"), 12, RIGHT_COLUMN, 5870, true);
    assert(marks.deep_view() =~= before + table_head_marks());
}

/// Lays out the line items and says where they end, or that they reach too
/// far down.
fn lay_items(marks: &mut Vec<Mark>, items: &Vec<LineItem>) -> (bottom: Option<i64>)
    ensures
        match bottom {
            Some(y) => {
                &&& y == items_bottom(items.deep_view())
                &&& y - CLOSING >= i64::MIN
                &&& final(marks).deep_view() == old(marks).deep_view() + items_marks(
                    items.deep_view(),
                )
            },
            None => items_bottom(items.deep_view()) - CLOSING < i64::MIN,
        },
{
    let ghost before = marks.deep_view();
    let ghost all = items.deep_view();
    let mut y: i64 = FIRST_ITEM;
    let mut i: usize = 0;
    assert(all.take(0) =~= Seq::empty());
    assert(marks.deep_view() =~= before + items_marks(all.take(0)));
    while i < items.len()
        invariant
            i <= items.len(),
            all == items.deep_view(),
            y == items_bottom(all.take(i as int)),
            y - CLOSING >= i64::MIN,
            y <= FIRST_ITEM,
            marks.deep_view() == before + items_marks(all.take(i as int)),
        decreases items.len() - i,
    {
        let ghost so_far = marks.deep_view();
        let ghost seen = all.take(i + 1);
        let ghost item = items@[i as int]@;
        assert(seen.drop_last() =~= all.take(i as int));
        assert(seen.last() == item);
        let lines = description_lines(&items[i]);
        let extra: i128 = (lines.len() - 1) as i128;
        let height: i128 = (ROW as i128) + (LINE_STEP as i128) * extra;
        assert(height == row_height(item.description));
        assert(height >= ROW) by (nonlinear_arith)
            requires
                height == ROW + LINE_STEP * extra,
                extra >= 0,
        ;
        if (y as i128) - height - (CLOSING as i128) < (i64::MIN as i128) {
            proof {
                lemma_bottom_descends(all, i + 1);
            }
            return None;
        }
        assert(LINE_STEP * lines@.len() == height - LINE_STEP) by (nonlinear_arith)
            requires
                height == ROW + LINE_STEP * extra,
                extra == lines@.len() - 1,
        ;
        push_row(marks, y);
        push_column(marks, &lines, 11, 10, MARGIN, y - LINE_STEP, LINE_STEP);
        push_amount(marks, items[i].amount_bits, 11, RIGHT_COLUMN, y - LINE_STEP, false);
        assert(marks.deep_view() =~= so_far + item_marks(item, y as int));
        y = ((y as i128) - height) as i64;
        i = i + 1;
        assert(marks.deep_view() =~= before + items_marks(seen));
    }
    assert(all.take(i as int) =~= all);
    Some(y)
}

/// Lays out the end of the table below line items that end at `bottom`.
fn lay_closing(marks: &mut Vec<Mark>, data: &InvoiceData, bottom: i64)
    requires
        bottom - CLOSING >= i64::MIN,
    ensures
        final(marks).deep_view() == old(marks).deep_view() + closing_marks(data@, bottom as int),
{
    let ghost before = marks.deep_view();
    let due = bottom - 200;
    let total = due - ROW;
    push_row(marks, due);
    push_text(marks, String::from_str("Due"), 12, MARGIN, due - LINE_STEP, true);
    push_text(
        marks,
        due_terms(&data.invoice.issue_date, &data.invoice.due_date),
        11,
        RIGHT_COLUMN,
        due - LINE_STEP,
        false,
    );
    let ghost middle = marks.deep_view();
    assert(middle =~= before + due_marks(data@.invoice, due as int));
    push_row(marks, total);
    push_text(marks, String::from_str("Total"), 12, MARGIN, total - LINE_STEP, true);
    push_amount(marks, data.invoice.amount_bits, 12, RIGHT_COLUMN, total - LINE_STEP, true);
    assert(marks.deep_view() =~= middle + total_marks(data@.invoice, total as int));
    assert(marks.deep_view() =~= before + closing_marks(data@, bottom as int));
}

/// Lays out the foot of the page.
fn lay_foot(marks: &mut Vec<Mark>, data: &InvoiceData)
    ensures
        final(marks).deep_view() == old(marks).deep_view() + foot_marks(data@),
{
    let ghost before = marks.deep_view();
    push_line(marks, MARGIN, 1200, PAGE_WIDTH - MARGIN, 1200);
    let ghost ruled = marks.deep_view();
    assert(ruled =~= before + seq![line_mark(MARGIN as int, 1200, PAGE_WIDTH - MARGIN, 1200)]);
    match payment_lines(&data.artist) {
        Some(lines) => {
            push_text(marks, String::from_str("PAYMENT DETAILS"), 10, 2575, 1000, true);
            push_column(marks, &lines, 8, 8, MARGIN, 850, 120);
            assert(marks.deep_view() =~= ruled + (seq![
                text_mark("PAYMENT DETAILS"@, 10, 2575, 1000, true),
            ] + column_marks(lines.deep_view(), 8, 8, MARGIN as int, 850, 120)));
            assert(marks.deep_view() =~= before + foot_marks(data@));
        },
        None => {
            assert(marks.deep_view() =~= before + foot_marks(data@));
        },
    }
}

/// Lays out an invoice on one A4 page.
///
/// The result lists every mark of the page in drawing order. The layout is
/// fixed: nothing moves but the rows of the table, which follow one another
/// downwards, and nothing is carried over to a second page. An invoice whose
/// table would end below the places that can be counted is refused.
pub fn generate_invoice_pdf(data: &InvoiceData) -> (result: Result<Vec<Mark>, LayoutError>)
    ensures
        match result {
            Ok(marks) => page_fits(data@) && marks.deep_view() == invoice_marks(data@),
            Err(e) => e == LayoutError::TooLong && !page_fits(data@),
        },
{
    let mut marks: Vec<Mark> = Vec::new();
    assert(marks.deep_view() =~= Seq::empty());
    lay_sender(&mut marks, &data.artist);
    lay_subject(&mut marks, &data.invoice);
    lay_table_head(&mut marks);
    let ghost headed = marks.deep_view();
    assert(headed =~= head_marks(data@));
    let bottom = match lay_items(&mut marks, &data.line_items) {
        Some(y) => y,
        None => {
            return Err(LayoutError::TooLong);
        },
    };
    lay_closing(&mut marks, data, bottom);
    lay_foot(&mut marks, data);
    assert(marks.deep_view() =~= invoice_marks(data@));
    Ok(marks)
}

} // verus!
