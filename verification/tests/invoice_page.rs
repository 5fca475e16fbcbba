use project_invoicer::database::{
    insert_artist, insert_invoice, insert_project, Artist, Invoice, Store, StoreError,
};
use project_invoicer::page::Mark;
use project_invoicer::pdf_generator::{
    address_lines, bill_to_lines, description_lines, document_title, first_lines_of,
    generate_invoice_pdf, invoice_data, number_label, payment_lines, shown, InvoiceData, LineItem,
};
use project_invoicer::text::{lines_of, split_newlines};

fn s(text: &str) -> String {
    text.to_string()
}

fn artist() -> Artist {
    Artist {
        id: s("a1"),
        name: s("Ann"),
        company_name: Some(s("Ann Ltd")),
        email: Some(s("a@b.c")),
        phone: Some(s("123")),
        address: Some(s("1 Road\nTown\r\nCountry\nExtra")),
        wire_details: Some(s("IBAN X\n\nBIC Y")),
        notes: None,
        created_at: s("t"),
        updated_at: s("t"),
    }
}

fn invoice() -> Invoice {
    Invoice {
        id: s("v1"),
        artist_id: s("a1"),
        project_id: None,
        invoice_number: s("INV-001"),
        amount_bits: 150.5f64.to_bits(),
        status: s("pending"),
        issue_date: s("2024-01-01"),
        due_date: s("2024-01-31"),
        paid_date: None,
        bill_to: None,
        items: s("[]"),
        notes: None,
        created_at: s("t"),
        updated_at: s("t"),
    }
}

fn text(words: &str, size: u32, x: i64, y: i64, bold: bool) -> Mark {
    Mark::Text { text: s(words), size, x, y, bold }
}

fn row(y: i64) -> Vec<Mark> {
    vec![
        Mark::Line { x1: 500, y1: y, x2: 5450, y2: y },
        Mark::Line { x1: 500, y1: y - 300, x2: 5450, y2: y - 300 },
        Mark::Line { x1: 500, y1: y, x2: 500, y2: y - 300 },
        Mark::Line { x1: 3950, y1: y, x2: 3950, y2: y - 300 },
        Mark::Line { x1: 5450, y1: y, x2: 5450, y2: y - 300 },
    ]
}

#[test]
fn invoice_is_laid_out_mark_by_mark() {
    let data = InvoiceData {
        invoice: invoice(),
        artist: artist(),
        project: None,
        line_items: vec![
            LineItem { description: s("Design\nround one"), amount_bits: 100.0f64.to_bits() },
            LineItem { description: s("Print"), amount_bits: 50.5f64.to_bits() },
        ],
    };
    let mut expected = vec![
        text("Ann / Ann Ltd", 16, 500, 7920, true),
        text("1 Road", 10, 500, 7720, false),
        text("Town", 10, 500, 7570, false),
        text("Country", 10, 500, 7420, false),
        text("a@b.c", 10, 500, 7270, false),
        text("123", 10, 500, 7120, false),
        text("INVOICE", 20, 4450, 7920, true),
        text("#INV-001", 12, 4450, 7620, true),
        text("01 January 2024", 12, 4450, 7420, false),
        text("BILL TO:", 10, 500, 6820, true),
        text("[Client Name]", 10, 500, 6670, false),
    ];
    expected.extend(row(6020));
    expected.push(text("ITEM", 12, 500, 5870, true));
    expected.push(text("COST", 12, 4450, 5870, true));
    expected.extend(row(5720));
    expected.push(text("Design", 11, 500, 5570, false));
    expected.push(text("round one", 10, 500, 5420, false));
    expected.push(Mark::Amount {
        amount_bits: 100.0f64.to_bits(),
        size: 11,
        x: 4450,
        y: 5570,
        bold: false,
    });
    expected.extend(row(5270));
    expected.push(text("Print", 11, 500, 5120, false));
    expected.push(Mark::Amount {
        amount_bits: 50.5f64.to_bits(),
        size: 11,
        x: 4450,
        y: 5120,
        bold: false,
    });
    expected.extend(row(4770));
    expected.push(text("Due", 12, 500, 4620, true));
    expected.push(text("Net 30", 11, 4450, 4620, false));
    expected.extend(row(4470));
    expected.push(text("Total", 12, 500, 4320, true));
    expected.push(Mark::Amount {
        amount_bits: 150.5f64.to_bits(),
        size: 12,
        x: 4450,
        y: 4320,
        bold: true,
    });
    expected.push(Mark::Line { x1: 500, y1: 1200, x2: 5450, y2: 1200 });
    expected.push(text("PAYMENT DETAILS", 10, 2575, 1000, true));
    expected.push(text("IBAN X", 8, 500, 850, false));
    expected.push(text("BIC Y", 8, 500, 730, false));
    assert_eq!(generate_invoice_pdf(&data).unwrap(), expected);
}

#[test]
fn bare_invoice_has_head_table_and_rule() {
    let mut a = artist();
    a.company_name = None;
    a.address = Some(s("  "));
    a.email = None;
    a.wire_details = None;
    let mut v = invoice();
    v.bill_to = Some(s("Client\nStreet\nTown\nLand\nPlanet"));
    v.due_date = s("2024-01-01");
    let data = InvoiceData { invoice: v, artist: a, project: None, line_items: Vec::new() };
    let mut expected = vec![
        text("Ann", 16, 500, 7920, true),
        text("123", 10, 500, 7720, false),
        text("INVOICE", 20, 4450, 7920, true),
        text("#INV-001", 12, 4450, 7620, true),
        text("01 January 2024", 12, 4450, 7420, false),
        text("BILL TO:", 10, 500, 6820, true),
        text("Client", 10, 500, 6670, false),
        text("Street", 10, 500, 6520, false),
        text("Town", 10, 500, 6370, false),
        text("Land", 10, 500, 6220, false),
    ];
    expected.extend(row(6020));
    expected.push(text("ITEM", 12, 500, 5870, true));
    expected.push(text("COST", 12, 4450, 5870, true));
    expected.extend(row(5520));
    expected.push(text("Due", 12, 500, 5370, true));
    expected.push(text("Upon Receipt", 11, 4450, 5370, false));
    expected.extend(row(5220));
    expected.push(text("Total", 12, 500, 5070, true));
    expected.push(Mark::Amount {
        amount_bits: 150.5f64.to_bits(),
        size: 12,
        x: 4450,
        y: 5070,
        bold: true,
    });
    expected.push(Mark::Line { x1: 500, y1: 1200, x2: 5450, y2: 1200 });
    assert_eq!(generate_invoice_pdf(&data).unwrap(), expected);
}

#[test]
fn long_tables_run_off_the_page_downwards() {
    let items: Vec<LineItem> =
        (0..40).map(|i| LineItem { description: s("x\ny\nz"), amount_bits: i }).collect();
    let data = InvoiceData { invoice: invoice(), artist: artist(), project: None, line_items: items };
    let marks = generate_invoice_pdf(&data).unwrap();
    let lowest = marks
        .iter()
        .map(|m| match m {
            Mark::Text { y, .. } => *y,
            Mark::Amount { y, .. } => *y,
            Mark::Line { y2, .. } => *y2,
        })
        .min()
        .unwrap();
    assert_eq!(lowest, 5720 - 40 * 600 - 800);
}

#[test]
fn lines_are_cut_as_the_standard_library_cuts_them() {
    for text in ["", "a", "a\n", "a\nb", "a\r\nb\r", "\n", "\n\n", "a\n\nb", "\r\n", "a\rb\n", "é\nü", "x\r\r\ny"] {
        let expected: Vec<String> = text.lines().map(|l| l.to_string()).collect();
        assert_eq!(lines_of(text), expected);
        let expected: Vec<String> = text.split('\n').map(|l| l.to_string()).collect();
        assert_eq!(split_newlines(text), expected);
    }
    assert_eq!(first_lines_of("a\nb\nc", 2), vec![s("a"), s("b")]);
    assert_eq!(first_lines_of("a\nb\nc", 5), vec![s("a"), s("b"), s("c")]);
    assert!(first_lines_of("a", 0).is_empty());
}

#[test]
fn printed_fields_skip_what_is_blank() {
    let mut a = artist();
    assert_eq!(address_lines(&a), vec![s("1 Road"), s("Town"), s("Country")]);
    assert_eq!(payment_lines(&a), Some(vec![s("IBAN X"), s("BIC Y")]));
    assert_eq!(shown(&a.email), Some(s("a@b.c")));
    a.address = None;
    a.wire_details = Some(s(" \n "));
    a.email = Some(s("\t"));
    assert!(address_lines(&a).is_empty());
    assert_eq!(payment_lines(&a), None);
    assert_eq!(shown(&a.email), None);
    a.wire_details = Some(s("1\n2\n3\n4\n5"));
    assert_eq!(payment_lines(&a), Some(vec![s("1"), s("2"), s("3"), s("4")]));
    a.wire_details = Some(s("\n\n\n\n5"));
    assert_eq!(payment_lines(&a), Some(Vec::new()));
    let mut v = invoice();
    assert_eq!(bill_to_lines(&v), vec![s("[Client Name]")]);
    v.bill_to = Some(s(""));
    assert!(bill_to_lines(&v).is_empty());
    v.bill_to = Some(s("Client"));
    assert_eq!(bill_to_lines(&v), vec![s("Client")]);
    assert_eq!(document_title(&v), "Invoice INV-001");
    assert_eq!(number_label(&v), "#INV-001");
    let item = LineItem { description: s("a\n\nb\n"), amount_bits: 0 };
    assert_eq!(description_lines(&item), vec![s("a"), s(""), s("b"), s("")]);
}

#[test]
fn invoice_data_is_gathered_from_the_store() {
    let mut store = Store::new();
    insert_artist(&mut store, s("a1"), s("t"), s("Ann"), None, None, None, None, None, None).unwrap();
    insert_artist(&mut store, s("a2"), s("t"), s("Bob"), None, None, None, None, None, None).unwrap();
    insert_project(&mut store, s("p1"), s("t"), s("a2"), s("P"), None, s("active"), None, None, 0)
        .unwrap();
    insert_invoice(
        &mut store, s("v1"), s("t"), s("a2"), Some(s("p1")), s("N1"), 7, s("pending"), s("d"),
        s("d"), None, s("[]"), None,
    )
    .unwrap();
    insert_invoice(
        &mut store, s("v2"), s("t"), s("a1"), None, s("N2"), 8, s("pending"), s("d"), s("d"),
        None, s("[]"), None,
    )
    .unwrap();
    let items = vec![LineItem { description: s("x"), amount_bits: 1 }];
    let data = invoice_data(&store, &s("v1"), items).unwrap();
    assert_eq!(data.invoice.invoice_number, "N1");
    assert_eq!(data.artist.name, "Bob");
    assert_eq!(data.project.unwrap().id, "p1");
    assert_eq!(data.line_items.len(), 1);
    let data = invoice_data(&store, &s("v2"), Vec::new()).unwrap();
    assert_eq!(data.artist.name, "Ann");
    assert!(data.project.is_none());
    assert_eq!(invoice_data(&store, &s("v3"), Vec::new()).err(), Some(StoreError::NotFound));
}
