use project_invoicer::database::{
    create_artist, create_invoice, create_project, delete_artist, delete_invoice, delete_project,
    get_all_artists, get_all_invoices, get_all_projects, get_invoices_by_artist,
    get_projects_by_artist, insert_artist, insert_invoice, insert_project, update_artist,
    update_artist_at, update_invoice, update_invoice_at, update_project_at, Artist, Invoice,
    Project, Store, StoreError,
};

fn s(text: &str) -> String {
    text.to_string()
}

fn artist(store: &mut Store, id: &str, now: &str, name: &str) -> Artist {
    insert_artist(store, s(id), s(now), s(name), None, None, None, None, None, None).unwrap()
}

fn project(store: &mut Store, id: &str, now: &str, artist_id: &str, name: &str) -> Project {
    insert_project(
        store,
        s(id),
        s(now),
        s(artist_id),
        s(name),
        None,
        s("active"),
        None,
        None,
        100.0f64.to_bits(),
    )
    .unwrap()
}

fn invoice(
    store: &mut Store,
    id: &str,
    now: &str,
    artist_id: &str,
    project_id: Option<&str>,
    number: &str,
) -> Result<Invoice, StoreError> {
    insert_invoice(
        store,
        s(id),
        s(now),
        s(artist_id),
        project_id.map(s),
        s(number),
        250.50f64.to_bits(),
        s("pending"),
        s("2024-01-01"),
        s("2024-01-31"),
        None,
        s("[]"),
        None,
    )
}

#[test]
fn empty_store_lists_nothing() {
    let store = Store::new();
    assert!(get_all_artists(&store).unwrap().is_empty());
    assert!(get_all_projects(&store).unwrap().is_empty());
    assert!(get_all_invoices(&store).unwrap().is_empty());
    assert!(get_projects_by_artist(&store, s("nobody")).unwrap().is_empty());
    assert!(get_invoices_by_artist(&store, s("nobody")).unwrap().is_empty());
}

#[test]
fn created_rows_carry_one_stamp() {
    let mut store = Store::new();
    let a = create_artist(&mut store, s("A"), Some(s("Co")), None, None, None, None, None).unwrap();
    assert_eq!(a.created_at, a.updated_at);
    assert_eq!(a.id.len(), 36);
    assert_eq!(a.name, "A");
    assert_eq!(a.company_name.as_deref(), Some("Co"));
    let p = create_project(
        &mut store,
        a.id.clone(),
        s("P1"),
        None,
        s("active"),
        None,
        None,
        100.0f64.to_bits(),
    )
    .unwrap();
    assert_eq!(p.created_at, p.updated_at);
    assert_eq!(p.artist_id, a.id);
    assert_ne!(p.id, a.id);
    let v = create_invoice(
        &mut store,
        a.id.clone(),
        Some(p.id.clone()),
        s("INV-001"),
        250.50f64.to_bits(),
        s("pending"),
        s("2024-01-01"),
        s("2024-01-31"),
        None,
        s("[]"),
        None,
    )
    .unwrap();
    assert_eq!(v.created_at, v.updated_at);
    assert!(v.created_at.len() >= 20);
    assert!(v.created_at.contains('T'));
}

#[test]
fn fresh_ids_differ() {
    let mut store = Store::new();
    let a = create_artist(&mut store, s("A"), None, None, None, None, None, None).unwrap();
    let b = create_artist(&mut store, s("B"), None, None, None, None, None, None).unwrap();
    assert_ne!(a.id, b.id);
    assert_eq!(get_all_artists(&store).unwrap().len(), 2);
}

#[test]
fn update_keeps_creation_stamp() {
    let mut store = Store::new();
    artist(&mut store, "a1", "2024-01-01T00:00:00+00:00", "A");
    let changed = update_artist_at(
        &mut store,
        s("2024-02-01T00:00:00+00:00"),
        s("a1"),
        s("A2"),
        None,
        Some(s("a@example.org")),
        None,
        None,
        None,
        None,
    )
    .unwrap();
    assert_eq!(changed.created_at, "2024-01-01T00:00:00+00:00");
    assert_eq!(changed.updated_at, "2024-02-01T00:00:00+00:00");
    assert_eq!(changed.name, "A2");
    let stored = store.get_artist(&s("a1")).unwrap();
    assert_eq!(stored.name, "A2");
    assert_eq!(stored.email.as_deref(), Some("a@example.org"));
    assert_eq!(stored.created_at, "2024-01-01T00:00:00+00:00");
    let again = update_artist(&mut store, s("a1"), s("A3"), None, None, None, None, None, None)
        .unwrap();
    assert_eq!(again.created_at, "2024-01-01T00:00:00+00:00");
    assert_ne!(again.updated_at, "2024-02-01T00:00:00+00:00");
}

#[test]
fn update_of_missing_row_is_not_found() {
    let mut store = Store::new();
    let r = update_artist(&mut store, s("nope"), s("A"), None, None, None, None, None, None);
    assert_eq!(r.unwrap_err(), StoreError::NotFound);
    let r = update_project_at(
        &mut store,
        s("t"),
        s("nope"),
        s("P"),
        None,
        s("active"),
        None,
        None,
        0,
    );
    assert_eq!(r.unwrap_err(), StoreError::NotFound);
    let r = update_invoice(
        &mut store,
        s("nope"),
        s("N"),
        0,
        s("paid"),
        s("d"),
        s("d"),
        None,
        s("[]"),
        None,
    );
    assert_eq!(r.unwrap_err(), StoreError::NotFound);
    assert!(!StoreError::NotFound.is_constraint_violation());
}

#[test]
fn duplicate_invoice_number_is_refused() {
    let mut store = Store::new();
    artist(&mut store, "a1", "t0", "A");
    invoice(&mut store, "v1", "t1", "a1", None, "INV-001").unwrap();
    let second = invoice(&mut store, "v2", "t2", "a1", None, "INV-001");
    assert_eq!(second.unwrap_err(), StoreError::DuplicateInvoiceNumber);
    assert!(StoreError::DuplicateInvoiceNumber.is_constraint_violation());
    assert_eq!(
        StoreError::DuplicateInvoiceNumber.message(),
        "constraint violation: invoice number already exists"
    );
    assert_eq!(get_all_invoices(&store).unwrap().len(), 1);
    invoice(&mut store, "v2", "t2", "a1", None, "INV-002").unwrap();
    assert_eq!(get_all_invoices(&store).unwrap().len(), 2);
    let third = create_invoice(
        &mut store,
        s("a1"),
        None,
        s("INV-002"),
        0,
        s("pending"),
        s("d"),
        s("d"),
        None,
        s("[]"),
        None,
    );
    assert_eq!(third.unwrap_err(), StoreError::DuplicateInvoiceNumber);
}

#[test]
fn renumbering_onto_another_invoice_is_refused() {
    let mut store = Store::new();
    artist(&mut store, "a1", "t0", "A");
    invoice(&mut store, "v1", "t1", "a1", None, "INV-001").unwrap();
    invoice(&mut store, "v2", "t2", "a1", None, "INV-002").unwrap();
    let r = update_invoice_at(
        &mut store,
        s("t3"),
        s("v2"),
        s("INV-001"),
        0,
        s("pending"),
        s("d"),
        s("d"),
        None,
        s("[]"),
        None,
    );
    assert_eq!(r.unwrap_err(), StoreError::DuplicateInvoiceNumber);
    let same = update_invoice_at(
        &mut store,
        s("t3"),
        s("v2"),
        s("INV-002"),
        7,
        s("pending"),
        s("d"),
        s("d"),
        None,
        s("[]"),
        None,
    )
    .unwrap();
    assert_eq!(same.amount_bits, 7);
}

#[test]
fn rows_need_their_owners() {
    let mut store = Store::new();
    let p = insert_project(
        &mut store,
        s("p1"),
        s("t"),
        s("ghost"),
        s("P"),
        None,
        s("active"),
        None,
        None,
        0,
    );
    assert_eq!(p.unwrap_err(), StoreError::UnknownArtist);
    assert_eq!(invoice(&mut store, "v1", "t", "ghost", None, "N").unwrap_err(), StoreError::UnknownArtist);
    artist(&mut store, "a1", "t0", "A");
    assert_eq!(
        invoice(&mut store, "v1", "t", "a1", Some("ghost"), "N").unwrap_err(),
        StoreError::UnknownProject
    );
    assert_eq!(
        insert_artist(&mut store, s("a1"), s("t"), s("B"), None, None, None, None, None, None)
            .unwrap_err(),
        StoreError::DuplicateId
    );
    assert_eq!(StoreError::UnknownArtist.message(), "constraint violation: artist does not exist");
    assert_eq!(StoreError::UnknownProject.message(), "constraint violation: project does not exist");
    assert_eq!(
        StoreError::DuplicateId.message(),
        "constraint violation: a row with this id already exists"
    );
    assert_eq!(StoreError::NotFound.message(), "not found: no row with this id");
}

#[test]
fn empty_project_id_counts_as_none() {
    let mut store = Store::new();
    artist(&mut store, "a1", "t0", "A");
    let v = invoice(&mut store, "v1", "t1", "a1", Some(""), "INV-001").unwrap();
    assert_eq!(v.project_id, None);
    assert_eq!(store.get_invoice(&s("v1")).unwrap().project_id, None);
}

#[test]
fn deleting_an_artist_cascades() {
    let mut store = Store::new();
    artist(&mut store, "a1", "t0", "A");
    artist(&mut store, "a2", "t0", "B");
    project(&mut store, "p1", "t1", "a1", "P1");
    project(&mut store, "p2", "t1", "a2", "P2");
    invoice(&mut store, "v1", "t2", "a1", Some("p1"), "INV-001").unwrap();
    invoice(&mut store, "v2", "t3", "a2", Some("p1"), "INV-002").unwrap();
    invoice(&mut store, "v3", "t4", "a2", Some("p2"), "INV-003").unwrap();
    delete_artist(&mut store, s("a1")).unwrap();
    assert!(store.get_artist(&s("a1")).is_none());
    assert!(store.get_project(&s("p1")).is_none());
    assert!(store.get_invoice(&s("v1")).is_none());
    assert_eq!(store.get_invoice(&s("v2")).unwrap().project_id, None);
    assert_eq!(store.get_invoice(&s("v3")).unwrap().project_id.as_deref(), Some("p2"));
    assert_eq!(get_all_artists(&store).unwrap().len(), 1);
    assert_eq!(get_all_projects(&store).unwrap().len(), 1);
    assert_eq!(get_all_invoices(&store).unwrap().len(), 2);
    delete_artist(&mut store, s("a1")).unwrap();
    assert_eq!(get_all_invoices(&store).unwrap().len(), 2);
}

#[test]
fn deleting_a_project_keeps_its_invoices() {
    let mut store = Store::new();
    artist(&mut store, "a1", "t0", "A");
    project(&mut store, "p1", "t1", "a1", "P1");
    invoice(&mut store, "v1", "t2", "a1", Some("p1"), "INV-001").unwrap();
    delete_project(&mut store, s("p1")).unwrap();
    assert!(store.get_project(&s("p1")).is_none());
    let v = store.get_invoice(&s("v1")).unwrap();
    assert_eq!(v.project_id, None);
    assert_eq!(v.invoice_number, "INV-001");
    delete_project(&mut store, s("p1")).unwrap();
    delete_invoice(&mut store, s("v1")).unwrap();
    assert!(store.get_invoice(&s("v1")).is_none());
    delete_invoice(&mut store, s("v1")).unwrap();
    assert_eq!(get_all_artists(&store).unwrap().len(), 1);
}

#[test]
fn paid_date_follows_status() {
    let mut store = Store::new();
    artist(&mut store, "a1", "t0", "A");
    invoice(&mut store, "v1", "t1", "a1", None, "INV-001").unwrap();
    let paid = update_invoice_at(
        &mut store,
        s("t2"),
        s("v1"),
        s("INV-001"),
        1,
        s("paid"),
        s("d"),
        s("d"),
        None,
        s("[]"),
        None,
    )
    .unwrap();
    assert_eq!(paid.paid_date.as_deref(), Some("t2"));
    assert_eq!(store.get_invoice(&s("v1")).unwrap().paid_date.as_deref(), Some("t2"));
    let back = update_invoice_at(
        &mut store,
        s("t3"),
        s("v1"),
        s("INV-001"),
        1,
        s("pending"),
        s("d"),
        s("d"),
        None,
        s("[]"),
        None,
    )
    .unwrap();
    assert_eq!(back.paid_date, None);
    assert_eq!(store.get_invoice(&s("v1")).unwrap().paid_date, None);
    let other = update_invoice_at(
        &mut store,
        s("t4"),
        s("v1"),
        s("INV-001"),
        1,
        s("Paid"),
        s("d"),
        s("d"),
        None,
        s("[]"),
        None,
    )
    .unwrap();
    assert_eq!(other.paid_date, None);
}

#[test]
fn invoice_from_creation_to_payment() {
    let mut store = Store::new();
    let a = create_artist(&mut store, s("A"), None, None, None, None, None, None).unwrap();
    let p = create_project(
        &mut store,
        a.id.clone(),
        s("P1"),
        None,
        s("active"),
        None,
        None,
        100.0f64.to_bits(),
    )
    .unwrap();
    assert_eq!(f64::from_bits(p.budget_bits), 100.0);
    let v = create_invoice(
        &mut store,
        a.id.clone(),
        Some(p.id.clone()),
        s("INV-001"),
        250.50f64.to_bits(),
        s("pending"),
        s("2024-01-01"),
        s("2024-01-31"),
        None,
        s("[{\"description\":\"x\",\"amount\":250.5}]"),
        None,
    )
    .unwrap();
    let read = store.get_invoice(&v.id).unwrap();
    assert_eq!(f64::from_bits(read.amount_bits), 250.50);
    assert_eq!(read.paid_date, None);
    assert_eq!(read.items, "[{\"description\":\"x\",\"amount\":250.5}]");
    assert_eq!(read.project_id.as_deref(), Some(p.id.as_str()));
    update_invoice(
        &mut store,
        v.id.clone(),
        s("INV-001"),
        250.50f64.to_bits(),
        s("paid"),
        s("2024-01-01"),
        s("2024-01-31"),
        None,
        s("[]"),
        None,
    )
    .unwrap();
    let read = store.get_invoice(&v.id).unwrap();
    assert!(read.paid_date.is_some());
    assert_eq!(read.paid_date.as_deref(), Some(read.updated_at.as_str()));
    assert_eq!(read.status, "paid");
    assert_eq!(read.artist_id, a.id);
    assert_eq!(read.created_at, v.created_at);
}

#[test]
fn artists_are_listed_by_name() {
    let mut store = Store::new();
    artist(&mut store, "a1", "t0", "mike");
    artist(&mut store, "a2", "t1", "Zed");
    artist(&mut store, "a3", "t2", "anna");
    artist(&mut store, "a4", "t3", "anna");
    artist(&mut store, "a5", "t4", "ann");
    artist(&mut store, "a6", "t5", "Émile");
    let listed: Vec<(String, String)> =
        get_all_artists(&store).unwrap().into_iter().map(|a| (a.name, a.id)).collect();
    assert_eq!(
        listed,
        vec![
            (s("Zed"), s("a2")),
            (s("ann"), s("a5")),
            (s("anna"), s("a3")),
            (s("anna"), s("a4")),
            (s("mike"), s("a1")),
            (s("Émile"), s("a6")),
        ]
    );
}

#[test]
fn projects_and_invoices_are_listed_latest_first() {
    let mut store = Store::new();
    artist(&mut store, "a1", "t0", "A");
    artist(&mut store, "a2", "t0", "B");
    project(&mut store, "p1", "2024-01-02", "a1", "P1");
    project(&mut store, "p2", "2024-01-03", "a2", "P2");
    project(&mut store, "p3", "2024-01-01", "a1", "P3");
    project(&mut store, "p4", "2024-01-02", "a1", "P4");
    let all: Vec<String> = get_all_projects(&store).unwrap().into_iter().map(|p| p.id).collect();
    assert_eq!(all, vec![s("p2"), s("p1"), s("p4"), s("p3")]);
    let own: Vec<String> =
        get_projects_by_artist(&store, s("a1")).unwrap().into_iter().map(|p| p.id).collect();
    assert_eq!(own, vec![s("p1"), s("p4"), s("p3")]);
    invoice(&mut store, "v1", "2024-02-01", "a1", None, "N1").unwrap();
    invoice(&mut store, "v2", "2024-02-03", "a2", None, "N2").unwrap();
    invoice(&mut store, "v3", "2024-02-02", "a1", None, "N3").unwrap();
    let all: Vec<String> = get_all_invoices(&store).unwrap().into_iter().map(|v| v.id).collect();
    assert_eq!(all, vec![s("v2"), s("v3"), s("v1")]);
    let own: Vec<String> =
        get_invoices_by_artist(&store, s("a1")).unwrap().into_iter().map(|v| v.id).collect();
    assert_eq!(own, vec![s("v3"), s("v1")]);
    assert!(get_invoices_by_artist(&store, s("a3")).unwrap().is_empty());
}

#[test]
fn update_project_keeps_its_artist() {
    let mut store = Store::new();
    artist(&mut store, "a1", "t0", "A");
    project(&mut store, "p1", "t1", "a1", "P1");
    let p = update_project_at(
        &mut store,
        s("t2"),
        s("p1"),
        s("Renamed"),
        Some(s("about")),
        s("done"),
        Some(s("2024-01-01")),
        None,
        42,
    )
    .unwrap();
    assert_eq!(p.artist_id, "a1");
    assert_eq!(p.created_at, "t1");
    assert_eq!(p.updated_at, "t2");
    let read = store.get_project(&s("p1")).unwrap();
    assert_eq!(read.name, "Renamed");
    assert_eq!(read.status, "done");
    assert_eq!(read.budget_bits, 42);
    assert_eq!(read.description.as_deref(), Some("about"));
}

#[test]
fn restore_takes_consistent_rows_only() {
    let mut store = Store::new();
    artist(&mut store, "a1", "t0", "A");
    project(&mut store, "p1", "t1", "a1", "P1");
    invoice(&mut store, "v1", "t2", "a1", Some("p1"), "INV-001").unwrap();
    let artists = get_all_artists(&store).unwrap();
    let projects = get_all_projects(&store).unwrap();
    let mut invoices = get_all_invoices(&store).unwrap();
    let again = Store::restore(artists.clone(), projects.clone(), invoices.clone()).unwrap();
    assert_eq!(again.get_invoice(&s("v1")).unwrap().invoice_number, "INV-001");
    assert_eq!(get_all_projects(&again).unwrap().len(), 1);
    assert_eq!(
        Store::restore(Vec::new(), projects.clone(), Vec::new()).err(),
        Some(StoreError::Inconsistent)
    );
    assert_eq!(
        Store::restore(artists.clone(), Vec::new(), invoices.clone()).err(),
        Some(StoreError::Inconsistent)
    );
    let mut twice = artists.clone();
    twice.extend(artists.clone());
    assert_eq!(
        Store::restore(twice, projects.clone(), invoices.clone()).err(),
        Some(StoreError::Inconsistent)
    );
    invoices[0].paid_date = Some(s("t3"));
    assert_eq!(
        Store::restore(artists.clone(), projects.clone(), invoices.clone()).err(),
        Some(StoreError::Inconsistent)
    );
    invoices[0].status = s("paid");
    assert!(Store::restore(artists.clone(), projects.clone(), invoices.clone()).is_ok());
    let mut second = invoices[0].clone();
    second.id = s("v2");
    invoices.push(second);
    assert_eq!(
        Store::restore(artists, projects, invoices).err(),
        Some(StoreError::Inconsistent)
    );
    assert!(Store::restore(Vec::new(), Vec::new(), Vec::new()).is_ok());
    assert_eq!(
        StoreError::Inconsistent.message(),
        "constraint violation: the rows contradict one another"
    );
}

#[test]
fn paid_invoice_keeps_its_payment_date() {
    let mut store = Store::new();
    artist(&mut store, "a1", "t0", "A");
    invoice(&mut store, "v1", "t1", "a1", None, "INV-001").unwrap();
    let edit = |store: &mut Store, now: &str, status: &str, amount: u64| {
        update_invoice_at(
            store,
            s(now),
            s("v1"),
            s("INV-001"),
            amount,
            s(status),
            s("d"),
            s("d"),
            None,
            s("[]"),
            None,
        )
        .unwrap()
    };
    assert_eq!(edit(&mut store, "t2", "paid", 1).paid_date.as_deref(), Some("t2"));
    let later = edit(&mut store, "t3", "paid", 2);
    assert_eq!(later.paid_date.as_deref(), Some("t2"));
    assert_eq!(later.updated_at, "t3");
    assert_eq!(later.amount_bits, 2);
    assert_eq!(store.get_invoice(&s("v1")).unwrap().paid_date.as_deref(), Some("t2"));
    assert_eq!(edit(&mut store, "t4", "pending", 2).paid_date, None);
    assert_eq!(edit(&mut store, "t5", "paid", 2).paid_date.as_deref(), Some("t5"));
    assert_eq!(edit(&mut store, "t6", "paid", 2).paid_date.as_deref(), Some("t5"));
}

#[test]
fn updates_move_the_stamp_forward() {
    let mut store = Store::new();
    artist(&mut store, "a1", "2024-01-01T00:00:00+00:00", "A");
    let edit = |store: &mut Store, now: &str| {
        update_artist_at(store, s(now), s("a1"), s("A"), None, None, None, None, None, None)
            .unwrap()
            .updated_at
    };
    assert_eq!(edit(&mut store, "2024-01-01T00:00:01+00:00"), "2024-01-01T00:00:01+00:00");
    assert_eq!(
        edit(&mut store, "2024-01-01T00:00:01+00:00"),
        "2024-01-01T00:00:01.000000001+00:00"
    );
    assert_eq!(
        edit(&mut store, "2023-12-31T23:59:59+00:00"),
        "2024-01-01T00:00:01.000000002+00:00"
    );
    assert_eq!(
        edit(&mut store, "2024-01-01T01:00:01.5+01:00"),
        "2024-01-01T01:00:01.5+01:00"
    );
    assert_eq!(
        edit(&mut store, "2024-01-01T00:00:01.500+00:00"),
        "2024-01-01T00:00:01.500000001+00:00"
    );
    assert_eq!(edit(&mut store, "tomorrow"), "tomorrow");
    assert_eq!(edit(&mut store, "2020-01-01T00:00:00+00:00"), "2020-01-01T00:00:00+00:00");
    let stored = store.get_artist(&s("a1")).unwrap();
    assert_eq!(stored.updated_at, "2020-01-01T00:00:00+00:00");
    assert_eq!(stored.created_at, "2024-01-01T00:00:00+00:00");
}

#[test]
fn the_last_nanosecond_of_a_second_moves_on_to_the_next() {
    let mut store = Store::new();
    artist(&mut store, "a1", "2024-01-01T00:00:00.999999999Z", "A");
    project(&mut store, "p1", "2024-01-01T00:00:00.999999999Z", "a1", "P");
    let p = update_project_at(
        &mut store,
        s("2024-01-01T00:00:00Z"),
        s("p1"),
        s("P"),
        None,
        s("active"),
        None,
        None,
        0,
    )
    .unwrap();
    assert_eq!(p.updated_at, "2024-01-01T00:00:01+00:00");
    invoice(&mut store, "v1", "2024-03-01T10:00:00+00:00", "a1", None, "N1").unwrap();
    let v = update_invoice_at(
        &mut store,
        s("2024-03-01T09:00:00+00:00"),
        s("v1"),
        s("N1"),
        0,
        s("paid"),
        s("d"),
        s("d"),
        None,
        s("[]"),
        None,
    )
    .unwrap();
    assert_eq!(v.updated_at, "2024-03-01T10:00:00.000000001+00:00");
    assert_eq!(v.paid_date.as_deref(), Some("2024-03-01T10:00:00.000000001+00:00"));
}

#[test]
fn clock_updates_advance_the_stamp() {
    let mut store = Store::new();
    let a = create_artist(&mut store, s("A"), None, None, None, None, None, None).unwrap();
    let mut last = a.updated_at.clone();
    for round in 0..50 {
        let next = update_artist(&mut store, a.id.clone(), format!("A{}", round), None, None, None, None, None, None)
            .unwrap()
            .updated_at;
        let before = chrono::DateTime::parse_from_rfc3339(&last).unwrap();
        let after = chrono::DateTime::parse_from_rfc3339(&next).unwrap();
        assert!(after > before);
        assert!(next.ends_with("+00:00"));
        last = next;
    }
}
