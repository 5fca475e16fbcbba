use project_invoicer::database::init;
use project_invoicer::schema::{Index, LateColumn, Step, Table};

fn names(list: &[&str]) -> Vec<String> {
    list.iter().map(|n| n.to_string()).collect()
}

fn indexes() -> Vec<Step> {
    vec![
        Step::CreateIndex(Index::ProjectsArtistId),
        Step::CreateIndex(Index::ProjectsStatus),
        Step::CreateIndex(Index::ProjectsCreatedAt),
        Step::CreateIndex(Index::InvoicesArtistId),
        Step::CreateIndex(Index::InvoicesProjectId),
        Step::CreateIndex(Index::InvoicesStatus),
        Step::CreateIndex(Index::InvoicesCreatedAt),
        Step::CreateIndex(Index::InvoicesDueDate),
        Step::CreateIndex(Index::PlaylistSongsPosition),
    ]
}

fn music() -> Vec<Step> {
    vec![
        Step::CreateTable(Table::Songs),
        Step::CreateTable(Table::Playlists),
        Step::CreateTable(Table::PlaylistSongs),
    ]
}

#[test]
fn fresh_file_gets_tables_and_indexes_only() {
    let plan = init(&Vec::new(), &Vec::new());
    let mut expected = vec![
        Step::CreateTable(Table::Artists),
        Step::CreateTable(Table::Projects),
        Step::CreateTable(Table::Invoices),
    ];
    expected.extend(music());
    expected.extend(indexes());
    assert_eq!(plan, expected);
}

#[test]
fn old_file_gets_the_late_columns() {
    let artists = names(&["id", "name", "email", "phone", "address", "notes", "created_at", "updated_at"]);
    let invoices = names(&["id", "artist_id", "project_id", "invoice_number", "amount", "status"]);
    let plan = init(&artists, &invoices);
    let mut expected = vec![
        Step::CreateTable(Table::Artists),
        Step::AddColumn(LateColumn::ArtistCompanyName),
        Step::AddColumn(LateColumn::ArtistWireDetails),
        Step::CreateTable(Table::Projects),
        Step::CreateTable(Table::Invoices),
        Step::AddColumn(LateColumn::InvoiceBillTo),
    ];
    expected.extend(music());
    expected.extend(indexes());
    assert_eq!(plan, expected);
}

#[test]
fn present_columns_are_not_added_again() {
    let artists = names(&["id", "name", "company_name", "created_at"]);
    let invoices = names(&["id", "bill_to"]);
    let plan = init(&artists, &invoices);
    let mut expected = vec![
        Step::CreateTable(Table::Artists),
        Step::AddColumn(LateColumn::ArtistWireDetails),
        Step::CreateTable(Table::Projects),
        Step::CreateTable(Table::Invoices),
    ];
    expected.extend(music());
    expected.extend(indexes());
    assert_eq!(plan, expected);
    let artists = names(&["id", "company_name", "wire_details"]);
    let plan = init(&artists, &invoices);
    assert!(plan.iter().all(|step| !matches!(step, Step::AddColumn(_))));
}

#[test]
fn statements_read_as_expected() {
    assert_eq!(
        Step::AddColumn(LateColumn::ArtistCompanyName).sql(),
        "ALTER TABLE artists ADD COLUMN company_name TEXT"
    );
    assert_eq!(
        Step::AddColumn(LateColumn::InvoiceBillTo).sql(),
        "ALTER TABLE invoices ADD COLUMN bill_to TEXT"
    );
    assert_eq!(
        Step::CreateIndex(Index::InvoicesDueDate).sql(),
        "CREATE INDEX IF NOT EXISTS idx_invoices_due_date ON invoices(due_date)"
    );
    assert!(Step::CreateTable(Table::Invoices).sql().starts_with("CREATE TABLE IF NOT EXISTS invoices ("));
    assert!(Step::CreateTable(Table::Invoices).sql().contains("invoice_number TEXT NOT NULL UNIQUE"));
    assert!(Step::CreateTable(Table::Invoices).sql().contains("ON DELETE SET NULL"));
    assert!(Step::CreateTable(Table::Projects).sql().contains("ON DELETE CASCADE"));
    assert!(Step::CreateTable(Table::Artists).sql().contains("wire_details TEXT"));
    assert_eq!(LateColumn::ArtistWireDetails.name(), "wire_details");
    let members = Step::CreateTable(Table::PlaylistSongs).sql();
    assert!(members.contains("PRIMARY KEY (playlist_id, song_id)"));
    assert!(members.contains("FOREIGN KEY (song_id) REFERENCES songs (id) ON DELETE CASCADE"));
    assert!(members.contains("FOREIGN KEY (playlist_id) REFERENCES playlists (id) ON DELETE CASCADE"));
    assert!(Step::CreateTable(Table::Songs).sql().contains("path TEXT NOT NULL UNIQUE"));
    assert!(Step::CreateTable(Table::Playlists).sql().starts_with("CREATE TABLE IF NOT EXISTS playlists ("));
    assert_eq!(
        Step::CreateIndex(Index::PlaylistSongsPosition).sql(),
        "CREATE INDEX IF NOT EXISTS idx_playlist_songs_position ON playlist_songs(playlist_id, position)"
    );
}
