//! The schema of the durable store, of the invoicing records and of the
//! music library, and the plan that brings a database file of any earlier
//! release up to it.
//!
//! The plan only ever adds: tables that are absent, columns that later
//! releases introduced, and indexes. It is computed from the column names
//! that the live tables report, and executing it again plans no further
//! column.

use vstd::prelude::*;
use vstd::string::*;

verus! {

#[derive(Debug, Clone, Copy, PartialEq, Eq, Structural)]
pub enum Table {
    Artists,
    Projects,
    Invoices,
    Songs,
    Playlists,
    /// Which songs a playlist plays, and in which order.
    PlaylistSongs,
}

/// The columns that joined a table after its first release.
#[derive(Debug, Clone, Copy, PartialEq, Eq, Structural)]
pub enum LateColumn {
    ArtistCompanyName,
    ArtistWireDetails,
    InvoiceBillTo,
}

/// The secondary indexes: on owners, status, creation stamp, due date and
/// playing order.
#[derive(Debug, Clone, Copy, PartialEq, Eq, Structural)]
pub enum Index {
    ProjectsArtistId,
    ProjectsStatus,
    ProjectsCreatedAt,
    InvoicesArtistId,
    InvoicesProjectId,
    InvoicesStatus,
    InvoicesCreatedAt,
    InvoicesDueDate,
    PlaylistSongsPosition,
}

/// One statement of the plan.
#[derive(Debug, Clone, Copy, PartialEq, Eq, Structural)]
pub enum Step {
    /// Create the table unless it exists.
    CreateTable(Table),
    /// Add the column, nullable and without default, to its table.
    AddColumn(LateColumn),
    /// Create the index unless it exists.
    CreateIndex(Index),
}

impl LateColumn {
    /// The table that the column belongs to.
    pub open spec fn table(self) -> Table {
        match self {
            LateColumn::ArtistCompanyName => Table::Artists,
            LateColumn::ArtistWireDetails => Table::Artists,
            LateColumn::InvoiceBillTo => Table::Invoices,
        }
    }

    /// The column's name in its table.
    pub open spec fn name_text(self) -> Seq<char> {
        match self {
            LateColumn::ArtistCompanyName => "company_name"@,
            LateColumn::ArtistWireDetails => "wire_details"@,
            LateColumn::InvoiceBillTo => "bill_to"@,
        }
    }

    /// The column's name in its table.
    pub fn name(&self) -> (name: String)
        ensures
            name@ == self.name_text(),
    {
        match self {
            LateColumn::ArtistCompanyName => String::from_str("company_name"),
            LateColumn::ArtistWireDetails => String::from_str("wire_details"),
            LateColumn::InvoiceBillTo => String::from_str("bill_to"),
        }
    }
}

impl Step {
    /// The statement in the dialect of the durable store.
    pub open spec fn sql_text(self) -> Seq<char> {
        match self {
            Step::CreateTable(Table::Artists) => "CREATE TABLE IF NOT EXISTS artists (
            id TEXT PRIMARY KEY,
            name TEXT NOT NULL,
            company_name TEXT,
            email TEXT,
            phone TEXT,
            address TEXT,
            wire_details TEXT,
            notes TEXT,
            created_at TEXT NOT NULL,
            updated_at TEXT NOT NULL
        )"@,
            Step::CreateTable(Table::Projects) => "CREATE TABLE IF NOT EXISTS projects (
            id TEXT PRIMARY KEY,
            artist_id TEXT NOT NULL,
            name TEXT NOT NULL,
            description TEXT,
            status TEXT NOT NULL DEFAULT 'active',
            start_date TEXT,
            end_date TEXT,
            budget REAL DEFAULT 0,
            created_at TEXT NOT NULL,
            updated_at TEXT NOT NULL,
            FOREIGN KEY (artist_id) REFERENCES artists (id) ON DELETE CASCADE
        )"@,
            Step::CreateTable(Table::Invoices) => "CREATE TABLE IF NOT EXISTS invoices (
            id TEXT PRIMARY KEY,
            artist_id TEXT NOT NULL,
            project_id TEXT,
            invoice_number TEXT NOT NULL UNIQUE,
            amount REAL NOT NULL DEFAULT 0,
            status TEXT NOT NULL DEFAULT 'pending',
            issue_date TEXT NOT NULL,
            due_date TEXT NOT NULL,
            paid_date TEXT,
            bill_to TEXT,
            items TEXT NOT NULL DEFAULT '[]',
            notes TEXT,
            created_at TEXT NOT NULL,
            updated_at TEXT NOT NULL,
            FOREIGN KEY (artist_id) REFERENCES artists (id) ON DELETE CASCADE,
            FOREIGN KEY (project_id) REFERENCES projects (id) ON DELETE SET NULL
        )"@,
            Step::CreateTable(Table::Songs) => "CREATE TABLE IF NOT EXISTS songs (
            id TEXT PRIMARY KEY,
            name TEXT NOT NULL,
            artist TEXT NOT NULL,
            album TEXT NOT NULL,
            duration REAL NOT NULL DEFAULT 0,
            path TEXT NOT NULL UNIQUE,
            genre TEXT,
            year INTEGER,
            track_number INTEGER,
            artist_id TEXT,
            album_id TEXT,
            date_added TEXT NOT NULL,
            play_count INTEGER NOT NULL DEFAULT 0,
            last_played TEXT
        )"@,
            Step::CreateTable(Table::Playlists) => "CREATE TABLE IF NOT EXISTS playlists (
            id TEXT PRIMARY KEY,
            name TEXT NOT NULL,
            description TEXT,
            color TEXT,
            artwork_path TEXT,
            artist_id TEXT,
            date_created TEXT NOT NULL
        )"@,
            Step::CreateTable(Table::PlaylistSongs) => "CREATE TABLE IF NOT EXISTS playlist_songs (
            playlist_id TEXT NOT NULL,
            song_id TEXT NOT NULL,
            position INTEGER NOT NULL,
            PRIMARY KEY (playlist_id, song_id),
            FOREIGN KEY (playlist_id) REFERENCES playlists (id) ON DELETE CASCADE,
            FOREIGN KEY (song_id) REFERENCES songs (id) ON DELETE CASCADE
        )"@,
            Step::AddColumn(LateColumn::ArtistCompanyName) => "ALTER TABLE artists ADD COLUMN company_name TEXT"@,
            Step::AddColumn(LateColumn::ArtistWireDetails) => "ALTER TABLE artists ADD COLUMN wire_details TEXT"@,
            Step::AddColumn(LateColumn::InvoiceBillTo) => "ALTER TABLE invoices ADD COLUMN bill_to TEXT"@,
            Step::CreateIndex(Index::ProjectsArtistId) => "CREATE INDEX IF NOT EXISTS idx_projects_artist_id ON projects(artist_id)"@,
            Step::CreateIndex(Index::ProjectsStatus) => "CREATE INDEX IF NOT EXISTS idx_projects_status ON projects(status)"@,
            Step::CreateIndex(Index::ProjectsCreatedAt) => "CREATE INDEX IF NOT EXISTS idx_projects_created_at ON projects(created_at DESC)"@,
            Step::CreateIndex(Index::InvoicesArtistId) => "CREATE INDEX IF NOT EXISTS idx_invoices_artist_id ON invoices(artist_id)"@,
            Step::CreateIndex(Index::InvoicesProjectId) => "CREATE INDEX IF NOT EXISTS idx_invoices_project_id ON invoices(project_id)"@,
            Step::CreateIndex(Index::InvoicesStatus) => "CREATE INDEX IF NOT EXISTS idx_invoices_status ON invoices(status)"@,
            Step::CreateIndex(Index::InvoicesCreatedAt) => "CREATE INDEX IF NOT EXISTS idx_invoices_created_at ON invoices(created_at DESC)"@,
            Step::CreateIndex(Index::InvoicesDueDate) => "CREATE INDEX IF NOT EXISTS idx_invoices_due_date ON invoices(due_date)"@,
            Step::CreateIndex(Index::PlaylistSongsPosition) => "CREATE INDEX IF NOT EXISTS idx_playlist_songs_position ON playlist_songs(playlist_id, position)"@,
        }
    }

    /// The statement in the dialect of the durable store.
    pub fn sql(&self) -> (text: String)
        ensures
            text@ == self.sql_text(),
    {
        match self {
            Step::CreateTable(Table::Artists) => String::from_str(
                "CREATE TABLE IF NOT EXISTS artists (
            id TEXT PRIMARY KEY,
            name TEXT NOT NULL,
            company_name TEXT,
            email TEXT,
            phone TEXT,
            address TEXT,
            wire_details TEXT,
            notes TEXT,
            created_at TEXT NOT NULL,
            updated_at TEXT NOT NULL
        )",
            ),
            Step::CreateTable(Table::Projects) => String::from_str(
                "CREATE TABLE IF NOT EXISTS projects (
            id TEXT PRIMARY KEY,
            artist_id TEXT NOT NULL,
            name TEXT NOT NULL,
            description TEXT,
            status TEXT NOT NULL DEFAULT 'active',
            start_date TEXT,
            end_date TEXT,
            budget REAL DEFAULT 0,
            created_at TEXT NOT NULL,
            updated_at TEXT NOT NULL,
            FOREIGN KEY (artist_id) REFERENCES artists (id) ON DELETE CASCADE
        )",
            ),
            Step::CreateTable(Table::Invoices) => String::from_str(
                "CREATE TABLE IF NOT EXISTS invoices (
            id TEXT PRIMARY KEY,
            artist_id TEXT NOT NULL,
            project_id TEXT,
            invoice_number TEXT NOT NULL UNIQUE,
            amount REAL NOT NULL DEFAULT 0,
            status TEXT NOT NULL DEFAULT 'pending',
            issue_date TEXT NOT NULL,
            due_date TEXT NOT NULL,
            paid_date TEXT,
            bill_to TEXT,
            items TEXT NOT NULL DEFAULT '[]',
            notes TEXT,
            created_at TEXT NOT NULL,
            updated_at TEXT NOT NULL,
            FOREIGN KEY (artist_id) REFERENCES artists (id) ON DELETE CASCADE,
            FOREIGN KEY (project_id) REFERENCES projects (id) ON DELETE SET NULL
        )",
            ),
            Step::CreateTable(Table::Songs) => String::from_str(
                "CREATE TABLE IF NOT EXISTS songs (
            id TEXT PRIMARY KEY,
            name TEXT NOT NULL,
            artist TEXT NOT NULL,
            album TEXT NOT NULL,
            duration REAL NOT NULL DEFAULT 0,
            path TEXT NOT NULL UNIQUE,
            genre TEXT,
            year INTEGER,
            track_number INTEGER,
            artist_id TEXT,
            album_id TEXT,
            date_added TEXT NOT NULL,
            play_count INTEGER NOT NULL DEFAULT 0,
            last_played TEXT
        )",
            ),
            Step::CreateTable(Table::Playlists) => String::from_str(
                "CREATE TABLE IF NOT EXISTS playlists (
            id TEXT PRIMARY KEY,
            name TEXT NOT NULL,
            description TEXT,
            color TEXT,
            artwork_path TEXT,
            artist_id TEXT,
            date_created TEXT NOT NULL
        )",
            ),
            Step::CreateTable(Table::PlaylistSongs) => String::from_str(
                "CREATE TABLE IF NOT EXISTS playlist_songs (
            playlist_id TEXT NOT NULL,
            song_id TEXT NOT NULL,
            position INTEGER NOT NULL,
            PRIMARY KEY (playlist_id, song_id),
            FOREIGN KEY (playlist_id) REFERENCES playlists (id) ON DELETE CASCADE,
            FOREIGN KEY (song_id) REFERENCES songs (id) ON DELETE CASCADE
        )",
            ),
            Step::AddColumn(LateColumn::ArtistCompanyName) => String::from_str(
                "ALTER TABLE artists ADD COLUMN company_name TEXT",
            ),
            Step::AddColumn(LateColumn::ArtistWireDetails) => String::from_str(
                "ALTER TABLE artists ADD COLUMN wire_details TEXT",
            ),
            Step::AddColumn(LateColumn::InvoiceBillTo) => String::from_str(
                "ALTER TABLE invoices ADD COLUMN bill_to TEXT",
            ),
            Step::CreateIndex(Index::ProjectsArtistId) => String::from_str(
                "CREATE INDEX IF NOT EXISTS idx_projects_artist_id ON projects(artist_id)",
            ),
            Step::CreateIndex(Index::ProjectsStatus) => String::from_str(
                "CREATE INDEX IF NOT EXISTS idx_projects_status ON projects(status)",
            ),
            Step::CreateIndex(Index::ProjectsCreatedAt) => String::from_str(
                "CREATE INDEX IF NOT EXISTS idx_projects_created_at ON projects(created_at DESC)",
            ),
            Step::CreateIndex(Index::InvoicesArtistId) => String::from_str(
                "CREATE INDEX IF NOT EXISTS idx_invoices_artist_id ON invoices(artist_id)",
            ),
            Step::CreateIndex(Index::InvoicesProjectId) => String::from_str(
                "CREATE INDEX IF NOT EXISTS idx_invoices_project_id ON invoices(project_id)",
            ),
            Step::CreateIndex(Index::InvoicesStatus) => String::from_str(
                "CREATE INDEX IF NOT EXISTS idx_invoices_status ON invoices(status)",
            ),
            Step::CreateIndex(Index::InvoicesCreatedAt) => String::from_str(
                "CREATE INDEX IF NOT EXISTS idx_invoices_created_at ON invoices(created_at DESC)",
            ),
            Step::CreateIndex(Index::InvoicesDueDate) => String::from_str(
                "CREATE INDEX IF NOT EXISTS idx_invoices_due_date ON invoices(due_date)",
            ),
            Step::CreateIndex(Index::PlaylistSongsPosition) => String::from_str(
                "CREATE INDEX IF NOT EXISTS idx_playlist_songs_position ON playlist_songs(playlist_id, position)",
            ),
        }
    }
}

/// The step that adds `column`, where a table reports `live` as its columns:
/// planned for a table that exists (it reports at least one column) and
/// lacks the column. A table that is absent gets the column at its creation.
pub open spec fn catch_up(live: Seq<Seq<char>>, column: LateColumn) -> Seq<Step> {
    if live.len() > 0 && !live.contains(column.name_text()) {
        seq![Step::AddColumn(column)]
    } else {
        Seq::empty()
    }
}

/// The indexes, in the order of their creation.
pub open spec fn index_steps() -> Seq<Step> {
    seq![
        Step::CreateIndex(Index::ProjectsArtistId),
        Step::CreateIndex(Index::ProjectsStatus),
        Step::CreateIndex(Index::ProjectsCreatedAt),
        Step::CreateIndex(Index::InvoicesArtistId),
        Step::CreateIndex(Index::InvoicesProjectId),
        Step::CreateIndex(Index::InvoicesStatus),
        Step::CreateIndex(Index::InvoicesCreatedAt),
        Step::CreateIndex(Index::InvoicesDueDate),
        Step::CreateIndex(Index::PlaylistSongsPosition),
    ]
}

/// The tables of the music library, in the order of their creation: the
/// memberships last, since they refer to the two others.
pub open spec fn music_steps() -> Seq<Step> {
    seq![
        Step::CreateTable(Table::Songs),
        Step::CreateTable(Table::Playlists),
        Step::CreateTable(Table::PlaylistSongs),
    ]
}

/// The whole plan for both families of records, given the columns that the artists and the invoices table
/// report before anything is executed (none for a table that is absent).
pub open spec fn init_plan(artist_columns: Seq<Seq<char>>, invoice_columns: Seq<Seq<char>>) -> Seq<
    Step,
> {
    seq![Step::CreateTable(Table::Artists)] + catch_up(artist_columns, LateColumn::ArtistCompanyName)
        + catch_up(artist_columns, LateColumn::ArtistWireDetails) + seq![
        Step::CreateTable(Table::Projects),
        Step::CreateTable(Table::Invoices),
    ] + catch_up(invoice_columns, LateColumn::InvoiceBillTo) + music_steps() + index_steps()
}

/// The columns that the artists table has at its creation.
pub open spec fn artist_columns_at_creation() -> Seq<Seq<char>> {
    seq![
        "id"@,
        "name"@,
        "company_name"@,
        "email"@,
        "phone"@,
        "address"@,
        "wire_details"@,
        "notes"@,
        "created_at"@,
        "updated_at"@,
    ]
}

/// The columns that the invoices table has at its creation.
pub open spec fn invoice_columns_at_creation() -> Seq<Seq<char>> {
    seq![
        "id"@,
        "artist_id"@,
        "project_id"@,
        "invoice_number"@,
        "amount"@,
        "status"@,
        "issue_date"@,
        "due_date"@,
        "paid_date"@,
        "bill_to"@,
        "items"@,
        "notes"@,
        "created_at"@,
        "updated_at"@,
    ]
}

/// The columns that a table reports once the plan has been executed: those
/// of its creation if it was absent, else the live ones followed by the
/// columns that the plan adds to it.
pub open spec fn columns_after(
    live: Seq<Seq<char>>,
    at_creation: Seq<Seq<char>>,
    added: Seq<Step>,
) -> Seq<Seq<char>> {
    if live.len() == 0 {
        at_creation
    } else {
        live + added.map_values(
            |s: Step|
                match s {
                    Step::AddColumn(c) => c.name_text(),
                    _ => Seq::empty(),
                },
        )
    }
}

/// Whether some string of `names` reads `wanted`.
pub fn has_name(names: &Vec<String>, wanted: &String) -> (found: bool)
    ensures
        found == names.deep_view().contains(wanted@),
{
    let mut i: usize = 0;
    while i < names.len()
        invariant
            i <= names.len(),
            forall|k: int| 0 <= k < i ==> #[trigger] names.deep_view()[k] != wanted@,
        decreases names.len() - i,
    {
        if names[i] == *wanted {
            assert(names.deep_view()[i as int] == wanted@);
            return true;
        }
        i = i + 1;
    }
    false
}

/// Appends to `plan` the step that adds `column`, if `catch_up` plans one.
pub fn plan_catch_up(plan: &mut Vec<Step>, live: &Vec<String>, column: LateColumn)
    ensures
        final(plan)@ == old(plan)@ + catch_up(live.deep_view(), column),
{
    if live.len() > 0 && !has_name(live, &column.name()) {
        plan.push(Step::AddColumn(column));
        assert(plan@ =~= old(plan)@ + seq![Step::AddColumn(column)]);
    } else {
        assert(plan@ =~= old(plan)@ + Seq::<Step>::empty());
    }
}

/// A table that exists is never created anew by a column step, and a column
/// step is planned only for a column that its table lacks: no step of the
/// plan can fail on what is already there, and none drops or renames.
pub proof fn lemma_plan_only_adds_what_is_missing(
    artist_columns: Seq<Seq<char>>,
    invoice_columns: Seq<Seq<char>>,
    column: LateColumn,
)
    requires
        init_plan(artist_columns, invoice_columns).contains(Step::AddColumn(column)),
    ensures
        column.table() == Table::Artists ==> artist_columns.len() > 0 && !artist_columns.contains(
            column.name_text(),
        ),
        column.table() == Table::Invoices ==> invoice_columns.len() > 0
            && !invoice_columns.contains(column.name_text()),
{
    let plan = init_plan(artist_columns, invoice_columns);
    let k = choose|k: int| 0 <= k < plan.len() && plan[k] == Step::AddColumn(column);
    let a = seq![Step::CreateTable(Table::Artists)];
    let b = catch_up(artist_columns, LateColumn::ArtistCompanyName);
    let c = catch_up(artist_columns, LateColumn::ArtistWireDetails);
    let d = seq![Step::CreateTable(Table::Projects), Step::CreateTable(Table::Invoices)];
    let e = catch_up(invoice_columns, LateColumn::InvoiceBillTo);
    let f = index_steps();
    let g = music_steps();
    assert(plan == a + b + c + d + e + g + f);
    lemma_concat_member(a + b + c + d + e + g, f, Step::AddColumn(column));
    lemma_concat_member(a + b + c + d + e, g, Step::AddColumn(column));
    if g.contains(Step::AddColumn(column)) {
        let m = choose|m: int| 0 <= m < g.len() && g[m] == Step::AddColumn(column);
    }
    lemma_concat_member(a + b + c + d, e, Step::AddColumn(column));
    lemma_concat_member(a + b + c, d, Step::AddColumn(column));
    lemma_concat_member(a + b, c, Step::AddColumn(column));
    lemma_concat_member(a, b, Step::AddColumn(column));
    if f.contains(Step::AddColumn(column)) {
        let m = choose|m: int| 0 <= m < f.len() && f[m] == Step::AddColumn(column);
    }
    if d.contains(Step::AddColumn(column)) {
        let m = choose|m: int| 0 <= m < d.len() && d[m] == Step::AddColumn(column);
    }
    if a.contains(Step::AddColumn(column)) {
        let m = choose|m: int| 0 <= m < a.len() && a[m] == Step::AddColumn(column);
    }
    if b.contains(Step::AddColumn(column)) {
        let m = choose|m: int| 0 <= m < b.len() && b[m] == Step::AddColumn(column);
    }
    if c.contains(Step::AddColumn(column)) {
        let m = choose|m: int| 0 <= m < c.len() && c[m] == Step::AddColumn(column);
    }
    if e.contains(Step::AddColumn(column)) {
        let m = choose|m: int| 0 <= m < e.len() && e[m] == Step::AddColumn(column);
    }
}

/// A member of a concatenation is a member of one of its parts.
pub proof fn lemma_concat_member<T>(a: Seq<T>, b: Seq<T>, x: T)
    ensures
        (a + b).contains(x) <==> a.contains(x) || b.contains(x),
{
    if (a + b).contains(x) {
        let k = choose|k: int| 0 <= k < (a + b).len() && (a + b)[k] == x;
        if k < a.len() {
            assert(a[k] == x);
        } else {
            assert(b[k - a.len()] == x);
        }
    }
    if a.contains(x) {
        let k = choose|k: int| 0 <= k < a.len() && a[k] == x;
        assert((a + b)[k] == x);
    }
    if b.contains(x) {
        let k = choose|k: int| 0 <= k < b.len() && b[k] == x;
        assert((a + b)[k + a.len()] == x);
    }
}

/// Planning is idempotent: on the columns that the tables report once a plan
/// has been executed, the next plan adds no column.
pub proof fn lemma_plan_settles(artist_columns: Seq<Seq<char>>, invoice_columns: Seq<Seq<char>>)
    ensures
        ({
            let artists_next = columns_after(
                artist_columns,
                artist_columns_at_creation(),
                catch_up(artist_columns, LateColumn::ArtistCompanyName) + catch_up(
                    artist_columns,
                    LateColumn::ArtistWireDetails,
                ),
            );
            let invoices_next = columns_after(
                invoice_columns,
                invoice_columns_at_creation(),
                catch_up(invoice_columns, LateColumn::InvoiceBillTo),
            );
            init_plan(artists_next, invoices_next) == seq![Step::CreateTable(Table::Artists)]
                + seq![Step::CreateTable(Table::Projects), Step::CreateTable(Table::Invoices)]
                + music_steps() + index_steps()
        }),
{
    let added_a = catch_up(artist_columns, LateColumn::ArtistCompanyName) + catch_up(
        artist_columns,
        LateColumn::ArtistWireDetails,
    );
    let added_v = catch_up(invoice_columns, LateColumn::InvoiceBillTo);
    let artists_next = columns_after(artist_columns, artist_columns_at_creation(), added_a);
    let invoices_next = columns_after(invoice_columns, invoice_columns_at_creation(), added_v);
    let name = |s: Step|
        match s {
            Step::AddColumn(c) => c.name_text(),
            _ => Seq::empty(),
        };
    assert(artists_next.contains("company_name"@)) by {
        if artist_columns.len() == 0 {
            assert(artists_next[2] == "company_name"@);
        } else if artist_columns.contains("company_name"@) {
            let k = choose|k: int| 0 <= k < artist_columns.len() && artist_columns[k] == "company_name"@;
            assert(artists_next[k] == "company_name"@);
        } else {
            assert(added_a[0] == Step::AddColumn(LateColumn::ArtistCompanyName));
            assert(artists_next[artist_columns.len() as int] == name(added_a[0]));
        }
    }
    assert(artists_next.contains("wire_details"@)) by {
        if artist_columns.len() == 0 {
            assert(artists_next[6] == "wire_details"@);
        } else if artist_columns.contains("wire_details"@) {
            let k = choose|k: int| 0 <= k < artist_columns.len() && artist_columns[k] == "wire_details"@;
            assert(artists_next[k] == "wire_details"@);
        } else {
            let at = added_a.len() - 1;
            assert(added_a[at] == Step::AddColumn(LateColumn::ArtistWireDetails));
            assert(artists_next[artist_columns.len() + at] == name(added_a[at]));
        }
    }
    assert(invoices_next.contains("bill_to"@)) by {
        if invoice_columns.len() == 0 {
            assert(invoices_next[9] == "bill_to"@);
        } else if invoice_columns.contains("bill_to"@) {
            let k = choose|k: int| 0 <= k < invoice_columns.len() && invoice_columns[k] == "bill_to"@;
            assert(invoices_next[k] == "bill_to"@);
        } else {
            assert(added_v[0] == Step::AddColumn(LateColumn::InvoiceBillTo));
            assert(invoices_next[invoice_columns.len() as int] == name(added_v[0]));
        }
    }
    assert(init_plan(artists_next, invoices_next) =~= seq![Step::CreateTable(Table::Artists)]
        + seq![Step::CreateTable(Table::Projects), Step::CreateTable(Table::Invoices)]
        + music_steps() + index_steps());
}

} // verus!
