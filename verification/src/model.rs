//! The relational model of the invoicing store.
//!
//! Tables are sequences of rows in insertion order. The functions of this
//! module say, on that model alone, what each operation of the store does and
//! which rules every reachable state obeys; the executable store refines them.

use vstd::prelude::*;
use crate::sorting::{
    arranged, in_order, lemma_listing_order_permutes, lemma_listing_order_sorted,
    lemma_listing_order_stable, listing_order,
};

verus! {

/// Text as the store sees it: a sequence of characters.
pub type Text = Seq<char>;

/// The status under which an invoice counts as paid.
pub open spec fn paid_text() -> Text {
    seq!['p', 'a', 'i', 'd']
}

pub struct ArtistView {
    pub id: Text,
    pub name: Text,
    pub company_name: Option<Text>,
    pub email: Option<Text>,
    pub phone: Option<Text>,
    pub address: Option<Text>,
    pub wire_details: Option<Text>,
    pub notes: Option<Text>,
    pub created_at: Text,
    pub updated_at: Text,
}

pub struct ProjectView {
    pub id: Text,
    pub artist_id: Text,
    pub name: Text,
    pub description: Option<Text>,
    pub status: Text,
    pub start_date: Option<Text>,
    pub end_date: Option<Text>,
    pub budget_bits: u64,
    pub created_at: Text,
    pub updated_at: Text,
}

pub struct InvoiceView {
    pub id: Text,
    pub artist_id: Text,
    pub project_id: Option<Text>,
    pub invoice_number: Text,
    pub amount_bits: u64,
    pub status: Text,
    pub issue_date: Text,
    pub due_date: Text,
    pub paid_date: Option<Text>,
    pub bill_to: Option<Text>,
    pub items: Text,
    pub notes: Option<Text>,
    pub created_at: Text,
    pub updated_at: Text,
}

impl InvoiceView {
    /// The same invoice with its project reference cleared.
    pub open spec fn detached(self) -> InvoiceView {
        InvoiceView { project_id: None, ..self }
    }
}

/// The rows in listing order: sorted by `key`, descending or ascending, rows
/// of equal key in insertion order.
pub open spec fn listed<T>(rows: Seq<T>, key: spec_fn(T) -> Text, descending: bool) -> Seq<T> {
    arranged(rows, listing_order(rows.map_values(key), descending))
}

/// A listing shows every row once, in the order of the keys, and rows of
/// equal key in the order in which they stand in the table.
pub proof fn lemma_listed<T>(rows: Seq<T>, key: spec_fn(T) -> Text, descending: bool)
    ensures
        listed(rows, key, descending).len() == rows.len(),
        forall|i: int| 0 <= i < rows.len() ==> listed(rows, key, descending).contains(#[trigger] rows[i]),
        forall|k: int, m: int|
            0 <= k < m < rows.len() ==> in_order(
                key(#[trigger] listed(rows, key, descending)[k]),
                key(#[trigger] listed(rows, key, descending)[m]),
                descending,
            ),
        forall|k: int, m: int|
            0 <= k < m < rows.len() ==> exists|i: int, j: int|
                0 <= i < rows.len() && 0 <= j < rows.len() && i != j && rows[i] == #[trigger] listed(
                    rows,
                    key,
                    descending,
                )[k] && rows[j] == #[trigger] listed(rows, key, descending)[m] && (in_order(
                    key(rows[j]),
                    key(rows[i]),
                    descending,
                ) ==> i < j),
{
    let keys = rows.map_values(key);
    let order = listing_order(keys, descending);
    let out = listed(rows, key, descending);
    lemma_listing_order_permutes(keys, descending);
    lemma_listing_order_sorted(keys, descending);
    lemma_listing_order_stable(keys, descending);
    assert forall|i: int| 0 <= i < rows.len() implies out.contains(#[trigger] rows[i]) by {
        assert(order.contains(i));
        let k = choose|k: int| 0 <= k < order.len() && order[k] == i;
        assert(out[k] == rows[i]);
    }
    assert forall|k: int, m: int| 0 <= k < m < rows.len() implies in_order(
        key(#[trigger] out[k]),
        key(#[trigger] out[m]),
        descending,
    ) by {
        assert(in_order(keys[order[k]], keys[order[m]], descending));
    }
    assert forall|k: int, m: int| 0 <= k < m < rows.len() implies exists|i: int, j: int|
        0 <= i < rows.len() && 0 <= j < rows.len() && i != j && rows[i] == #[trigger] out[k]
            && rows[j] == #[trigger] out[m] && (in_order(key(rows[j]), key(rows[i]), descending)
            ==> i < j) by {
        let i = order[k];
        let j = order[m];
        assert(order[k] != order[m]);
        assert(keys[i] == key(rows[i]) && keys[j] == key(rows[j]));
        assert(rows[i] == out[k] && rows[j] == out[m]);
    }
}

/// The three tables of the invoicing store.
pub struct StoreView {
    pub artists: Seq<ArtistView>,
    pub projects: Seq<ProjectView>,
    pub invoices: Seq<InvoiceView>,
}

impl StoreView {
    /// The store without any row.
    pub open spec fn empty() -> StoreView {
        StoreView { artists: Seq::empty(), projects: Seq::empty(), invoices: Seq::empty() }
    }

    pub open spec fn has_artist(self, id: Text) -> bool {
        exists|i: int| 0 <= i < self.artists.len() && (#[trigger] self.artists[i]).id == id
    }

    pub open spec fn has_project(self, id: Text) -> bool {
        exists|i: int| 0 <= i < self.projects.len() && (#[trigger] self.projects[i]).id == id
    }

    pub open spec fn has_invoice(self, id: Text) -> bool {
        exists|i: int| 0 <= i < self.invoices.len() && (#[trigger] self.invoices[i]).id == id
    }

    /// Some invoice other than the one called `except` carries the number `number`.
    pub open spec fn number_taken(self, number: Text, except: Text) -> bool {
        exists|i: int|
            0 <= i < self.invoices.len() && (#[trigger] self.invoices[i]).invoice_number == number
                && self.invoices[i].id != except
    }

    /// Some invoice carries the number `number`.
    pub open spec fn has_invoice_number(self, number: Text) -> bool {
        exists|i: int|
            0 <= i < self.invoices.len() && (#[trigger] self.invoices[i]).invoice_number == number
    }

    /// The project `id` exists and belongs to the artist `artist_id`.
    pub open spec fn project_owned_by(self, id: Text, artist_id: Text) -> bool {
        exists|i: int|
            0 <= i < self.projects.len() && (#[trigger] self.projects[i]).id == id
                && self.projects[i].artist_id == artist_id
    }

    pub open spec fn artist_index(self, id: Text) -> int {
        choose|i: int| 0 <= i < self.artists.len() && (#[trigger] self.artists[i]).id == id
    }

    pub open spec fn project_index(self, id: Text) -> int {
        choose|i: int| 0 <= i < self.projects.len() && (#[trigger] self.projects[i]).id == id
    }

    pub open spec fn invoice_index(self, id: Text) -> int {
        choose|i: int| 0 <= i < self.invoices.len() && (#[trigger] self.invoices[i]).id == id
    }

    /// The row of the artist `id`; meaningful where `has_artist(id)`.
    pub open spec fn artist(self, id: Text) -> ArtistView {
        self.artists[self.artist_index(id)]
    }

    /// The row of the project `id`; meaningful where `has_project(id)`.
    pub open spec fn project(self, id: Text) -> ProjectView {
        self.projects[self.project_index(id)]
    }

    /// The row of the invoice `id`; meaningful where `has_invoice(id)`.
    pub open spec fn invoice(self, id: Text) -> InvoiceView {
        self.invoices[self.invoice_index(id)]
    }

    /// Within each table an id names one row, and an invoice number one invoice.
    pub open spec fn keys_unique(self) -> bool {
        &&& forall|i: int, j: int|
            0 <= i < j < self.artists.len() ==> (#[trigger] self.artists[i]).id != (
            #[trigger] self.artists[j]).id
        &&& forall|i: int, j: int|
            0 <= i < j < self.projects.len() ==> (#[trigger] self.projects[i]).id != (
            #[trigger] self.projects[j]).id
        &&& forall|i: int, j: int|
            0 <= i < j < self.invoices.len() ==> (#[trigger] self.invoices[i]).id != (
            #[trigger] self.invoices[j]).id
        &&& forall|i: int, j: int|
            0 <= i < j < self.invoices.len() ==> (#[trigger] self.invoices[i]).invoice_number != (
            #[trigger] self.invoices[j]).invoice_number
    }

    /// Every reference from one row to another names a row that exists.
    pub open spec fn references_resolve(self) -> bool {
        &&& forall|i: int|
            0 <= i < self.projects.len() ==> self.has_artist((#[trigger] self.projects[i]).artist_id)
        &&& forall|i: int|
            0 <= i < self.invoices.len() ==> self.has_artist((#[trigger] self.invoices[i]).artist_id)
        &&& forall|i: int|
            0 <= i < self.invoices.len() ==> ((#[trigger] self.invoices[i]).project_id matches Some(p)
                ==> self.has_project(p))
    }

    /// An invoice carries a payment date only while its status is "paid".
    pub open spec fn paid_dates_follow_status(self) -> bool {
        forall|i: int|
            0 <= i < self.invoices.len() ==> ((#[trigger] self.invoices[i]).paid_date is Some
                ==> self.invoices[i].status == paid_text())
    }

    /// The rules that every state of the store obeys.
    pub open spec fn wf(self) -> bool {
        &&& self.keys_unique()
        &&& self.references_resolve()
        &&& self.paid_dates_follow_status()
    }

    /// All artists, by name.
    pub open spec fn artists_by_name(self) -> Seq<ArtistView> {
        listed(self.artists, |a: ArtistView| a.name, false)
    }

    /// All projects, the latest created first.
    pub open spec fn projects_latest_first(self) -> Seq<ProjectView> {
        listed(self.projects, |p: ProjectView| p.created_at, true)
    }

    /// The projects of one artist, the latest created first.
    pub open spec fn projects_of(self, artist_id: Text) -> Seq<ProjectView> {
        listed(
            self.projects.filter(|p: ProjectView| p.artist_id == artist_id),
            |p: ProjectView| p.created_at,
            true,
        )
    }

    /// All invoices, the latest created first.
    pub open spec fn invoices_latest_first(self) -> Seq<InvoiceView> {
        listed(self.invoices, |v: InvoiceView| v.created_at, true)
    }

    /// The invoices of one artist, the latest created first.
    pub open spec fn invoices_of(self, artist_id: Text) -> Seq<InvoiceView> {
        listed(
            self.invoices.filter(|v: InvoiceView| v.artist_id == artist_id),
            |v: InvoiceView| v.created_at,
            true,
        )
    }

    pub open spec fn with_artist(self, row: ArtistView) -> StoreView {
        StoreView { artists: self.artists.push(row), ..self }
    }

    pub open spec fn with_project(self, row: ProjectView) -> StoreView {
        StoreView { projects: self.projects.push(row), ..self }
    }

    pub open spec fn with_invoice(self, row: InvoiceView) -> StoreView {
        StoreView { invoices: self.invoices.push(row), ..self }
    }

    /// The store in which `row` stands in place of the artist of the same id.
    pub open spec fn replace_artist(self, row: ArtistView) -> StoreView {
        StoreView {
            artists: self.artists.map_values(
                |a: ArtistView|
                    if a.id == row.id {
                        row
                    } else {
                        a
                    },
            ),
            ..self
        }
    }

    /// The store in which `row` stands in place of the project of the same id.
    pub open spec fn replace_project(self, row: ProjectView) -> StoreView {
        StoreView {
            projects: self.projects.map_values(
                |p: ProjectView|
                    if p.id == row.id {
                        row
                    } else {
                        p
                    },
            ),
            ..self
        }
    }

    /// The store in which `row` stands in place of the invoice of the same id.
    pub open spec fn replace_invoice(self, row: InvoiceView) -> StoreView {
        StoreView {
            invoices: self.invoices.map_values(
                |v: InvoiceView|
                    if v.id == row.id {
                        row
                    } else {
                        v
                    },
            ),
            ..self
        }
    }

    /// Deleting an artist removes the artist, its projects and its invoices,
    /// and clears the project reference of every other invoice that pointed
    /// at one of the removed projects.
    pub open spec fn without_artist(self, id: Text) -> StoreView {
        StoreView {
            artists: self.artists.filter(|a: ArtistView| a.id != id),
            projects: self.projects.filter(|p: ProjectView| p.artist_id != id),
            invoices: self.invoices.filter(|v: InvoiceView| v.artist_id != id).map_values(
                |v: InvoiceView|
                    if v.project_id is Some && self.project_owned_by(v.project_id->0, id) {
                        v.detached()
                    } else {
                        v
                    },
            ),
        }
    }

    /// Deleting a project removes it and clears the project reference of the
    /// invoices that pointed at it; no invoice is removed.
    pub open spec fn without_project(self, id: Text) -> StoreView {
        StoreView {
            projects: self.projects.filter(|p: ProjectView| p.id != id),
            invoices: self.invoices.map_values(
                |v: InvoiceView|
                    if v.project_id == Some(id) {
                        v.detached()
                    } else {
                        v
                    },
            ),
            ..self
        }
    }

    pub open spec fn without_invoice(self, id: Text) -> StoreView {
        StoreView { invoices: self.invoices.filter(|v: InvoiceView| v.id != id), ..self }
    }
}

impl StoreView {
    /// Whether `row` may join the artists: its id must be new.
    pub open spec fn accepts_artist(self, row: ArtistView) -> bool {
        !self.has_artist(row.id)
    }

    /// Whether `row` may join the projects: its id must be new and its artist must exist.
    pub open spec fn accepts_project(self, row: ProjectView) -> bool {
        &&& !self.has_project(row.id)
        &&& self.has_artist(row.artist_id)
    }

    /// Whether `row` may join the invoices: id and number must be new, and
    /// the artist, and the project if one is named, must exist.
    pub open spec fn accepts_invoice(self, row: InvoiceView) -> bool {
        &&& !self.has_invoice(row.id)
        &&& !self.has_invoice_number(row.invoice_number)
        &&& self.has_artist(row.artist_id)
        &&& (row.project_id matches Some(p) ==> self.has_project(p))
    }

    /// In a store that obeys the rules, the row found under an id is the one
    /// row of that id.
    pub proof fn lemma_artist_at(self, i: int)
        requires
            self.keys_unique(),
            0 <= i < self.artists.len(),
        ensures
            self.has_artist(self.artists[i].id),
            self.artist(self.artists[i].id) == self.artists[i],
    {
        let id = self.artists[i].id;
        let k = self.artist_index(id);
        assert(0 <= k < self.artists.len() && self.artists[k].id == id);
        if k < i {
            assert(self.artists[k].id != self.artists[i].id);
        } else if i < k {
            assert(self.artists[i].id != self.artists[k].id);
        }
    }

    pub proof fn lemma_project_at(self, i: int)
        requires
            self.keys_unique(),
            0 <= i < self.projects.len(),
        ensures
            self.has_project(self.projects[i].id),
            self.project(self.projects[i].id) == self.projects[i],
    {
        let id = self.projects[i].id;
        let k = self.project_index(id);
        assert(0 <= k < self.projects.len() && self.projects[k].id == id);
        if k < i {
            assert(self.projects[k].id != self.projects[i].id);
        } else if i < k {
            assert(self.projects[i].id != self.projects[k].id);
        }
    }

    pub proof fn lemma_invoice_at(self, i: int)
        requires
            self.keys_unique(),
            0 <= i < self.invoices.len(),
        ensures
            self.has_invoice(self.invoices[i].id),
            self.invoice(self.invoices[i].id) == self.invoices[i],
    {
        let id = self.invoices[i].id;
        let k = self.invoice_index(id);
        assert(0 <= k < self.invoices.len() && self.invoices[k].id == id);
        if k < i {
            assert(self.invoices[k].id != self.invoices[i].id);
        } else if i < k {
            assert(self.invoices[i].id != self.invoices[k].id);
        }
    }

    /// Adding an accepted artist keeps the rules.
    pub proof fn lemma_with_artist_wf(self, row: ArtistView)
        requires
            self.wf(),
            self.accepts_artist(row),
        ensures
            self.with_artist(row).wf(),
    {
        let next = self.with_artist(row);
        assert forall|i: int, j: int| 0 <= i < j < next.artists.len() implies (
        #[trigger] next.artists[i]).id != (#[trigger] next.artists[j]).id by {
            assert(next.artists[i] == self.artists[i]);
            if j < self.artists.len() {
                assert(next.artists[j] == self.artists[j]);
            }
        }
        assert forall|id: Text| self.has_artist(id) implies next.has_artist(id) by {
            let k = self.artist_index(id);
            assert(next.artists[k].id == id);
        }
    }

    /// Adding an accepted project keeps the rules.
    pub proof fn lemma_with_project_wf(self, row: ProjectView)
        requires
            self.wf(),
            self.accepts_project(row),
        ensures
            self.with_project(row).wf(),
    {
        let next = self.with_project(row);
        assert forall|i: int, j: int| 0 <= i < j < next.projects.len() implies (
        #[trigger] next.projects[i]).id != (#[trigger] next.projects[j]).id by {
            assert(next.projects[i] == self.projects[i]);
            if j < self.projects.len() {
                assert(next.projects[j] == self.projects[j]);
            }
        }
        assert forall|id: Text| self.has_project(id) implies next.has_project(id) by {
            let k = self.project_index(id);
            assert(next.projects[k].id == id);
        }
        assert forall|i: int| 0 <= i < next.projects.len() implies next.has_artist(
            (#[trigger] next.projects[i]).artist_id,
        ) by {
            if i < self.projects.len() {
                assert(next.projects[i] == self.projects[i]);
            }
        }
    }

    /// Adding an accepted invoice that carries no payment date keeps the rules.
    pub proof fn lemma_with_invoice_wf(self, row: InvoiceView)
        requires
            self.wf(),
            self.accepts_invoice(row),
            row.paid_date is Some ==> row.status == paid_text(),
        ensures
            self.with_invoice(row).wf(),
    {
        let next = self.with_invoice(row);
        assert forall|i: int, j: int| 0 <= i < j < next.invoices.len() implies (
        #[trigger] next.invoices[i]).id != (#[trigger] next.invoices[j]).id && next.invoices[i].invoice_number
            != next.invoices[j].invoice_number by {
            assert(next.invoices[i] == self.invoices[i]);
            if j < self.invoices.len() {
                assert(next.invoices[j] == self.invoices[j]);
            }
        }
        assert forall|i: int| 0 <= i < next.invoices.len() implies next.has_artist(
            (#[trigger] next.invoices[i]).artist_id,
        ) && (next.invoices[i].project_id matches Some(p) ==> next.has_project(p)) && (
        next.invoices[i].paid_date is Some ==> next.invoices[i].status == paid_text()) by {
            if i < self.invoices.len() {
                assert(next.invoices[i] == self.invoices[i]);
            }
        }
    }

    /// Replacing an artist's row by one of the same id keeps the rules.
    pub proof fn lemma_replace_artist_wf(self, row: ArtistView)
        requires
            self.wf(),
        ensures
            self.replace_artist(row).wf(),
    {
        let next = self.replace_artist(row);
        assert forall|i: int| 0 <= i < self.artists.len() implies (#[trigger] next.artists[i]).id
            == self.artists[i].id by {}
        assert forall|id: Text| self.has_artist(id) implies next.has_artist(id) by {
            let k = self.artist_index(id);
            assert(next.artists[k].id == id);
        }
        assert forall|i: int, j: int| 0 <= i < j < next.artists.len() implies (
        #[trigger] next.artists[i]).id != (#[trigger] next.artists[j]).id by {
            assert(self.artists[i].id != self.artists[j].id);
        }
    }

    /// Replacing a project's row by one of the same id and the same artist keeps the rules.
    pub proof fn lemma_replace_project_wf(self, row: ProjectView)
        requires
            self.wf(),
            self.has_project(row.id) ==> row.artist_id == self.project(row.id).artist_id,
        ensures
            self.replace_project(row).wf(),
    {
        let next = self.replace_project(row);
        assert forall|i: int| 0 <= i < self.projects.len() implies (#[trigger] next.projects[i]).id
            == self.projects[i].id && next.projects[i].artist_id == self.projects[i].artist_id by {
            self.lemma_project_at(i);
        }
        assert forall|id: Text| self.has_project(id) implies next.has_project(id) by {
            let k = self.project_index(id);
            assert(next.projects[k].id == id);
        }
        assert forall|i: int, j: int| 0 <= i < j < next.projects.len() implies (
        #[trigger] next.projects[i]).id != (#[trigger] next.projects[j]).id by {
            assert(self.projects[i].id != self.projects[j].id);
        }
        assert forall|i: int| 0 <= i < next.projects.len() implies next.has_artist(
            (#[trigger] next.projects[i]).artist_id,
        ) by {
            assert(self.has_artist(self.projects[i].artist_id));
        }
    }

    /// Replacing an invoice's row keeps the rules where the new row keeps the
    /// artist and the project, bears a number that no other invoice bears, and
    /// carries a payment date only under the status "paid".
    pub proof fn lemma_replace_invoice_wf(self, row: InvoiceView)
        requires
            self.wf(),
            self.has_invoice(row.id),
            row.artist_id == self.invoice(row.id).artist_id,
            row.project_id == self.invoice(row.id).project_id,
            !self.number_taken(row.invoice_number, row.id),
            row.paid_date is Some ==> row.status == paid_text(),
        ensures
            self.replace_invoice(row).wf(),
    {
        let next = self.replace_invoice(row);
        assert forall|i: int| 0 <= i < self.invoices.len() implies (#[trigger] next.invoices[i]).id
            == self.invoices[i].id && next.invoices[i].artist_id == self.invoices[i].artist_id
            && next.invoices[i].project_id == self.invoices[i].project_id by {
            self.lemma_invoice_at(i);
        }
        assert forall|i: int, j: int| 0 <= i < j < next.invoices.len() implies (
        #[trigger] next.invoices[i]).id != (#[trigger] next.invoices[j]).id && next.invoices[i].invoice_number
            != next.invoices[j].invoice_number by {
            assert(self.invoices[i].id != self.invoices[j].id);
            assert(self.invoices[i].invoice_number != self.invoices[j].invoice_number);
        }
        assert forall|i: int| 0 <= i < next.invoices.len() implies next.has_artist(
            (#[trigger] next.invoices[i]).artist_id,
        ) && (next.invoices[i].project_id matches Some(p) ==> next.has_project(p)) && (
        next.invoices[i].paid_date is Some ==> next.invoices[i].status == paid_text()) by {
            assert(self.has_artist(self.invoices[i].artist_id));
        }
    }

    /// Deleting an artist keeps the rules: no reference is left dangling.
    pub proof fn lemma_without_artist_wf(self, id: Text)
        requires
            self.wf(),
        ensures
            self.without_artist(id).wf(),
            !self.without_artist(id).has_artist(id),
            forall|i: int|
                0 <= i < self.without_artist(id).projects.len() ==> (
                #[trigger] self.without_artist(id).projects[i]).artist_id != id,
            forall|i: int|
                0 <= i < self.without_artist(id).invoices.len() ==> (
                #[trigger] self.without_artist(id).invoices[i]).artist_id != id,
    {
        let next = self.without_artist(id);
        let keep_a = |a: ArtistView| a.id != id;
        let keep_p = |p: ProjectView| p.artist_id != id;
        let keep_v = |v: InvoiceView| v.artist_id != id;
        let kept = self.invoices.filter(keep_v);
        lemma_filter_rows(self.artists, keep_a);
        lemma_filter_rows(self.projects, keep_p);
        lemma_filter_rows(self.invoices, keep_v);
        let artist_id = |a: ArtistView| a.id;
        let project_id = |p: ProjectView| p.id;
        let invoice_id = |v: InvoiceView| v.id;
        let invoice_number = |v: InvoiceView| v.invoice_number;
        lemma_filter_distinct(self.artists, keep_a, artist_id);
        lemma_filter_distinct(self.projects, keep_p, project_id);
        lemma_filter_distinct(self.invoices, keep_v, invoice_id);
        lemma_filter_distinct(self.invoices, keep_v, invoice_number);
        assert(next.artists == self.artists.filter(keep_a));
        assert(next.projects == self.projects.filter(keep_p));
        assert forall|i: int, j: int| 0 <= i < j < next.artists.len() implies (
        #[trigger] next.artists[i]).id != (#[trigger] next.artists[j]).id by {
            assert(artist_id(next.artists[i]) != artist_id(next.artists[j]));
        }
        assert forall|i: int, j: int| 0 <= i < j < next.projects.len() implies (
        #[trigger] next.projects[i]).id != (#[trigger] next.projects[j]).id by {
            assert(project_id(next.projects[i]) != project_id(next.projects[j]));
        }
        assert forall|i: int| 0 <= i < next.invoices.len() implies (#[trigger] next.invoices[i]).id
            == kept[i].id && next.invoices[i].invoice_number == kept[i].invoice_number
            && next.invoices[i].artist_id == kept[i].artist_id && next.invoices[i].paid_date
            == kept[i].paid_date && next.invoices[i].status == kept[i].status by {}
        assert forall|a: Text| self.has_artist(a) && a != id implies next.has_artist(a) by {
            let k = self.artist_index(a);
            assert(self.artists.contains(self.artists[k]));
            assert(next.artists.contains(self.artists[k]));
            let m = choose|m: int| 0 <= m < next.artists.len() && next.artists[m] == self.artists[k];
            assert(next.artists[m].id == a);
        }
        if next.has_artist(id) {
            let m = choose|m: int| 0 <= m < next.artists.len() && (#[trigger] next.artists[m]).id == id;
            assert(next.artists.contains(next.artists[m]));
        }
        assert forall|i: int| 0 <= i < next.projects.len() implies (#[trigger] next.projects[i]).artist_id
            != id && next.has_artist(next.projects[i].artist_id) by {
            assert(next.projects.contains(next.projects[i]));
            assert(self.projects.contains(next.projects[i]));
            let m = choose|m: int| 0 <= m < self.projects.len() && self.projects[m] == next.projects[i];
            assert(self.has_artist(self.projects[m].artist_id));
        }
        assert forall|i: int| 0 <= i < next.invoices.len() implies (#[trigger] next.invoices[i]).artist_id
            != id && next.has_artist(next.invoices[i].artist_id) && (
        next.invoices[i].project_id matches Some(p) ==> next.has_project(p)) && (
        next.invoices[i].paid_date is Some ==> next.invoices[i].status == paid_text()) by {
            assert(kept.contains(kept[i]));
            assert(self.invoices.contains(kept[i]));
            let m = choose|m: int| 0 <= m < self.invoices.len() && self.invoices[m] == kept[i];
            assert(self.has_artist(self.invoices[m].artist_id));
            if next.invoices[i].project_id is Some {
                let p = next.invoices[i].project_id->0;
                assert(kept[i].project_id == Some(p));
                assert(!self.project_owned_by(p, id));
                assert(self.has_project(p));
                let k = self.project_index(p);
                assert(self.projects[k].artist_id != id);
                assert(self.projects.contains(self.projects[k]));
                assert(next.projects.contains(self.projects[k]));
                let n = choose|n: int|
                    0 <= n < next.projects.len() && next.projects[n] == self.projects[k];
                assert(next.projects[n].id == p);
            }
        }
        assert forall|i: int, j: int| 0 <= i < j < next.invoices.len() implies (
        #[trigger] next.invoices[i]).id != (#[trigger] next.invoices[j]).id && next.invoices[i].invoice_number
            != next.invoices[j].invoice_number by {
            assert(invoice_id(kept[i]) != invoice_id(kept[j]));
            assert(invoice_number(kept[i]) != invoice_number(kept[j]));
        }
    }

    /// Deleting a project keeps the rules, and removes no invoice.
    pub proof fn lemma_without_project_wf(self, id: Text)
        requires
            self.wf(),
        ensures
            self.without_project(id).wf(),
            !self.without_project(id).has_project(id),
            self.without_project(id).invoices.len() == self.invoices.len(),
            forall|i: int|
                0 <= i < self.invoices.len() ==> (#[trigger] self.without_project(id).invoices[i]).project_id
                    != Some(id),
    {
        let next = self.without_project(id);
        let keep_p = |p: ProjectView| p.id != id;
        lemma_filter_rows(self.projects, keep_p);
        let project_id = |p: ProjectView| p.id;
        lemma_filter_distinct(self.projects, keep_p, project_id);
        assert(next.projects == self.projects.filter(keep_p));
        assert forall|i: int, j: int| 0 <= i < j < next.projects.len() implies (
        #[trigger] next.projects[i]).id != (#[trigger] next.projects[j]).id by {
            assert(project_id(next.projects[i]) != project_id(next.projects[j]));
        }
        if next.has_project(id) {
            let m = choose|m: int| 0 <= m < next.projects.len() && (#[trigger] next.projects[m]).id == id;
            assert(next.projects.contains(next.projects[m]));
        }
        assert forall|i: int| 0 <= i < next.projects.len() implies next.has_artist(
            (#[trigger] next.projects[i]).artist_id,
        ) by {
            assert(next.projects.contains(next.projects[i]));
            assert(self.projects.contains(next.projects[i]));
            let m = choose|m: int| 0 <= m < self.projects.len() && self.projects[m] == next.projects[i];
            assert(self.has_artist(self.projects[m].artist_id));
        }
        assert forall|i: int| 0 <= i < next.invoices.len() implies next.has_artist(
            (#[trigger] next.invoices[i]).artist_id,
        ) && (next.invoices[i].project_id matches Some(p) ==> next.has_project(p)) && (
        next.invoices[i].paid_date is Some ==> next.invoices[i].status == paid_text())
            && next.invoices[i].project_id != Some(id) by {
            assert(self.has_artist(self.invoices[i].artist_id));
            if next.invoices[i].project_id is Some {
                let p = next.invoices[i].project_id->0;
                assert(self.invoices[i].project_id == Some(p));
                assert(self.has_project(p));
                let k = self.project_index(p);
                assert(self.projects.contains(self.projects[k]));
                assert(next.projects.contains(self.projects[k]));
                let n = choose|n: int|
                    0 <= n < next.projects.len() && next.projects[n] == self.projects[k];
                assert(next.projects[n].id == p);
            }
        }
        assert forall|i: int, j: int| 0 <= i < j < next.invoices.len() implies (
        #[trigger] next.invoices[i]).id != (#[trigger] next.invoices[j]).id && next.invoices[i].invoice_number
            != next.invoices[j].invoice_number by {
            assert(self.invoices[i].id != self.invoices[j].id);
            assert(self.invoices[i].invoice_number != self.invoices[j].invoice_number);
        }
    }

    /// Deleting an invoice keeps the rules.
    pub proof fn lemma_without_invoice_wf(self, id: Text)
        requires
            self.wf(),
        ensures
            self.without_invoice(id).wf(),
            !self.without_invoice(id).has_invoice(id),
    {
        let next = self.without_invoice(id);
        let keep_v = |v: InvoiceView| v.id != id;
        lemma_filter_rows(self.invoices, keep_v);
        let invoice_id = |v: InvoiceView| v.id;
        let invoice_number = |v: InvoiceView| v.invoice_number;
        lemma_filter_distinct(self.invoices, keep_v, invoice_id);
        lemma_filter_distinct(self.invoices, keep_v, invoice_number);
        assert(next.invoices == self.invoices.filter(keep_v));
        assert forall|i: int, j: int| 0 <= i < j < next.invoices.len() implies (
        #[trigger] next.invoices[i]).id != (#[trigger] next.invoices[j]).id && next.invoices[i].invoice_number
            != next.invoices[j].invoice_number by {
            assert(invoice_id(next.invoices[i]) != invoice_id(next.invoices[j]));
            assert(invoice_number(next.invoices[i]) != invoice_number(next.invoices[j]));
        }
        if next.has_invoice(id) {
            let m = choose|m: int| 0 <= m < next.invoices.len() && (#[trigger] next.invoices[m]).id == id;
            assert(next.invoices.contains(next.invoices[m]));
        }
        assert forall|i: int| 0 <= i < next.invoices.len() implies next.has_artist(
            (#[trigger] next.invoices[i]).artist_id,
        ) && (next.invoices[i].project_id matches Some(p) ==> next.has_project(p)) && (
        next.invoices[i].paid_date is Some ==> next.invoices[i].status == paid_text()) by {
            assert(next.invoices.contains(next.invoices[i]));
            assert(self.invoices.contains(next.invoices[i]));
            let m = choose|m: int| 0 <= m < self.invoices.len() && self.invoices[m] == next.invoices[i];
            assert(self.has_artist(self.invoices[m].artist_id));
        }
    }
}

/// No two rows of `rows` have the same `key`.
pub open spec fn distinct_by<T>(rows: Seq<T>, key: spec_fn(T) -> Text) -> bool {
    forall|i: int, j: int|
        0 <= i < j < rows.len() ==> #[trigger] key(rows[i]) != #[trigger] key(rows[j])
}

/// Filtering keeps exactly the rows that pass.
pub proof fn lemma_filter_rows<T>(rows: Seq<T>, keep: spec_fn(T) -> bool)
    ensures
        forall|r: T| #[trigger] rows.filter(keep).contains(r) <==> rows.contains(r) && keep(r),
    decreases rows.len(),
{
    reveal(Seq::filter);
    let out = rows.filter(keep);
    if rows.len() > 0 {
        let front = rows.drop_last();
        let last = rows.last();
        lemma_filter_rows(front, keep);
        assert forall|r: T| #[trigger] out.contains(r) <==> rows.contains(r) && keep(r) by {
            if out.contains(r) {
                let k = choose|k: int| 0 <= k < out.len() && out[k] == r;
                if keep(last) && k == out.len() - 1 {
                    assert(rows[rows.len() - 1] == r);
                } else {
                    assert(front.filter(keep)[k] == r);
                    assert(front.filter(keep).contains(r));
                    let m = choose|m: int| 0 <= m < front.len() && front[m] == r;
                    assert(rows[m] == r);
                }
            }
            if rows.contains(r) && keep(r) {
                let m = choose|m: int| 0 <= m < rows.len() && rows[m] == r;
                if m == rows.len() - 1 {
                    assert(out[out.len() - 1] == r);
                } else {
                    assert(front[m] == r);
                    assert(front.contains(r));
                    assert(front.filter(keep).contains(r));
                    let k = choose|k: int|
                        0 <= k < front.filter(keep).len() && front.filter(keep)[k] == r;
                    assert(out[k] == r);
                }
            }
        }
    }
}

/// Filtering keeps the old order, so rows that differed in a key still differ.
pub proof fn lemma_filter_distinct<T>(rows: Seq<T>, keep: spec_fn(T) -> bool, key: spec_fn(T) -> Text)
    requires
        distinct_by(rows, key),
    ensures
        distinct_by(rows.filter(keep), key),
    decreases rows.len(),
{
    reveal(Seq::filter);
    let out = rows.filter(keep);
    if rows.len() > 0 {
        let front = rows.drop_last();
        let last = rows.last();
        assert forall|i: int, j: int| 0 <= i < j < front.len() implies #[trigger] key(front[i])
            != #[trigger] key(front[j]) by {
            assert(front[i] == rows[i] && front[j] == rows[j]);
        }
        lemma_filter_distinct(front, keep, key);
        lemma_filter_rows(front, keep);
        assert forall|i: int, j: int| 0 <= i < j < out.len() implies #[trigger] key(out[i])
            != #[trigger] key(out[j]) by {
            if keep(last) && j == out.len() - 1 {
                assert(front.filter(keep)[i] == out[i]);
                assert(front.filter(keep).contains(out[i]));
                assert(front.contains(out[i]));
                let m = choose|m: int| 0 <= m < front.len() && front[m] == out[i];
                assert(rows[m] == out[i]);
                assert(rows[rows.len() - 1] == out[j]);
            } else {
                assert(front.filter(keep)[i] == out[i]);
                assert(front.filter(keep)[j] == out[j]);
            }
        }
    }
}

/// Filtering keeps the old order: what held between every earlier and every
/// later row still holds between the rows that stay.
pub proof fn lemma_filter_pairwise<T>(
    rows: Seq<T>,
    keep: spec_fn(T) -> bool,
    holds: spec_fn(T, T) -> bool,
)
    requires
        forall|i: int, j: int| 0 <= i < j < rows.len() ==> #[trigger] holds(rows[i], rows[j]),
    ensures
        forall|i: int, j: int|
            0 <= i < j < rows.filter(keep).len() ==> #[trigger] holds(
                rows.filter(keep)[i],
                rows.filter(keep)[j],
            ),
    decreases rows.len(),
{
    reveal(Seq::filter);
    let out = rows.filter(keep);
    if rows.len() > 0 {
        let front = rows.drop_last();
        let last = rows.last();
        assert forall|i: int, j: int| 0 <= i < j < front.len() implies #[trigger] holds(
            front[i],
            front[j],
        ) by {
            assert(holds(rows[i], rows[j]));
        }
        lemma_filter_pairwise(front, keep, holds);
        lemma_filter_rows(front, keep);
        assert forall|i: int, j: int| 0 <= i < j < out.len() implies #[trigger] holds(
            out[i],
            out[j],
        ) by {
            if keep(last) && j == out.len() - 1 {
                assert(front.filter(keep)[i] == out[i]);
                assert(front.filter(keep).contains(out[i]));
                assert(front.contains(out[i]));
                let m = choose|m: int| 0 <= m < front.len() && front[m] == out[i];
                assert(holds(rows[m], rows[rows.len() - 1]));
            } else {
                assert(holds(front.filter(keep)[i], front.filter(keep)[j]));
            }
        }
    }
}

} // verus!
