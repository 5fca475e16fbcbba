//! The invoicing store: artists, their projects and their invoices, held in
//! memory under the rules of the relational model.
//!
//! Every operation says, through the model, which rows the store holds
//! afterwards, and each refusal says which rule stood against it.

use vstd::prelude::*;
use vstd::string::*;
use crate::ambient::fresh_uuid;
use crate::calendar::is_utc_stamp;
use crate::model::{ArtistView, InvoiceView, ProjectView, StoreView, Text, listed, paid_text};
use crate::schema::{
    Index, LateColumn, Step, Table, index_steps, init_plan, music_steps, plan_catch_up,
};
use crate::sorting::{arranged, order_of};
use crate::stamps::{clock_stamp, next_stamp, stamp_after};

verus! {

/// The text of an optional string.
pub open spec fn opt_text(value: Option<String>) -> Option<Text> {
    match value {
        Some(s) => Some(s@),
        None => None,
    }
}

/// A reference as the store keeps it: an empty text names nothing.
pub open spec fn normal_ref(value: Option<Text>) -> Option<Text> {
    match value {
        Some(s) => if s.len() == 0 {
            None
        } else {
            Some(s)
        },
        None => None,
    }
}

/// The payment date of an invoice after an update under the status `status`,
/// stamped `now`: none under any status but "paid"; under "paid" the date
/// that the invoice carries from the update that made it paid, and the stamp
/// of this update where this is the one that makes it paid.
pub open spec fn paid_date_after(status: Text, stored: InvoiceView, now: Text) -> Option<Text> {
    if status != paid_text() {
        None
    } else if stored.status == paid_text() && stored.paid_date is Some {
        stored.paid_date
    } else {
        Some(now)
    }
}

/// Copies an optional string.
pub fn copy_opt(value: &Option<String>) -> (copy: Option<String>)
    ensures
        copy == *value,
{
    match value {
        Some(s) => Some(s.clone()),
        None => None,
    }
}

#[derive(Debug)]
pub struct Artist {
    pub id: String,
    pub name: String,
    pub company_name: Option<String>,
    pub email: Option<String>,
    pub phone: Option<String>,
    pub address: Option<String>,
    pub wire_details: Option<String>,
    pub notes: Option<String>,
    pub created_at: String,
    pub updated_at: String,
}

impl View for Artist {
    type V = ArtistView;

    open spec fn view(&self) -> ArtistView {
        ArtistView {
            id: self.id@,
            name: self.name@,
            company_name: opt_text(self.company_name),
            email: opt_text(self.email),
            phone: opt_text(self.phone),
            address: opt_text(self.address),
            wire_details: opt_text(self.wire_details),
            notes: opt_text(self.notes),
            created_at: self.created_at@,
            updated_at: self.updated_at@,
        }
    }
}

impl DeepView for Artist {
    type V = ArtistView;

    open spec fn deep_view(&self) -> ArtistView {
        self@
    }
}

impl Clone for Artist {
    fn clone(&self) -> (copy: Self)
        ensures
            copy == *self,
    {
        Artist {
            id: self.id.clone(),
            name: self.name.clone(),
            company_name: copy_opt(&self.company_name),
            email: copy_opt(&self.email),
            phone: copy_opt(&self.phone),
            address: copy_opt(&self.address),
            wire_details: copy_opt(&self.wire_details),
            notes: copy_opt(&self.notes),
            created_at: self.created_at.clone(),
            updated_at: self.updated_at.clone(),
        }
    }
}

/// A project of one artist. `budget_bits` carries the budget as the bit
/// pattern of an IEEE 754 double; the store hands it back unchanged.
#[derive(Debug)]
pub struct Project {
    pub id: String,
    pub artist_id: String,
    pub name: String,
    pub description: Option<String>,
    pub status: String,
    pub start_date: Option<String>,
    pub end_date: Option<String>,
    pub budget_bits: u64,
    pub created_at: String,
    pub updated_at: String,
}

impl View for Project {
    type V = ProjectView;

    open spec fn view(&self) -> ProjectView {
        ProjectView {
            id: self.id@,
            artist_id: self.artist_id@,
            name: self.name@,
            description: opt_text(self.description),
            status: self.status@,
            start_date: opt_text(self.start_date),
            end_date: opt_text(self.end_date),
            budget_bits: self.budget_bits,
            created_at: self.created_at@,
            updated_at: self.updated_at@,
        }
    }
}

impl DeepView for Project {
    type V = ProjectView;

    open spec fn deep_view(&self) -> ProjectView {
        self@
    }
}

impl Clone for Project {
    fn clone(&self) -> (copy: Self)
        ensures
            copy == *self,
    {
        Project {
            id: self.id.clone(),
            artist_id: self.artist_id.clone(),
            name: self.name.clone(),
            description: copy_opt(&self.description),
            status: self.status.clone(),
            start_date: copy_opt(&self.start_date),
            end_date: copy_opt(&self.end_date),
            budget_bits: self.budget_bits,
            created_at: self.created_at.clone(),
            updated_at: self.updated_at.clone(),
        }
    }
}

/// An invoice of one artist, optionally for one project. `amount_bits`
/// carries the amount as the bit pattern of an IEEE 754 double, and `items`
/// the line items in whatever encoding the caller chose; the store hands
/// both back unchanged.
#[derive(Debug)]
pub struct Invoice {
    pub id: String,
    pub artist_id: String,
    pub project_id: Option<String>,
    pub invoice_number: String,
    pub amount_bits: u64,
    pub status: String,
    pub issue_date: String,
    pub due_date: String,
    pub paid_date: Option<String>,
    pub bill_to: Option<String>,
    pub items: String,
    pub notes: Option<String>,
    pub created_at: String,
    pub updated_at: String,
}

impl View for Invoice {
    type V = InvoiceView;

    open spec fn view(&self) -> InvoiceView {
        InvoiceView {
            id: self.id@,
            artist_id: self.artist_id@,
            project_id: opt_text(self.project_id),
            invoice_number: self.invoice_number@,
            amount_bits: self.amount_bits,
            status: self.status@,
            issue_date: self.issue_date@,
            due_date: self.due_date@,
            paid_date: opt_text(self.paid_date),
            bill_to: opt_text(self.bill_to),
            items: self.items@,
            notes: opt_text(self.notes),
            created_at: self.created_at@,
            updated_at: self.updated_at@,
        }
    }
}

impl DeepView for Invoice {
    type V = InvoiceView;

    open spec fn deep_view(&self) -> InvoiceView {
        self@
    }
}

impl Clone for Invoice {
    fn clone(&self) -> (copy: Self)
        ensures
            copy == *self,
    {
        Invoice {
            id: self.id.clone(),
            artist_id: self.artist_id.clone(),
            project_id: copy_opt(&self.project_id),
            invoice_number: self.invoice_number.clone(),
            amount_bits: self.amount_bits,
            status: self.status.clone(),
            issue_date: self.issue_date.clone(),
            due_date: self.due_date.clone(),
            paid_date: copy_opt(&self.paid_date),
            bill_to: copy_opt(&self.bill_to),
            items: self.items.clone(),
            notes: copy_opt(&self.notes),
            created_at: self.created_at.clone(),
            updated_at: self.updated_at.clone(),
        }
    }
}

/// Why the store refused an operation.
#[derive(Debug, Clone, Copy, PartialEq, Eq, Structural)]
pub enum StoreError {
    /// A row of this id exists already.
    DuplicateId,
    /// Another invoice bears this invoice number.
    DuplicateInvoiceNumber,
    /// The row names an artist that does not exist.
    UnknownArtist,
    /// The row names a project that does not exist.
    UnknownProject,
    /// No row of this id exists.
    NotFound,
    /// Rows handed over as a whole break the rules of the store.
    Inconsistent,
}

impl StoreError {
    /// The message of each refusal.
    pub open spec fn message_text(self) -> Text {
        match self {
            StoreError::DuplicateId => "constraint violation: a row with this id already exists"@,
            StoreError::DuplicateInvoiceNumber => "constraint violation: invoice number already exists"@,
            StoreError::UnknownArtist => "constraint violation: artist does not exist"@,
            StoreError::UnknownProject => "constraint violation: project does not exist"@,
            StoreError::NotFound => "not found: no row with this id"@,
            StoreError::Inconsistent => "constraint violation: the rows contradict one another"@,
        }
    }

    /// Whether the refusal reports a broken uniqueness or reference rule
    /// rather than a missing row.
    pub fn is_constraint_violation(&self) -> (yes: bool)
        ensures
            yes == (*self != StoreError::NotFound),
    {
        match self {
            StoreError::NotFound => false,
            _ => true,
        }
    }

    /// The refusal in words.
    pub fn message(&self) -> (text: String)
        ensures
            text@ == self.message_text(),
    {
        match self {
            StoreError::DuplicateId => String::from_str(
                "constraint violation: a row with this id already exists",
            ),
            StoreError::DuplicateInvoiceNumber => String::from_str(
                "constraint violation: invoice number already exists",
            ),
            StoreError::UnknownArtist => String::from_str(
                "constraint violation: artist does not exist",
            ),
            StoreError::UnknownProject => String::from_str(
                "constraint violation: project does not exist",
            ),
            StoreError::NotFound => String::from_str("not found: no row with this id"),
            StoreError::Inconsistent => String::from_str(
                "constraint violation: the rows contradict one another",
            ),
        }
    }
}

/// The tables of the invoicing store.
pub struct Store {
    artists: Vec<Artist>,
    projects: Vec<Project>,
    invoices: Vec<Invoice>,
}

impl View for Store {
    type V = StoreView;

    closed spec fn view(&self) -> StoreView {
        StoreView {
            artists: self.artists.deep_view(),
            projects: self.projects.deep_view(),
            invoices: self.invoices.deep_view(),
        }
    }
}

/// Picks the rows that `order` names, in that order.
fn gather<T: Clone>(rows: &Vec<T>, order: &Vec<usize>) -> (out: Vec<T>)
    requires
        forall|k: int| 0 <= k < order@.len() ==> #[trigger] order@[k] < rows@.len(),
    ensures
        out@.len() == order@.len(),
        forall|k: int|
            0 <= k < order@.len() ==> cloned::<T>(rows@[order@[k] as int], #[trigger] out@[k]),
{
    let mut out: Vec<T> = Vec::new();
    let mut k: usize = 0;
    while k < order.len()
        invariant
            k <= order.len(),
            out@.len() == k,
            forall|m: int| 0 <= m < order@.len() ==> #[trigger] order@[m] < rows@.len(),
            forall|m: int| 0 <= m < k ==> cloned::<T>(rows@[order@[m] as int], #[trigger] out@[m]),
        decreases order.len() - k,
    {
        out.push(rows[order[k]].clone());
        k = k + 1;
    }
    out
}

impl Store {
    /// A store without rows.
    pub fn new() -> (store: Store)
        ensures
            store@ == StoreView::empty(),
            store@.wf(),
    {
        let store = Store { artists: Vec::new(), projects: Vec::new(), invoices: Vec::new() };
        assert(store@.artists =~= Seq::empty());
        assert(store@.projects =~= Seq::empty());
        assert(store@.invoices =~= Seq::empty());
        store
    }

    fn find_artist(&self, id: &String) -> (found: Option<usize>)
        ensures
            match found {
                Some(i) => i < self.artists.len() && self@.artists[i as int].id == id@,
                None => !self@.has_artist(id@),
            },
    {
        let mut i: usize = 0;
        while i < self.artists.len()
            invariant
                i <= self.artists.len(),
                forall|k: int| 0 <= k < i ==> (#[trigger] self@.artists[k]).id != id@,
            decreases self.artists.len() - i,
        {
            if self.artists[i].id == *id {
                return Some(i);
            }
            i = i + 1;
        }
        None
    }

    fn find_project(&self, id: &String) -> (found: Option<usize>)
        ensures
            match found {
                Some(i) => i < self.projects.len() && self@.projects[i as int].id == id@,
                None => !self@.has_project(id@),
            },
    {
        let mut i: usize = 0;
        while i < self.projects.len()
            invariant
                i <= self.projects.len(),
                forall|k: int| 0 <= k < i ==> (#[trigger] self@.projects[k]).id != id@,
            decreases self.projects.len() - i,
        {
            if self.projects[i].id == *id {
                return Some(i);
            }
            i = i + 1;
        }
        None
    }

    fn find_invoice(&self, id: &String) -> (found: Option<usize>)
        ensures
            match found {
                Some(i) => i < self.invoices.len() && self@.invoices[i as int].id == id@,
                None => !self@.has_invoice(id@),
            },
    {
        let mut i: usize = 0;
        while i < self.invoices.len()
            invariant
                i <= self.invoices.len(),
                forall|k: int| 0 <= k < i ==> (#[trigger] self@.invoices[k]).id != id@,
            decreases self.invoices.len() - i,
        {
            if self.invoices[i].id == *id {
                return Some(i);
            }
            i = i + 1;
        }
        None
    }

    /// Whether an invoice other than `except` bears the number `number`.
    fn number_in_use(&self, number: &String, except: &String) -> (taken: bool)
        ensures
            taken == self@.number_taken(number@, except@),
    {
        let mut i: usize = 0;
        while i < self.invoices.len()
            invariant
                i <= self.invoices.len(),
                forall|k: int|
                    0 <= k < i ==> !((#[trigger] self@.invoices[k]).invoice_number == number@
                        && self@.invoices[k].id != except@),
            decreases self.invoices.len() - i,
        {
            if self.invoices[i].invoice_number == *number && self.invoices[i].id != *except {
                assert(self@.invoices[i as int].invoice_number == number@);
                return true;
            }
            i = i + 1;
        }
        false
    }

    /// Whether any invoice bears the number `number`.
    fn number_known(&self, number: &String) -> (known: bool)
        ensures
            known == self@.has_invoice_number(number@),
    {
        let mut i: usize = 0;
        while i < self.invoices.len()
            invariant
                i <= self.invoices.len(),
                forall|k: int|
                    0 <= k < i ==> (#[trigger] self@.invoices[k]).invoice_number != number@,
            decreases self.invoices.len() - i,
        {
            if self.invoices[i].invoice_number == *number {
                assert(self@.invoices[i as int].invoice_number == number@);
                return true;
            }
            i = i + 1;
        }
        false
    }

    /// Whether the project `id` exists and belongs to `artist_id`.
    fn project_belongs_to(&self, id: &String, artist_id: &String) -> (owned: bool)
        requires
            self@.keys_unique(),
        ensures
            owned == self@.project_owned_by(id@, artist_id@),
    {
        match self.find_project(id) {
            Some(i) => {
                let owned = self.projects[i].artist_id == *artist_id;
                proof {
                    if self@.project_owned_by(id@, artist_id@) {
                        let k = choose|k: int|
                            0 <= k < self@.projects.len() && (#[trigger] self@.projects[k]).id
                                == id@ && self@.projects[k].artist_id == artist_id@;
                        self@.lemma_project_at(k);
                        self@.lemma_project_at(i as int);
                    }
                }
                owned
            },
            None => false,
        }
    }

    /// The artists other than `id`.
    fn artists_except(&self, id: &String) -> (out: Vec<Artist>)
        ensures
            out.deep_view() == self@.artists.filter(|a: ArtistView| a.id != id@),
    {
        let ghost keep = |a: ArtistView| a.id != id@;
        let ghost rows = self@.artists;
        let mut out: Vec<Artist> = Vec::new();
        let mut i: usize = 0;
        assert(rows.take(0) =~= Seq::empty());
        assert(rows.take(0).filter(keep) =~= Seq::empty()) by {
            reveal(Seq::filter);
        }
        assert(out.deep_view() =~= Seq::empty());
        while i < self.artists.len()
            invariant
                i <= self.artists.len(),
                rows == self@.artists,
                keep == |a: ArtistView| a.id != id@,
                out.deep_view() == rows.take(i as int).filter(keep),
            decreases self.artists.len() - i,
        {
            let ghost before = out.deep_view();
            assert(rows.take(i + 1) =~= rows.take(i as int).push(rows[i as int]));
            proof {
                rows.take(i as int).lemma_filter_push(rows[i as int], keep);
            }
            if self.artists[i].id != *id {
                out.push(self.artists[i].clone());
                assert(out.deep_view() =~= before.push(rows[i as int]));
            }
            i = i + 1;
        }
        assert(rows.take(i as int) =~= rows);
        out
    }

    /// The projects other than `id`.
    fn projects_except(&self, id: &String) -> (out: Vec<Project>)
        ensures
            out.deep_view() == self@.projects.filter(|p: ProjectView| p.id != id@),
    {
        let ghost keep = |p: ProjectView| p.id != id@;
        let ghost rows = self@.projects;
        let mut out: Vec<Project> = Vec::new();
        let mut i: usize = 0;
        assert(rows.take(0) =~= Seq::empty());
        assert(rows.take(0).filter(keep) =~= Seq::empty()) by {
            reveal(Seq::filter);
        }
        assert(out.deep_view() =~= Seq::empty());
        while i < self.projects.len()
            invariant
                i <= self.projects.len(),
                rows == self@.projects,
                keep == |p: ProjectView| p.id != id@,
                out.deep_view() == rows.take(i as int).filter(keep),
            decreases self.projects.len() - i,
        {
            let ghost before = out.deep_view();
            assert(rows.take(i + 1) =~= rows.take(i as int).push(rows[i as int]));
            proof {
                rows.take(i as int).lemma_filter_push(rows[i as int], keep);
            }
            if self.projects[i].id != *id {
                out.push(self.projects[i].clone());
                assert(out.deep_view() =~= before.push(rows[i as int]));
            }
            i = i + 1;
        }
        assert(rows.take(i as int) =~= rows);
        out
    }

    /// The projects of artists other than `id`.
    fn projects_not_of(&self, id: &String) -> (out: Vec<Project>)
        ensures
            out.deep_view() == self@.projects.filter(|p: ProjectView| p.artist_id != id@),
    {
        let ghost keep = |p: ProjectView| p.artist_id != id@;
        let ghost rows = self@.projects;
        let mut out: Vec<Project> = Vec::new();
        let mut i: usize = 0;
        assert(rows.take(0) =~= Seq::empty());
        assert(rows.take(0).filter(keep) =~= Seq::empty()) by {
            reveal(Seq::filter);
        }
        assert(out.deep_view() =~= Seq::empty());
        while i < self.projects.len()
            invariant
                i <= self.projects.len(),
                rows == self@.projects,
                keep == |p: ProjectView| p.artist_id != id@,
                out.deep_view() == rows.take(i as int).filter(keep),
            decreases self.projects.len() - i,
        {
            let ghost before = out.deep_view();
            assert(rows.take(i + 1) =~= rows.take(i as int).push(rows[i as int]));
            proof {
                rows.take(i as int).lemma_filter_push(rows[i as int], keep);
            }
            if self.projects[i].artist_id != *id {
                out.push(self.projects[i].clone());
                assert(out.deep_view() =~= before.push(rows[i as int]));
            }
            i = i + 1;
        }
        assert(rows.take(i as int) =~= rows);
        out
    }

    /// The projects of the artist `id`.
    fn projects_owned_by(&self, id: &String) -> (out: Vec<Project>)
        ensures
            out.deep_view() == self@.projects.filter(|p: ProjectView| p.artist_id == id@),
    {
        let ghost keep = |p: ProjectView| p.artist_id == id@;
        let ghost rows = self@.projects;
        let mut out: Vec<Project> = Vec::new();
        let mut i: usize = 0;
        assert(rows.take(0) =~= Seq::empty());
        assert(rows.take(0).filter(keep) =~= Seq::empty()) by {
            reveal(Seq::filter);
        }
        assert(out.deep_view() =~= Seq::empty());
        while i < self.projects.len()
            invariant
                i <= self.projects.len(),
                rows == self@.projects,
                keep == |p: ProjectView| p.artist_id == id@,
                out.deep_view() == rows.take(i as int).filter(keep),
            decreases self.projects.len() - i,
        {
            let ghost before = out.deep_view();
            assert(rows.take(i + 1) =~= rows.take(i as int).push(rows[i as int]));
            proof {
                rows.take(i as int).lemma_filter_push(rows[i as int], keep);
            }
            if self.projects[i].artist_id == *id {
                out.push(self.projects[i].clone());
                assert(out.deep_view() =~= before.push(rows[i as int]));
            }
            i = i + 1;
        }
        assert(rows.take(i as int) =~= rows);
        out
    }

    /// The invoices other than `id`.
    fn invoices_except(&self, id: &String) -> (out: Vec<Invoice>)
        ensures
            out.deep_view() == self@.invoices.filter(|v: InvoiceView| v.id != id@),
    {
        let ghost keep = |v: InvoiceView| v.id != id@;
        let ghost rows = self@.invoices;
        let mut out: Vec<Invoice> = Vec::new();
        let mut i: usize = 0;
        assert(rows.take(0) =~= Seq::empty());
        assert(rows.take(0).filter(keep) =~= Seq::empty()) by {
            reveal(Seq::filter);
        }
        assert(out.deep_view() =~= Seq::empty());
        while i < self.invoices.len()
            invariant
                i <= self.invoices.len(),
                rows == self@.invoices,
                keep == |v: InvoiceView| v.id != id@,
                out.deep_view() == rows.take(i as int).filter(keep),
            decreases self.invoices.len() - i,
        {
            let ghost before = out.deep_view();
            assert(rows.take(i + 1) =~= rows.take(i as int).push(rows[i as int]));
            proof {
                rows.take(i as int).lemma_filter_push(rows[i as int], keep);
            }
            if self.invoices[i].id != *id {
                out.push(self.invoices[i].clone());
                assert(out.deep_view() =~= before.push(rows[i as int]));
            }
            i = i + 1;
        }
        assert(rows.take(i as int) =~= rows);
        out
    }

    /// The invoices of artists other than `id`.
    fn invoices_not_of(&self, id: &String) -> (out: Vec<Invoice>)
        ensures
            out.deep_view() == self@.invoices.filter(|v: InvoiceView| v.artist_id != id@),
    {
        let ghost keep = |v: InvoiceView| v.artist_id != id@;
        let ghost rows = self@.invoices;
        let mut out: Vec<Invoice> = Vec::new();
        let mut i: usize = 0;
        assert(rows.take(0) =~= Seq::empty());
        assert(rows.take(0).filter(keep) =~= Seq::empty()) by {
            reveal(Seq::filter);
        }
        assert(out.deep_view() =~= Seq::empty());
        while i < self.invoices.len()
            invariant
                i <= self.invoices.len(),
                rows == self@.invoices,
                keep == |v: InvoiceView| v.artist_id != id@,
                out.deep_view() == rows.take(i as int).filter(keep),
            decreases self.invoices.len() - i,
        {
            let ghost before = out.deep_view();
            assert(rows.take(i + 1) =~= rows.take(i as int).push(rows[i as int]));
            proof {
                rows.take(i as int).lemma_filter_push(rows[i as int], keep);
            }
            if self.invoices[i].artist_id != *id {
                out.push(self.invoices[i].clone());
                assert(out.deep_view() =~= before.push(rows[i as int]));
            }
            i = i + 1;
        }
        assert(rows.take(i as int) =~= rows);
        out
    }

    /// The invoices of the artist `id`.
    fn invoices_owned_by(&self, id: &String) -> (out: Vec<Invoice>)
        ensures
            out.deep_view() == self@.invoices.filter(|v: InvoiceView| v.artist_id == id@),
    {
        let ghost keep = |v: InvoiceView| v.artist_id == id@;
        let ghost rows = self@.invoices;
        let mut out: Vec<Invoice> = Vec::new();
        let mut i: usize = 0;
        assert(rows.take(0) =~= Seq::empty());
        assert(rows.take(0).filter(keep) =~= Seq::empty()) by {
            reveal(Seq::filter);
        }
        assert(out.deep_view() =~= Seq::empty());
        while i < self.invoices.len()
            invariant
                i <= self.invoices.len(),
                rows == self@.invoices,
                keep == |v: InvoiceView| v.artist_id == id@,
                out.deep_view() == rows.take(i as int).filter(keep),
            decreases self.invoices.len() - i,
        {
            let ghost before = out.deep_view();
            assert(rows.take(i + 1) =~= rows.take(i as int).push(rows[i as int]));
            proof {
                rows.take(i as int).lemma_filter_push(rows[i as int], keep);
            }
            if self.invoices[i].artist_id == *id {
                out.push(self.invoices[i].clone());
                assert(out.deep_view() =~= before.push(rows[i as int]));
            }
            i = i + 1;
        }
        assert(rows.take(i as int) =~= rows);
        out
    }

    /// The given invoices, those of them cut loose whose project belongs to
    /// the artist `artist_id`.
    fn detach_from_artist(&self, rows: &Vec<Invoice>, artist_id: &String) -> (out: Vec<Invoice>)
        requires
            self@.keys_unique(),
        ensures
            out.deep_view() == rows.deep_view().map_values(
                |v: InvoiceView|
                    if v.project_id is Some && self@.project_owned_by(v.project_id->0, artist_id@) {
                        v.detached()
                    } else {
                        v
                    },
            ),
    {
        let ghost fix = |v: InvoiceView|
            if v.project_id is Some && self@.project_owned_by(v.project_id->0, artist_id@) {
                v.detached()
            } else {
                v
            };
        let mut out: Vec<Invoice> = Vec::new();
        let mut i: usize = 0;
        while i < rows.len()
            invariant
                i <= rows.len(),
                self@.keys_unique(),
                out@.len() == i,
                forall|k: int|
                    0 <= k < i ==> (#[trigger] out@[k])@ == if rows@[k]@.project_id is Some
                        && self@.project_owned_by(rows@[k]@.project_id->0, artist_id@) {
                        rows@[k]@.detached()
                    } else {
                        rows@[k]@
                    },
            decreases rows.len() - i,
        {
            let mut row = rows[i].clone();
            let loose = match &row.project_id {
                Some(p) => self.project_belongs_to(p, artist_id),
                None => false,
            };
            if loose {
                row.project_id = None;
            }
            out.push(row);
            i = i + 1;
        }
        assert(out.deep_view() =~= rows.deep_view().map_values(fix));
        out
    }

    /// All invoices, those of them cut loose that point at the project `id`.
    fn detach_from_project(&self, id: &String) -> (out: Vec<Invoice>)
        ensures
            out.deep_view() == self@.invoices.map_values(
                |v: InvoiceView|
                    if v.project_id == Some(id@) {
                        v.detached()
                    } else {
                        v
                    },
            ),
    {
        let ghost fix = |v: InvoiceView|
            if v.project_id == Some(id@) {
                v.detached()
            } else {
                v
            };
        let mut out: Vec<Invoice> = Vec::new();
        let mut i: usize = 0;
        while i < self.invoices.len()
            invariant
                i <= self.invoices.len(),
                out@.len() == i,
                forall|k: int|
                    0 <= k < i ==> (#[trigger] out@[k])@ == if self@.invoices[k].project_id == Some(
                        id@,
                    ) {
                        self@.invoices[k].detached()
                    } else {
                        self@.invoices[k]
                    },
            decreases self.invoices.len() - i,
        {
            let mut row = self.invoices[i].clone();
            let loose = match &row.project_id {
                Some(p) => *p == *id,
                None => false,
            };
            if loose {
                row.project_id = None;
            }
            out.push(row);
            i = i + 1;
        }
        assert(out.deep_view() =~= self@.invoices.map_values(fix));
        out
    }

    /// Whether artist ids differ from one another.
    fn artist_ids_differ(&self) -> (yes: bool)
        ensures
            yes == (forall|i: int, j: int|
                0 <= i < j < self@.artists.len() ==> (#[trigger] self@.artists[i]).id != (
                #[trigger] self@.artists[j]).id),
    {
        let mut j: usize = 0;
        while j < self.artists.len()
            invariant
                j <= self.artists.len(),
                forall|a: int, b: int|
                    0 <= a < b < j ==> (#[trigger] self@.artists[a]).id != (
                    #[trigger] self@.artists[b]).id,
            decreases self.artists.len() - j,
        {
            let mut i: usize = 0;
            while i < j
                invariant
                    i <= j < self.artists.len(),
                    forall|a: int|
                        0 <= a < i ==> (#[trigger] self@.artists[a]).id != self@.artists[j as int].id,
                decreases j - i,
            {
                if self.artists[i].id == self.artists[j].id {
                    assert(self@.artists[i as int].id == self@.artists[j as int].id);
                    return false;
                }
                i = i + 1;
            }
            j = j + 1;
        }
        true
    }

    /// Whether project ids differ from one another.
    fn project_ids_differ(&self) -> (yes: bool)
        ensures
            yes == (forall|i: int, j: int|
                0 <= i < j < self@.projects.len() ==> (#[trigger] self@.projects[i]).id != (
                #[trigger] self@.projects[j]).id),
    {
        let mut j: usize = 0;
        while j < self.projects.len()
            invariant
                j <= self.projects.len(),
                forall|a: int, b: int|
                    0 <= a < b < j ==> (#[trigger] self@.projects[a]).id != (
                    #[trigger] self@.projects[b]).id,
            decreases self.projects.len() - j,
        {
            let mut i: usize = 0;
            while i < j
                invariant
                    i <= j < self.projects.len(),
                    forall|a: int|
                        0 <= a < i ==> (#[trigger] self@.projects[a]).id
                            != self@.projects[j as int].id,
                decreases j - i,
            {
                if self.projects[i].id == self.projects[j].id {
                    assert(self@.projects[i as int].id == self@.projects[j as int].id);
                    return false;
                }
                i = i + 1;
            }
            j = j + 1;
        }
        true
    }

    /// Whether invoice ids, and invoice numbers, differ from one another.
    fn invoice_keys_differ(&self) -> (yes: bool)
        ensures
            yes == ((forall|i: int, j: int|
                0 <= i < j < self@.invoices.len() ==> (#[trigger] self@.invoices[i]).id != (
                #[trigger] self@.invoices[j]).id) && (forall|i: int, j: int|
                0 <= i < j < self@.invoices.len() ==> (#[trigger] self@.invoices[i]).invoice_number
                    != (#[trigger] self@.invoices[j]).invoice_number)),
    {
        let mut j: usize = 0;
        while j < self.invoices.len()
            invariant
                j <= self.invoices.len(),
                forall|a: int, b: int|
                    0 <= a < b < j ==> (#[trigger] self@.invoices[a]).id != (
                    #[trigger] self@.invoices[b]).id,
                forall|a: int, b: int|
                    0 <= a < b < j ==> (#[trigger] self@.invoices[a]).invoice_number != (
                    #[trigger] self@.invoices[b]).invoice_number,
            decreases self.invoices.len() - j,
        {
            let mut i: usize = 0;
            while i < j
                invariant
                    i <= j < self.invoices.len(),
                    forall|a: int|
                        0 <= a < i ==> (#[trigger] self@.invoices[a]).id
                            != self@.invoices[j as int].id && self@.invoices[a].invoice_number
                            != self@.invoices[j as int].invoice_number,
                decreases j - i,
            {
                if self.invoices[i].id == self.invoices[j].id || self.invoices[i].invoice_number
                    == self.invoices[j].invoice_number {
                    assert(self@.invoices[i as int].id == self@.invoices[j as int].id
                        || self@.invoices[i as int].invoice_number
                        == self@.invoices[j as int].invoice_number);
                    return false;
                }
                i = i + 1;
            }
            j = j + 1;
        }
        true
    }

    /// Whether every project names an artist that exists.
    fn projects_resolve(&self) -> (yes: bool)
        ensures
            yes == (forall|i: int|
                0 <= i < self@.projects.len() ==> self@.has_artist(
                    (#[trigger] self@.projects[i]).artist_id,
                )),
    {
        let mut i: usize = 0;
        while i < self.projects.len()
            invariant
                i <= self.projects.len(),
                forall|k: int|
                    0 <= k < i ==> self@.has_artist((#[trigger] self@.projects[k]).artist_id),
            decreases self.projects.len() - i,
        {
            if self.find_artist(&self.projects[i].artist_id).is_none() {
                assert(!self@.has_artist(self@.projects[i as int].artist_id));
                return false;
            }
            i = i + 1;
        }
        true
    }

    /// Whether every invoice names an artist, and a project if any, that
    /// exists, and carries a payment date only under the status "paid".
    fn invoices_resolve(&self) -> (yes: bool)
        ensures
            yes == ((forall|i: int|
                0 <= i < self@.invoices.len() ==> self@.has_artist(
                    (#[trigger] self@.invoices[i]).artist_id,
                )) && (forall|i: int|
                0 <= i < self@.invoices.len() ==> ((#[trigger] self@.invoices[i]).project_id matches Some(
                    p,
                ) ==> self@.has_project(p))) && self@.paid_dates_follow_status()),
    {
        let paid = String::from_str("paid");
        proof {
            reveal_strlit("paid");
            assert(paid@ =~= paid_text());
        }
        let mut i: usize = 0;
        while i < self.invoices.len()
            invariant
                i <= self.invoices.len(),
                paid@ == paid_text(),
                forall|k: int|
                    0 <= k < i ==> self@.has_artist((#[trigger] self@.invoices[k]).artist_id),
                forall|k: int|
                    0 <= k < i ==> ((#[trigger] self@.invoices[k]).project_id matches Some(p)
                        ==> self@.has_project(p)),
                forall|k: int|
                    0 <= k < i ==> ((#[trigger] self@.invoices[k]).paid_date is Some
                        ==> self@.invoices[k].status == paid_text()),
            decreases self.invoices.len() - i,
        {
            let row = &self.invoices[i];
            let project_known = match &row.project_id {
                Some(p) => self.find_project(p).is_some(),
                None => true,
            };
            let date_fits = row.paid_date.is_none() || row.status == paid;
            if self.find_artist(&row.artist_id).is_none() || !project_known || !date_fits {
                assert(!self@.has_artist(self@.invoices[i as int].artist_id) || (
                self@.invoices[i as int].project_id is Some && !self@.has_project(
                    self@.invoices[i as int].project_id->0,
                )) || (self@.invoices[i as int].paid_date is Some
                    && self@.invoices[i as int].status != paid_text()));
                return false;
            }
            i = i + 1;
        }
        true
    }

    /// Takes over rows that were kept elsewhere, each table in the order in
    /// which its rows were created.
    ///
    /// The rows are taken as they are if together they obey the rules of the
    /// store, and refused as a whole if they do not.
    pub fn restore(artists: Vec<Artist>, projects: Vec<Project>, invoices: Vec<Invoice>) -> (result:
        Result<Store, StoreError>)
        ensures
            match result {
                Ok(store) => {
                    &&& store@ == (StoreView {
                        artists: artists.deep_view(),
                        projects: projects.deep_view(),
                        invoices: invoices.deep_view(),
                    })
                    &&& store@.wf()
                },
                Err(e) => {
                    &&& e == StoreError::Inconsistent
                    &&& !(StoreView {
                        artists: artists.deep_view(),
                        projects: projects.deep_view(),
                        invoices: invoices.deep_view(),
                    }).wf()
                },
            },
    {
        let store = Store { artists, projects, invoices };
        if store.artist_ids_differ() && store.project_ids_differ() && store.invoice_keys_differ()
            && store.projects_resolve() && store.invoices_resolve() {
            Ok(store)
        } else {
            Err(StoreError::Inconsistent)
        }
    }

    /// The artist of the given id, if there is one.
    pub fn get_artist(&self, id: &String) -> (found: Option<Artist>)
        requires
            self@.wf(),
        ensures
            match found {
                Some(artist) => self@.has_artist(id@) && artist@ == self@.artist(id@),
                None => !self@.has_artist(id@),
            },
    {
        match self.find_artist(id) {
            Some(i) => {
                proof {
                    self@.lemma_artist_at(i as int);
                }
                Some(self.artists[i].clone())
            },
            None => None,
        }
    }

    /// The project of the given id, if there is one.
    pub fn get_project(&self, id: &String) -> (found: Option<Project>)
        requires
            self@.wf(),
        ensures
            match found {
                Some(project) => self@.has_project(id@) && project@ == self@.project(id@),
                None => !self@.has_project(id@),
            },
    {
        match self.find_project(id) {
            Some(i) => {
                proof {
                    self@.lemma_project_at(i as int);
                }
                Some(self.projects[i].clone())
            },
            None => None,
        }
    }

    /// The invoice of the given id, if there is one.
    pub fn get_invoice(&self, id: &String) -> (found: Option<Invoice>)
        requires
            self@.wf(),
        ensures
            match found {
                Some(invoice) => self@.has_invoice(id@) && invoice@ == self@.invoice(id@),
                None => !self@.has_invoice(id@),
            },
    {
        match self.find_invoice(id) {
            Some(i) => {
                proof {
                    self@.lemma_invoice_at(i as int);
                }
                Some(self.invoices[i].clone())
            },
            None => None,
        }
    }
}

/// All artists, by name; artists of the same name in the order in which they
/// were created.
pub fn get_all_artists(store: &Store) -> (result: Result<Vec<Artist>, StoreError>)
    ensures
        result is Ok,
        result->Ok_0.deep_view() == store@.artists_by_name(),
{
    let mut keys: Vec<String> = Vec::new();
    let mut i: usize = 0;
    while i < store.artists.len()
        invariant
            i <= store.artists.len(),
            keys@.len() == i,
            forall|k: int| 0 <= k < i ==> (#[trigger] keys@[k])@ == store@.artists[k].name,
        decreases store.artists.len() - i,
    {
        keys.push(store.artists[i].name.clone());
        i = i + 1;
    }
    assert(keys.deep_view() =~= store@.artists.map_values(|a: ArtistView| a.name));
    let order = order_of(&keys, false);
    let out = gather(&store.artists, &order);
    assert(out.deep_view() =~= arranged(
        store@.artists,
        order@.map_values(|i: usize| i as int),
    ));
    Ok(out)
}

/// Adds an artist under the given id and creation stamp.
///
/// The artist joins the table unless a row of that id exists already.
pub fn insert_artist(
    store: &mut Store,
    id: String,
    now: String,
    name: String,
    company_name: Option<String>,
    email: Option<String>,
    phone: Option<String>,
    address: Option<String>,
    wire_details: Option<String>,
    notes: Option<String>,
) -> (result: Result<Artist, StoreError>)
    requires
        old(store)@.wf(),
    ensures
        final(store)@.wf(),
        match result {
            Ok(artist) => {
                &&& !old(store)@.has_artist(id@)
                &&& artist@ == (ArtistView {
                    id: id@,
                    name: name@,
                    company_name: opt_text(company_name),
                    email: opt_text(email),
                    phone: opt_text(phone),
                    address: opt_text(address),
                    wire_details: opt_text(wire_details),
                    notes: opt_text(notes),
                    created_at: now@,
                    updated_at: now@,
                })
                &&& final(store)@ == old(store)@.with_artist(artist@)
            },
            Err(e) => {
                &&& e == StoreError::DuplicateId
                &&& old(store)@.has_artist(id@)
                &&& final(store)@ == old(store)@
            },
        },
{
    if store.find_artist(&id).is_some() {
        return Err(StoreError::DuplicateId);
    }
    let artist = Artist {
        id,
        name,
        company_name,
        email,
        phone,
        address,
        wire_details,
        notes,
        created_at: now.clone(),
        updated_at: now,
    };
    let stored = artist.clone();
    proof {
        old(store)@.lemma_with_artist_wf(artist@);
    }
    store.artists.push(stored);
    assert(store@.artists =~= old(store)@.artists.push(artist@));
    Ok(artist)
}

/// Creates an artist with a fresh id, stamped with the current time.
///
/// Id and stamp come from outside, so the contract leaves them open; the
/// store changes exactly as `insert_artist` says for the id and stamp drawn.
pub fn create_artist(
    store: &mut Store,
    name: String,
    company_name: Option<String>,
    email: Option<String>,
    phone: Option<String>,
    address: Option<String>,
    wire_details: Option<String>,
    notes: Option<String>,
) -> (result: Result<Artist, StoreError>)
    requires
        old(store)@.wf(),
    ensures
        final(store)@.wf(),
        result matches Ok(row) ==> is_utc_stamp(row@.created_at),
        old(store)@.artists.len() == 0 ==> result is Ok,
        match result {
            Ok(artist) => {
                &&& !old(store)@.has_artist(artist@.id)
                &&& artist@ == (ArtistView {
                    id: artist@.id,
                    name: name@,
                    company_name: opt_text(company_name),
                    email: opt_text(email),
                    phone: opt_text(phone),
                    address: opt_text(address),
                    wire_details: opt_text(wire_details),
                    notes: opt_text(notes),
                    created_at: artist@.created_at,
                    updated_at: artist@.created_at,
                })
                &&& artist@.id.len() == 36
                &&& final(store)@ == old(store)@.with_artist(artist@)
            },
            Err(e) => e == StoreError::DuplicateId && final(store)@ == old(store)@,
        },
{
    let id = fresh_uuid();
    let now = clock_stamp();
    insert_artist(store, id, now, name, company_name, email, phone, address, wire_details, notes)
}

/// Replaces the editable fields of an artist and stamps the change: with `now`,
/// or with the instant right after the stored stamp where `now` does not lie
/// after it.
///
/// Id and creation stamp stay as stored. Fails if no artist has the id.
pub fn update_artist_at(
    store: &mut Store,
    now: String,
    artist_id: String,
    name: String,
    company_name: Option<String>,
    email: Option<String>,
    phone: Option<String>,
    address: Option<String>,
    wire_details: Option<String>,
    notes: Option<String>,
) -> (result: Result<Artist, StoreError>)
    requires
        old(store)@.wf(),
    ensures
        final(store)@.wf(),
        is_utc_stamp(now@) && result is Ok ==> is_utc_stamp(result->Ok_0@.updated_at),
        match result {
            Ok(artist) => {
                &&& old(store)@.has_artist(artist_id@)
                &&& artist@ == (ArtistView {
                    id: artist_id@,
                    name: name@,
                    company_name: opt_text(company_name),
                    email: opt_text(email),
                    phone: opt_text(phone),
                    address: opt_text(address),
                    wire_details: opt_text(wire_details),
                    notes: opt_text(notes),
                    created_at: old(store)@.artist(artist_id@).created_at,
                    updated_at: next_stamp(
                        old(store)@.artist(artist_id@).updated_at,
                        now@,
                    ),
                })
                &&& final(store)@ == old(store)@.replace_artist(artist@)
            },
            Err(e) => {
                &&& e == StoreError::NotFound
                &&& !old(store)@.has_artist(artist_id@)
                &&& final(store)@ == old(store)@
            },
        },
{
    let at = match store.find_artist(&artist_id) {
        Some(i) => i,
        None => {
            return Err(StoreError::NotFound);
        },
    };
    proof {
        old(store)@.lemma_artist_at(at as int);
    }
    let stamp = stamp_after(store.artists[at].updated_at.as_str(), now);
    let artist = Artist {
        id: artist_id,
        name,
        company_name,
        email,
        phone,
        address,
        wire_details,
        notes,
        created_at: store.artists[at].created_at.clone(),
        updated_at: stamp,
    };
    let stored = artist.clone();
    proof {
        old(store)@.lemma_artist_at(at as int);
        old(store)@.lemma_replace_artist_wf(artist@);
        assert forall|k: int| 0 <= k < old(store)@.artists.len() && k != at implies (
        #[trigger] old(store)@.artists[k]).id != artist@.id by {
            if k < at {
                assert(old(store)@.artists[k].id != old(store)@.artists[at as int].id);
            } else {
                assert(old(store)@.artists[at as int].id != old(store)@.artists[k].id);
            }
        }
    }
    store.artists.set(at, stored);
    assert(store@.artists =~= old(store)@.replace_artist(artist@).artists);
    Ok(artist)
}

/// Replaces the editable fields of an artist, stamped with the current time.
pub fn update_artist(
    store: &mut Store,
    artist_id: String,
    name: String,
    company_name: Option<String>,
    email: Option<String>,
    phone: Option<String>,
    address: Option<String>,
    wire_details: Option<String>,
    notes: Option<String>,
) -> (result: Result<Artist, StoreError>)
    requires
        old(store)@.wf(),
    ensures
        final(store)@.wf(),
        result matches Ok(row) ==> is_utc_stamp(row@.updated_at) && exists|now: Text|
            is_utc_stamp(now) && row@.updated_at == #[trigger] next_stamp(
                old(store)@.artist(artist_id@).updated_at,
                now,
            ),
        match result {
            Ok(artist) => {
                &&& old(store)@.has_artist(artist_id@)
                &&& artist@ == (ArtistView {
                    id: artist_id@,
                    name: name@,
                    company_name: opt_text(company_name),
                    email: opt_text(email),
                    phone: opt_text(phone),
                    address: opt_text(address),
                    wire_details: opt_text(wire_details),
                    notes: opt_text(notes),
                    created_at: old(store)@.artist(artist_id@).created_at,
                    updated_at: artist@.updated_at,
                })
                &&& final(store)@ == old(store)@.replace_artist(artist@)
            },
            Err(e) => {
                &&& e == StoreError::NotFound
                &&& !old(store)@.has_artist(artist_id@)
                &&& final(store)@ == old(store)@
            },
        },
{
    let now = clock_stamp();
    update_artist_at(
        store,
        now,
        artist_id,
        name,
        company_name,
        email,
        phone,
        address,
        wire_details,
        notes,
    )
}

/// Deletes an artist together with what hangs on it.
///
/// The artist's projects and invoices go with it, and any other invoice that
/// pointed at one of those projects keeps its row and loses the reference.
/// Deleting an id that names no artist changes nothing and is no error.
pub fn delete_artist(store: &mut Store, artist_id: String) -> (result: Result<(), StoreError>)
    requires
        old(store)@.wf(),
    ensures
        result is Ok,
        final(store)@ == old(store)@.without_artist(artist_id@),
        final(store)@.wf(),
{
    let kept = store.invoices_not_of(&artist_id);
    let invoices = store.detach_from_artist(&kept, &artist_id);
    let projects = store.projects_not_of(&artist_id);
    let artists = store.artists_except(&artist_id);
    proof {
        old(store)@.lemma_without_artist_wf(artist_id@);
    }
    store.artists = artists;
    store.projects = projects;
    store.invoices = invoices;
    Ok(())
}

/// Why a project may not join the store, if anything stands against it.
pub open spec fn project_refusal(store: StoreView, id: Text, artist_id: Text) -> Option<StoreError> {
    if store.has_project(id) {
        Some(StoreError::DuplicateId)
    } else if !store.has_artist(artist_id) {
        Some(StoreError::UnknownArtist)
    } else {
        None
    }
}

/// All projects, the latest created first; projects of the same creation
/// stamp in the order in which they were created.
pub fn get_all_projects(store: &Store) -> (result: Result<Vec<Project>, StoreError>)
    ensures
        result is Ok,
        result->Ok_0.deep_view() == store@.projects_latest_first(),
{
    Ok(projects_latest_first(&store.projects))
}

/// The projects of one artist, the latest created first. An artist without
/// projects, or an id that names no artist, gives the empty list.
pub fn get_projects_by_artist(store: &Store, artist_id: String) -> (result: Result<
    Vec<Project>,
    StoreError,
>)
    ensures
        result is Ok,
        result->Ok_0.deep_view() == store@.projects_of(artist_id@),
{
    let own = store.projects_owned_by(&artist_id);
    Ok(projects_latest_first(&own))
}

/// The given projects in listing order.
fn projects_latest_first(rows: &Vec<Project>) -> (out: Vec<Project>)
    ensures
        out.deep_view() == listed(rows.deep_view(), |p: ProjectView| p.created_at, true),
{
    let mut keys: Vec<String> = Vec::new();
    let mut i: usize = 0;
    while i < rows.len()
        invariant
            i <= rows.len(),
            keys@.len() == i,
            forall|k: int| 0 <= k < i ==> (#[trigger] keys@[k])@ == rows@[k]@.created_at,
        decreases rows.len() - i,
    {
        keys.push(rows[i].created_at.clone());
        i = i + 1;
    }
    assert(keys.deep_view() =~= rows.deep_view().map_values(|p: ProjectView| p.created_at));
    let order = order_of(&keys, true);
    let out = gather(rows, &order);
    assert(out.deep_view() =~= arranged(rows.deep_view(), order@.map_values(|i: usize| i as int)));
    out
}

/// The given invoices in listing order.
fn invoices_latest_first(rows: &Vec<Invoice>) -> (out: Vec<Invoice>)
    ensures
        out.deep_view() == listed(rows.deep_view(), |v: InvoiceView| v.created_at, true),
{
    let mut keys: Vec<String> = Vec::new();
    let mut i: usize = 0;
    while i < rows.len()
        invariant
            i <= rows.len(),
            keys@.len() == i,
            forall|k: int| 0 <= k < i ==> (#[trigger] keys@[k])@ == rows@[k]@.created_at,
        decreases rows.len() - i,
    {
        keys.push(rows[i].created_at.clone());
        i = i + 1;
    }
    assert(keys.deep_view() =~= rows.deep_view().map_values(|v: InvoiceView| v.created_at));
    let order = order_of(&keys, true);
    let out = gather(rows, &order);
    assert(out.deep_view() =~= arranged(rows.deep_view(), order@.map_values(|i: usize| i as int)));
    out
}

/// Adds a project under the given id and creation stamp.
///
/// The project joins the table unless a project of that id exists already or
/// its artist does not exist.
pub fn insert_project(
    store: &mut Store,
    id: String,
    now: String,
    artist_id: String,
    name: String,
    description: Option<String>,
    status: String,
    start_date: Option<String>,
    end_date: Option<String>,
    budget_bits: u64,
) -> (result: Result<Project, StoreError>)
    requires
        old(store)@.wf(),
    ensures
        final(store)@.wf(),
        match result {
            Ok(project) => {
                &&& project_refusal(old(store)@, id@, artist_id@) is None
                &&& project@ == (ProjectView {
                    id: id@,
                    artist_id: artist_id@,
                    name: name@,
                    description: opt_text(description),
                    status: status@,
                    start_date: opt_text(start_date),
                    end_date: opt_text(end_date),
                    budget_bits: budget_bits,
                    created_at: now@,
                    updated_at: now@,
                })
                &&& final(store)@ == old(store)@.with_project(project@)
            },
            Err(e) => {
                &&& project_refusal(old(store)@, id@, artist_id@) == Some(e)
                &&& final(store)@ == old(store)@
            },
        },
{
    if store.find_project(&id).is_some() {
        return Err(StoreError::DuplicateId);
    }
    if store.find_artist(&artist_id).is_none() {
        return Err(StoreError::UnknownArtist);
    }
    let project = Project {
        id,
        artist_id,
        name,
        description,
        status,
        start_date,
        end_date,
        budget_bits,
        created_at: now.clone(),
        updated_at: now,
    };
    let stored = project.clone();
    proof {
        old(store)@.lemma_with_project_wf(project@);
    }
    store.projects.push(stored);
    assert(store@.projects =~= old(store)@.projects.push(project@));
    Ok(project)
}

/// Creates a project with a fresh id, stamped with the current time.
///
/// Id and stamp come from outside, so the contract leaves them open; the
/// store changes exactly as `insert_project` says for the id and stamp drawn.
pub fn create_project(
    store: &mut Store,
    artist_id: String,
    name: String,
    description: Option<String>,
    status: String,
    start_date: Option<String>,
    end_date: Option<String>,
    budget_bits: u64,
) -> (result: Result<Project, StoreError>)
    requires
        old(store)@.wf(),
    ensures
        final(store)@.wf(),
        result matches Ok(row) ==> is_utc_stamp(row@.created_at),
        !old(store)@.has_artist(artist_id@) ==> result is Err,
        old(store)@.projects.len() == 0 && old(store)@.has_artist(artist_id@) ==> result is Ok,
        match result {
            Ok(project) => {
                &&& project_refusal(old(store)@, project@.id, artist_id@) is None
                &&& project@ == (ProjectView {
                    id: project@.id,
                    artist_id: artist_id@,
                    name: name@,
                    description: opt_text(description),
                    status: status@,
                    start_date: opt_text(start_date),
                    end_date: opt_text(end_date),
                    budget_bits: budget_bits,
                    created_at: project@.created_at,
                    updated_at: project@.created_at,
                })
                &&& project@.id.len() == 36
                &&& final(store)@ == old(store)@.with_project(project@)
            },
            Err(e) => {
                &&& exists|id: Text| #[trigger] project_refusal(old(store)@, id, artist_id@) == Some(e)
                &&& final(store)@ == old(store)@
            },
        },
{
    let id = fresh_uuid();
    let now = clock_stamp();
    insert_project(
        store,
        id,
        now,
        artist_id,
        name,
        description,
        status,
        start_date,
        end_date,
        budget_bits,
    )
}

/// Replaces the editable fields of a project and stamps the change: with `now`,
/// or with the instant right after the stored stamp where `now` does not lie
/// after it.
///
/// Id, artist and creation stamp stay as stored. Fails if no project has the id.
pub fn update_project_at(
    store: &mut Store,
    now: String,
    project_id: String,
    name: String,
    description: Option<String>,
    status: String,
    start_date: Option<String>,
    end_date: Option<String>,
    budget_bits: u64,
) -> (result: Result<Project, StoreError>)
    requires
        old(store)@.wf(),
    ensures
        final(store)@.wf(),
        is_utc_stamp(now@) && result is Ok ==> is_utc_stamp(result->Ok_0@.updated_at),
        match result {
            Ok(project) => {
                &&& old(store)@.has_project(project_id@)
                &&& project@ == (ProjectView {
                    id: project_id@,
                    artist_id: old(store)@.project(project_id@).artist_id,
                    name: name@,
                    description: opt_text(description),
                    status: status@,
                    start_date: opt_text(start_date),
                    end_date: opt_text(end_date),
                    budget_bits: budget_bits,
                    created_at: old(store)@.project(project_id@).created_at,
                    updated_at: next_stamp(
                        old(store)@.project(project_id@).updated_at,
                        now@,
                    ),
                })
                &&& final(store)@ == old(store)@.replace_project(project@)
            },
            Err(e) => {
                &&& e == StoreError::NotFound
                &&& !old(store)@.has_project(project_id@)
                &&& final(store)@ == old(store)@
            },
        },
{
    let at = match store.find_project(&project_id) {
        Some(i) => i,
        None => {
            return Err(StoreError::NotFound);
        },
    };
    proof {
        old(store)@.lemma_project_at(at as int);
    }
    let stamp = stamp_after(store.projects[at].updated_at.as_str(), now);
    let project = Project {
        id: project_id,
        artist_id: store.projects[at].artist_id.clone(),
        name,
        description,
        status,
        start_date,
        end_date,
        budget_bits,
        created_at: store.projects[at].created_at.clone(),
        updated_at: stamp,
    };
    let stored = project.clone();
    proof {
        old(store)@.lemma_project_at(at as int);
        old(store)@.lemma_replace_project_wf(project@);
        assert forall|k: int| 0 <= k < old(store)@.projects.len() && k != at implies (
        #[trigger] old(store)@.projects[k]).id != project@.id by {
            if k < at {
                assert(old(store)@.projects[k].id != old(store)@.projects[at as int].id);
            } else {
                assert(old(store)@.projects[at as int].id != old(store)@.projects[k].id);
            }
        }
    }
    store.projects.set(at, stored);
    assert(store@.projects =~= old(store)@.replace_project(project@).projects);
    Ok(project)
}

/// Replaces the editable fields of a project, stamped with the current time.
pub fn update_project(
    store: &mut Store,
    project_id: String,
    name: String,
    description: Option<String>,
    status: String,
    start_date: Option<String>,
    end_date: Option<String>,
    budget_bits: u64,
) -> (result: Result<Project, StoreError>)
    requires
        old(store)@.wf(),
    ensures
        final(store)@.wf(),
        result matches Ok(row) ==> is_utc_stamp(row@.updated_at) && exists|now: Text|
            is_utc_stamp(now) && row@.updated_at == #[trigger] next_stamp(
                old(store)@.project(project_id@).updated_at,
                now,
            ),
        match result {
            Ok(project) => {
                &&& old(store)@.has_project(project_id@)
                &&& project@ == (ProjectView {
                    id: project_id@,
                    artist_id: old(store)@.project(project_id@).artist_id,
                    name: name@,
                    description: opt_text(description),
                    status: status@,
                    start_date: opt_text(start_date),
                    end_date: opt_text(end_date),
                    budget_bits: budget_bits,
                    created_at: old(store)@.project(project_id@).created_at,
                    updated_at: project@.updated_at,
                })
                &&& final(store)@ == old(store)@.replace_project(project@)
            },
            Err(e) => {
                &&& e == StoreError::NotFound
                &&& !old(store)@.has_project(project_id@)
                &&& final(store)@ == old(store)@
            },
        },
{
    let now = clock_stamp();
    update_project_at(
        store,
        now,
        project_id,
        name,
        description,
        status,
        start_date,
        end_date,
        budget_bits,
    )
}

/// Deletes a project.
///
/// Invoices that pointed at it keep their rows and lose the reference.
/// Deleting an id that names no project changes nothing and is no error.
pub fn delete_project(store: &mut Store, project_id: String) -> (result: Result<(), StoreError>)
    requires
        old(store)@.wf(),
    ensures
        result is Ok,
        final(store)@ == old(store)@.without_project(project_id@),
        final(store)@.wf(),
{
    let invoices = store.detach_from_project(&project_id);
    let projects = store.projects_except(&project_id);
    proof {
        old(store)@.lemma_without_project_wf(project_id@);
    }
    store.projects = projects;
    store.invoices = invoices;
    Ok(())
}

/// Why an invoice may not join the store, if anything stands against it.
pub open spec fn invoice_refusal(
    store: StoreView,
    id: Text,
    invoice_number: Text,
    artist_id: Text,
    project_id: Option<Text>,
) -> Option<StoreError> {
    if store.has_invoice(id) {
        Some(StoreError::DuplicateId)
    } else if store.has_invoice_number(invoice_number) {
        Some(StoreError::DuplicateInvoiceNumber)
    } else if !store.has_artist(artist_id) {
        Some(StoreError::UnknownArtist)
    } else if project_id is Some && !store.has_project(project_id->0) {
        Some(StoreError::UnknownProject)
    } else {
        None
    }
}

/// Why an invoice may not be changed, if anything stands against it.
pub open spec fn invoice_update_refusal(store: StoreView, id: Text, invoice_number: Text) -> Option<
    StoreError,
> {
    if !store.has_invoice(id) {
        Some(StoreError::NotFound)
    } else if store.number_taken(invoice_number, id) {
        Some(StoreError::DuplicateInvoiceNumber)
    } else {
        None
    }
}

/// All invoices, the latest created first; invoices of the same creation
/// stamp in the order in which they were created.
pub fn get_all_invoices(store: &Store) -> (result: Result<Vec<Invoice>, StoreError>)
    ensures
        result is Ok,
        result->Ok_0.deep_view() == store@.invoices_latest_first(),
{
    Ok(invoices_latest_first(&store.invoices))
}

/// The invoices of one artist, the latest created first. An artist without
/// invoices, or an id that names no artist, gives the empty list.
pub fn get_invoices_by_artist(store: &Store, artist_id: String) -> (result: Result<
    Vec<Invoice>,
    StoreError,
>)
    ensures
        result is Ok,
        result->Ok_0.deep_view() == store@.invoices_of(artist_id@),
{
    let own = store.invoices_owned_by(&artist_id);
    Ok(invoices_latest_first(&own))
}

/// Adds an invoice under the given id and creation stamp.
///
/// An empty project id counts as none. The invoice starts without a payment
/// date, whatever its status. It joins the table unless its id or its number
/// is taken, or its artist or its project does not exist.
pub fn insert_invoice(
    store: &mut Store,
    id: String,
    now: String,
    artist_id: String,
    project_id: Option<String>,
    invoice_number: String,
    amount_bits: u64,
    status: String,
    issue_date: String,
    due_date: String,
    bill_to: Option<String>,
    items: String,
    notes: Option<String>,
) -> (result: Result<Invoice, StoreError>)
    requires
        old(store)@.wf(),
    ensures
        final(store)@.wf(),
        match result {
            Ok(invoice) => {
                &&& invoice_refusal(
                    old(store)@,
                    id@,
                    invoice_number@,
                    artist_id@,
                    normal_ref(opt_text(project_id)),
                ) is None
                &&& invoice@ == (InvoiceView {
                    id: id@,
                    artist_id: artist_id@,
                    project_id: normal_ref(opt_text(project_id)),
                    invoice_number: invoice_number@,
                    amount_bits: amount_bits,
                    status: status@,
                    issue_date: issue_date@,
                    due_date: due_date@,
                    paid_date: None,
                    bill_to: opt_text(bill_to),
                    items: items@,
                    notes: opt_text(notes),
                    created_at: now@,
                    updated_at: now@,
                })
                &&& final(store)@ == old(store)@.with_invoice(invoice@)
            },
            Err(e) => {
                &&& invoice_refusal(
                    old(store)@,
                    id@,
                    invoice_number@,
                    artist_id@,
                    normal_ref(opt_text(project_id)),
                ) == Some(e)
                &&& final(store)@ == old(store)@
            },
        },
{
    let project_ref = match project_id {
        Some(p) => if p.as_str().is_empty() {
            None
        } else {
            Some(p)
        },
        None => None,
    };
    if store.find_invoice(&id).is_some() {
        return Err(StoreError::DuplicateId);
    }
    if store.number_known(&invoice_number) {
        return Err(StoreError::DuplicateInvoiceNumber);
    }
    if store.find_artist(&artist_id).is_none() {
        return Err(StoreError::UnknownArtist);
    }
    let project_known = match &project_ref {
        Some(p) => store.find_project(p).is_some(),
        None => true,
    };
    if !project_known {
        return Err(StoreError::UnknownProject);
    }
    let invoice = Invoice {
        id,
        artist_id,
        project_id: project_ref,
        invoice_number,
        amount_bits,
        status,
        issue_date,
        due_date,
        paid_date: None,
        bill_to,
        items,
        notes,
        created_at: now.clone(),
        updated_at: now,
    };
    let stored = invoice.clone();
    proof {
        old(store)@.lemma_with_invoice_wf(invoice@);
    }
    store.invoices.push(stored);
    assert(store@.invoices =~= old(store)@.invoices.push(invoice@));
    Ok(invoice)
}

/// Creates an invoice with a fresh id, stamped with the current time.
///
/// Id and stamp come from outside, so the contract leaves them open; the
/// store changes exactly as `insert_invoice` says for the id and stamp drawn.
/// A number that another invoice bears, an artist or a project that does not
/// exist: each is refused whatever id is drawn. The first invoice of a store
/// is created whatever id is drawn, if its artist and its project exist.
pub fn create_invoice(
    store: &mut Store,
    artist_id: String,
    project_id: Option<String>,
    invoice_number: String,
    amount_bits: u64,
    status: String,
    issue_date: String,
    due_date: String,
    bill_to: Option<String>,
    items: String,
    notes: Option<String>,
) -> (result: Result<Invoice, StoreError>)
    requires
        old(store)@.wf(),
    ensures
        final(store)@.wf(),
        result matches Ok(row) ==> is_utc_stamp(row@.created_at),
        old(store)@.has_invoice_number(invoice_number@) ==> result is Err,
        !old(store)@.has_artist(artist_id@) ==> result is Err,
        old(store)@.invoices.len() == 0 && old(store)@.has_artist(artist_id@) && (normal_ref(
            opt_text(project_id),
        ) matches Some(p) ==> old(store)@.has_project(p)) ==> result is Ok,
        match result {
            Ok(invoice) => {
                &&& invoice_refusal(
                    old(store)@,
                    invoice@.id,
                    invoice_number@,
                    artist_id@,
                    normal_ref(opt_text(project_id)),
                ) is None
                &&& invoice@ == (InvoiceView {
                    id: invoice@.id,
                    artist_id: artist_id@,
                    project_id: normal_ref(opt_text(project_id)),
                    invoice_number: invoice_number@,
                    amount_bits: amount_bits,
                    status: status@,
                    issue_date: issue_date@,
                    due_date: due_date@,
                    paid_date: None,
                    bill_to: opt_text(bill_to),
                    items: items@,
                    notes: opt_text(notes),
                    created_at: invoice@.created_at,
                    updated_at: invoice@.created_at,
                })
                &&& invoice@.id.len() == 36
                &&& final(store)@ == old(store)@.with_invoice(invoice@)
            },
            Err(e) => {
                &&& exists|id: Text| #[trigger]
                    invoice_refusal(
                        old(store)@,
                        id,
                        invoice_number@,
                        artist_id@,
                        normal_ref(opt_text(project_id)),
                    ) == Some(e)
                &&& final(store)@ == old(store)@
            },
        },
{
    let id = fresh_uuid();
    let now = clock_stamp();
    insert_invoice(
        store,
        id,
        now,
        artist_id,
        project_id,
        invoice_number,
        amount_bits,
        status,
        issue_date,
        due_date,
        bill_to,
        items,
        notes,
    )
}

/// Replaces the editable fields of an invoice and stamps the change: with `now`,
/// or with the instant right after the stored stamp where `now` does not lie
/// after it.
///
/// Id, artist, project and creation stamp stay as stored. The payment date
/// follows the status: an update that makes the invoice paid stamps it with
/// `now`, a paid invoice that stays paid keeps its date, and under any other
/// status the invoice carries none. Fails if no invoice has the id, or if
/// another invoice bears the new number.
pub fn update_invoice_at(
    store: &mut Store,
    now: String,
    invoice_id: String,
    invoice_number: String,
    amount_bits: u64,
    status: String,
    issue_date: String,
    due_date: String,
    bill_to: Option<String>,
    items: String,
    notes: Option<String>,
) -> (result: Result<Invoice, StoreError>)
    requires
        old(store)@.wf(),
    ensures
        final(store)@.wf(),
        is_utc_stamp(now@) && result is Ok ==> is_utc_stamp(result->Ok_0@.updated_at),
        match result {
            Ok(invoice) => {
                &&& invoice_update_refusal(old(store)@, invoice_id@, invoice_number@) is None
                &&& invoice@ == (InvoiceView {
                    id: invoice_id@,
                    artist_id: old(store)@.invoice(invoice_id@).artist_id,
                    project_id: old(store)@.invoice(invoice_id@).project_id,
                    invoice_number: invoice_number@,
                    amount_bits: amount_bits,
                    status: status@,
                    issue_date: issue_date@,
                    due_date: due_date@,
                    paid_date: paid_date_after(
                        status@,
                        old(store)@.invoice(invoice_id@),
                        next_stamp(old(store)@.invoice(invoice_id@).updated_at, now@),
                    ),
                    bill_to: opt_text(bill_to),
                    items: items@,
                    notes: opt_text(notes),
                    created_at: old(store)@.invoice(invoice_id@).created_at,
                    updated_at: next_stamp(
                        old(store)@.invoice(invoice_id@).updated_at,
                        now@,
                    ),
                })
                &&& final(store)@ == old(store)@.replace_invoice(invoice@)
            },
            Err(e) => {
                &&& invoice_update_refusal(old(store)@, invoice_id@, invoice_number@) == Some(e)
                &&& final(store)@ == old(store)@
            },
        },
{
    let at = match store.find_invoice(&invoice_id) {
        Some(i) => i,
        None => {
            return Err(StoreError::NotFound);
        },
    };
    if store.number_in_use(&invoice_number, &invoice_id) {
        return Err(StoreError::DuplicateInvoiceNumber);
    }
    proof {
        old(store)@.lemma_invoice_at(at as int);
    }
    let stamp = stamp_after(store.invoices[at].updated_at.as_str(), now);
    let paid = String::from_str("paid");
    proof {
        reveal_strlit("paid");
        assert(paid@ =~= paid_text());
    }
    let paid_date = if !(status == paid) {
        None
    } else if store.invoices[at].status == paid && store.invoices[at].paid_date.is_some() {
        copy_opt(&store.invoices[at].paid_date)
    } else {
        Some(stamp.clone())
    };
    let invoice = Invoice {
        id: invoice_id,
        artist_id: store.invoices[at].artist_id.clone(),
        project_id: copy_opt(&store.invoices[at].project_id),
        invoice_number,
        amount_bits,
        status,
        issue_date,
        due_date,
        paid_date,
        bill_to,
        items,
        notes,
        created_at: store.invoices[at].created_at.clone(),
        updated_at: stamp,
    };
    let stored = invoice.clone();
    proof {
        old(store)@.lemma_invoice_at(at as int);
        old(store)@.lemma_replace_invoice_wf(invoice@);
        assert forall|k: int| 0 <= k < old(store)@.invoices.len() && k != at implies (
        #[trigger] old(store)@.invoices[k]).id != invoice@.id by {
            if k < at {
                assert(old(store)@.invoices[k].id != old(store)@.invoices[at as int].id);
            } else {
                assert(old(store)@.invoices[at as int].id != old(store)@.invoices[k].id);
            }
        }
    }
    store.invoices.set(at, stored);
    assert(store@.invoices =~= old(store)@.replace_invoice(invoice@).invoices);
    Ok(invoice)
}

/// Replaces the editable fields of an invoice, stamped with the current time.
///
/// The stamp comes from the clock, so the contract leaves it open: it is the
/// new `updated_at`, and the payment date where this update makes the
/// invoice paid.
pub fn update_invoice(
    store: &mut Store,
    invoice_id: String,
    invoice_number: String,
    amount_bits: u64,
    status: String,
    issue_date: String,
    due_date: String,
    bill_to: Option<String>,
    items: String,
    notes: Option<String>,
) -> (result: Result<Invoice, StoreError>)
    requires
        old(store)@.wf(),
    ensures
        final(store)@.wf(),
        result matches Ok(row) ==> is_utc_stamp(row@.updated_at) && exists|now: Text|
            is_utc_stamp(now) && row@.updated_at == #[trigger] next_stamp(
                old(store)@.invoice(invoice_id@).updated_at,
                now,
            ),
        match result {
            Ok(invoice) => {
                &&& invoice_update_refusal(old(store)@, invoice_id@, invoice_number@) is None
                &&& invoice@ == (InvoiceView {
                    id: invoice_id@,
                    artist_id: old(store)@.invoice(invoice_id@).artist_id,
                    project_id: old(store)@.invoice(invoice_id@).project_id,
                    invoice_number: invoice_number@,
                    amount_bits: amount_bits,
                    status: status@,
                    issue_date: issue_date@,
                    due_date: due_date@,
                    paid_date: paid_date_after(
                        status@,
                        old(store)@.invoice(invoice_id@),
                        invoice@.updated_at,
                    ),
                    bill_to: opt_text(bill_to),
                    items: items@,
                    notes: opt_text(notes),
                    created_at: old(store)@.invoice(invoice_id@).created_at,
                    updated_at: invoice@.updated_at,
                })
                &&& final(store)@ == old(store)@.replace_invoice(invoice@)
            },
            Err(e) => {
                &&& invoice_update_refusal(old(store)@, invoice_id@, invoice_number@) == Some(e)
                &&& final(store)@ == old(store)@
            },
        },
{
    let now = clock_stamp();
    update_invoice_at(
        store,
        now,
        invoice_id,
        invoice_number,
        amount_bits,
        status,
        issue_date,
        due_date,
        bill_to,
        items,
        notes,
    )
}

/// Deletes an invoice. Deleting an id that names no invoice changes nothing
/// and is no error.
pub fn delete_invoice(store: &mut Store, invoice_id: String) -> (result: Result<(), StoreError>)
    requires
        old(store)@.wf(),
    ensures
        result is Ok,
        final(store)@ == old(store)@.without_invoice(invoice_id@),
        final(store)@.wf(),
{
    let invoices = store.invoices_except(&invoice_id);
    proof {
        old(store)@.lemma_without_invoice_wf(invoice_id@);
    }
    store.invoices = invoices;
    Ok(())
}

/// Plans the statements that bring the durable store up to the schema.
///
/// `artist_columns` and `invoice_columns` are the column names that the two
/// tables report before anything is executed, none for a table that is
/// absent. The plan creates what is absent, the tables of the music library
/// among it, adds to a table that exists the columns that it lacks, and
/// creates the indexes; it is to be executed in order, before any other
/// statement.
pub fn init(artist_columns: &Vec<String>, invoice_columns: &Vec<String>) -> (plan: Vec<Step>)
    ensures
        plan@ == init_plan(artist_columns.deep_view(), invoice_columns.deep_view()),
{
    let mut plan: Vec<Step> = Vec::new();
    plan.push(Step::CreateTable(Table::Artists));
    assert(plan@ =~= seq![Step::CreateTable(Table::Artists)]);
    plan_catch_up(&mut plan, artist_columns, LateColumn::ArtistCompanyName);
    plan_catch_up(&mut plan, artist_columns, LateColumn::ArtistWireDetails);
    let ghost head = plan@;
    plan.push(Step::CreateTable(Table::Projects));
    plan.push(Step::CreateTable(Table::Invoices));
    assert(plan@ =~= head + seq![
        Step::CreateTable(Table::Projects),
        Step::CreateTable(Table::Invoices),
    ]);
    plan_catch_up(&mut plan, invoice_columns, LateColumn::InvoiceBillTo);
    let ghost business = plan@;
    plan.push(Step::CreateTable(Table::Songs));
    plan.push(Step::CreateTable(Table::Playlists));
    plan.push(Step::CreateTable(Table::PlaylistSongs));
    assert(plan@ =~= business + music_steps());
    let ghost body = plan@;
    plan.push(Step::CreateIndex(Index::ProjectsArtistId));
    plan.push(Step::CreateIndex(Index::ProjectsStatus));
    plan.push(Step::CreateIndex(Index::ProjectsCreatedAt));
    plan.push(Step::CreateIndex(Index::InvoicesArtistId));
    plan.push(Step::CreateIndex(Index::InvoicesProjectId));
    plan.push(Step::CreateIndex(Index::InvoicesStatus));
    plan.push(Step::CreateIndex(Index::InvoicesCreatedAt));
    plan.push(Step::CreateIndex(Index::InvoicesDueDate));
    plan.push(Step::CreateIndex(Index::PlaylistSongsPosition));
    assert(plan@ =~= body + index_steps());
    plan
}

} // verus!
