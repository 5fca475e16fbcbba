//! Laws of the two stores, proved of their models: what holds between several
//! operations, whatever the rows they meet.

use vstd::prelude::*;
use crate::database::{StoreError, invoice_refusal, invoice_update_refusal, paid_date_after};
use crate::library::{LibraryError, member_refusal};
use crate::library_model::{LibraryView, MemberView, lemma_max_position_bounds, max_position};
use crate::model::{
    ArtistView, InvoiceView, ProjectView, StoreView, Text, lemma_filter_pairwise, lemma_filter_rows,
    lemma_listed, paid_text,
};
use crate::calendar::instant_of;
use crate::sorting::listing_order;
use crate::stamps::{before, just_after, next_stamp, written};
use crate::text::text_le;

verus! {

/// An invoice number is taken once: with an invoice in the store, every
/// further invoice of the same number is refused, whatever else it says.
pub proof fn law_invoice_number_is_taken_once(
    store: StoreView,
    first: InvoiceView,
    id: Text,
    artist_id: Text,
    project_id: Option<Text>,
)
    ensures
        invoice_refusal(store.with_invoice(first), id, first.invoice_number, artist_id, project_id)
            == Some(StoreError::DuplicateId) || invoice_refusal(
            store.with_invoice(first),
            id,
            first.invoice_number,
            artist_id,
            project_id,
        ) == Some(StoreError::DuplicateInvoiceNumber),
{
    let next = store.with_invoice(first);
    assert(next.invoices[store.invoices.len() as int].invoice_number == first.invoice_number);
}

/// Invoices of different numbers do not stand in each other's way: what the
/// store accepted before another invoice joined, it accepts afterwards, where
/// id and number differ from the other's.
pub proof fn law_other_invoice_numbers_stay_free(
    store: StoreView,
    first: InvoiceView,
    id: Text,
    invoice_number: Text,
    artist_id: Text,
    project_id: Option<Text>,
)
    requires
        invoice_refusal(store, id, invoice_number, artist_id, project_id) is None,
        id != first.id,
        invoice_number != first.invoice_number,
    ensures
        invoice_refusal(store.with_invoice(first), id, invoice_number, artist_id, project_id) is None,
{
    let next = store.with_invoice(first);
    if next.has_invoice(id) {
        let k = choose|k: int| 0 <= k < next.invoices.len() && (#[trigger] next.invoices[k]).id == id;
        assert(store.invoices[k].id == id);
    }
    if next.has_invoice_number(invoice_number) {
        let k = choose|k: int|
            0 <= k < next.invoices.len() && (#[trigger] next.invoices[k]).invoice_number
                == invoice_number;
        assert(store.invoices[k].invoice_number == invoice_number);
    }
}

/// The payment date is the time of the update that made the invoice paid:
/// such an update carries its own stamp, later updates that leave the
/// invoice paid keep that date, and an update to any other status clears it.
pub proof fn law_paid_date_is_set_once(status: Text, stored: InvoiceView, now: Text)
    ensures
        status != paid_text() ==> paid_date_after(status, stored, now) is None,
        status == paid_text() ==> paid_date_after(status, stored, now) is Some,
        status == paid_text() && stored.status == paid_text() && stored.paid_date is Some
            ==> paid_date_after(status, stored, now) == stored.paid_date,
        status == paid_text() && stored.status != paid_text() ==> paid_date_after(
            status,
            stored,
            now,
        ) == Some(now),
{
}

/// An update moves the stamp of its row forward. Where the stored stamp and
/// the reading of the clock are stamps, the new stamp is the reading if that
/// lies after the stored stamp; and wherever the instant right after the
/// stored one can be written and read back, the new stamp, read as an
/// instant, lies after the stored one, whatever the clock reads.
pub proof fn law_update_moves_the_stamp_forward(stored: Text, now: Text)
    requires
        instant_of(stored) is Some,
        instant_of(now) is Some,
    ensures
        before(instant_of(stored)->0, instant_of(now)->0) ==> next_stamp(stored, now) == now,
        next_stamp(stored, now) != now ==> instant_of(next_stamp(stored, now)) is Some && before(
            instant_of(stored)->0,
            instant_of(next_stamp(stored, now))->0,
        ),
        (written(just_after(instant_of(stored)->0)) matches Some(text) && instant_of(text) is Some
            && before(instant_of(stored)->0, instant_of(text)->0)) ==> instant_of(
            next_stamp(stored, now),
        ) is Some && before(instant_of(stored)->0, instant_of(next_stamp(stored, now))->0),
{
}

/// An update that finds its invoice and a free number is not refused, and
/// one that does not find its invoice is refused as not found.
pub proof fn law_update_needs_its_row(store: StoreView, id: Text, invoice_number: Text)
    ensures
        !store.has_invoice(id) ==> invoice_update_refusal(store, id, invoice_number) == Some(
            StoreError::NotFound,
        ),
        store.has_invoice(id) && !store.number_taken(invoice_number, id) ==> invoice_update_refusal(
            store,
            id,
            invoice_number,
        ) is None,
{
}

/// Listing an empty table gives an empty list.
pub proof fn law_empty_store_lists_nothing()
    ensures
        StoreView::empty().artists_by_name() == Seq::<ArtistView>::empty(),
        StoreView::empty().projects_latest_first() == Seq::<ProjectView>::empty(),
        StoreView::empty().invoices_latest_first() == Seq::<InvoiceView>::empty(),
{
    let none = Seq::<Seq<char>>::empty();
    assert(StoreView::empty().artists.map_values(|a: ArtistView| a.name) =~= none);
    assert(StoreView::empty().projects.map_values(|p: ProjectView| p.created_at)
        =~= none);
    assert(StoreView::empty().invoices.map_values(|v: InvoiceView| v.created_at) =~= none);
    assert(listing_order(none, false) =~= Seq::<int>::empty());
    assert(listing_order(none, true) =~= Seq::<int>::empty());
    assert(StoreView::empty().artists_by_name() =~= Seq::<ArtistView>::empty());
    assert(StoreView::empty().projects_latest_first() =~= Seq::<ProjectView>::empty());
    assert(StoreView::empty().invoices_latest_first() =~= Seq::<InvoiceView>::empty());
}

/// Every listing is complete and in order: it shows each row of its table
/// once, artists by ascending name, projects and invoices by descending
/// creation stamp.
pub proof fn law_listings_are_complete_and_sorted(store: StoreView)
    ensures
        store.artists_by_name().len() == store.artists.len(),
        store.projects_latest_first().len() == store.projects.len(),
        store.invoices_latest_first().len() == store.invoices.len(),
        forall|i: int|
            0 <= i < store.artists.len() ==> store.artists_by_name().contains(
                #[trigger] store.artists[i],
            ),
        forall|i: int|
            0 <= i < store.projects.len() ==> store.projects_latest_first().contains(
                #[trigger] store.projects[i],
            ),
        forall|i: int|
            0 <= i < store.invoices.len() ==> store.invoices_latest_first().contains(
                #[trigger] store.invoices[i],
            ),
        forall|k: int, m: int|
            0 <= k < m < store.artists.len() ==> text_le(
                (#[trigger] store.artists_by_name()[k]).name,
                (#[trigger] store.artists_by_name()[m]).name,
            ),
        forall|k: int, m: int|
            0 <= k < m < store.projects.len() ==> text_le(
                (#[trigger] store.projects_latest_first()[m]).created_at,
                (#[trigger] store.projects_latest_first()[k]).created_at,
            ),
        forall|k: int, m: int|
            0 <= k < m < store.invoices.len() ==> text_le(
                (#[trigger] store.invoices_latest_first()[m]).created_at,
                (#[trigger] store.invoices_latest_first()[k]).created_at,
            ),
{
    let name = |a: ArtistView| a.name;
    let project_stamp = |p: ProjectView| p.created_at;
    let invoice_stamp = |v: InvoiceView| v.created_at;
    lemma_listed(store.artists, name, false);
    lemma_listed(store.projects, project_stamp, true);
    lemma_listed(store.invoices, invoice_stamp, true);
    assert forall|k: int, m: int| 0 <= k < m < store.artists.len() implies text_le(
        (#[trigger] store.artists_by_name()[k]).name,
        (#[trigger] store.artists_by_name()[m]).name,
    ) by {
        assert(crate::sorting::in_order(
            name(store.artists_by_name()[k]),
            name(store.artists_by_name()[m]),
            false,
        ));
    }
    assert forall|k: int, m: int| 0 <= k < m < store.projects.len() implies text_le(
        (#[trigger] store.projects_latest_first()[m]).created_at,
        (#[trigger] store.projects_latest_first()[k]).created_at,
    ) by {
        assert(crate::sorting::in_order(
            project_stamp(store.projects_latest_first()[k]),
            project_stamp(store.projects_latest_first()[m]),
            true,
        ));
    }
    assert forall|k: int, m: int| 0 <= k < m < store.invoices.len() implies text_le(
        (#[trigger] store.invoices_latest_first()[m]).created_at,
        (#[trigger] store.invoices_latest_first()[k]).created_at,
    ) by {
        assert(crate::sorting::in_order(
            invoice_stamp(store.invoices_latest_first()[k]),
            invoice_stamp(store.invoices_latest_first()[m]),
            true,
        ));
    }
}

/// Deleting an artist leaves no reference dangling: the artist, its projects
/// and its invoices are gone, every other invoice is still there, and such
/// an invoice points at no project if its project was one of the artist's,
/// and at the project it pointed at before if not.
pub proof fn law_deleting_an_artist_leaves_nothing_dangling(store: StoreView, artist_id: Text)
    requires
        store.wf(),
    ensures
        store.without_artist(artist_id).wf(),
        !store.without_artist(artist_id).has_artist(artist_id),
        forall|i: int|
            0 <= i < store.projects.len() && (#[trigger] store.projects[i]).artist_id == artist_id
                ==> !store.without_artist(artist_id).has_project(store.projects[i].id),
        forall|i: int|
            0 <= i < store.invoices.len() && (#[trigger] store.invoices[i]).artist_id == artist_id
                ==> !store.without_artist(artist_id).has_invoice(store.invoices[i].id),
        forall|i: int|
            0 <= i < store.invoices.len() && (#[trigger] store.invoices[i]).artist_id != artist_id
                ==> store.without_artist(artist_id).has_invoice(store.invoices[i].id)
                && store.without_artist(artist_id).invoice(store.invoices[i].id).project_id == (
            if store.invoices[i].project_id is Some && store.project_owned_by(
                store.invoices[i].project_id->0,
                artist_id,
            ) {
                None
            } else {
                store.invoices[i].project_id
            }),
{
    let next = store.without_artist(artist_id);
    let keep_p = |p: ProjectView| p.artist_id != artist_id;
    let keep_v = |v: InvoiceView| v.artist_id != artist_id;
    let kept = store.invoices.filter(keep_v);
    store.lemma_without_artist_wf(artist_id);
    lemma_filter_rows(store.projects, keep_p);
    lemma_filter_rows(store.invoices, keep_v);
    assert forall|i: int|
        0 <= i < store.projects.len() && (#[trigger] store.projects[i]).artist_id
            == artist_id implies !next.has_project(store.projects[i].id) by {
        if next.has_project(store.projects[i].id) {
            let k = choose|k: int|
                0 <= k < next.projects.len() && (#[trigger] next.projects[k]).id
                    == store.projects[i].id;
            assert(next.projects.contains(next.projects[k]));
            assert(store.projects.contains(next.projects[k]));
            let m = choose|m: int| 0 <= m < store.projects.len() && store.projects[m] == next.projects[k];
            store.lemma_project_at(m);
            store.lemma_project_at(i);
        }
    }
    assert forall|i: int|
        0 <= i < store.invoices.len() && (#[trigger] store.invoices[i]).artist_id
            == artist_id implies !next.has_invoice(store.invoices[i].id) by {
        if next.has_invoice(store.invoices[i].id) {
            let k = choose|k: int|
                0 <= k < next.invoices.len() && (#[trigger] next.invoices[k]).id
                    == store.invoices[i].id;
            assert(next.invoices[k].id == kept[k].id);
            assert(kept.contains(kept[k]));
            assert(store.invoices.contains(kept[k]));
            let m = choose|m: int| 0 <= m < store.invoices.len() && store.invoices[m] == kept[k];
            store.lemma_invoice_at(m);
            store.lemma_invoice_at(i);
        }
    }
    assert forall|i: int|
        0 <= i < store.invoices.len() && (#[trigger] store.invoices[i]).artist_id
            != artist_id implies next.has_invoice(store.invoices[i].id) && next.invoice(
        store.invoices[i].id,
    ).project_id == (if store.invoices[i].project_id is Some && store.project_owned_by(
        store.invoices[i].project_id->0,
        artist_id,
    ) {
        None
    } else {
        store.invoices[i].project_id
    }) by {
        assert(store.invoices.contains(store.invoices[i]));
        assert(kept.contains(store.invoices[i]));
        let k = choose|k: int| 0 <= k < kept.len() && kept[k] == store.invoices[i];
        assert(next.invoices[k].id == store.invoices[i].id);
        next.lemma_invoice_at(k);
    }
}

/// Adding a member twice is adding it once: the second call changes nothing,
/// the pair is kept in exactly one row, and the playlist has grown by one
/// song at most.
pub proof fn law_add_member_is_idempotent(library: LibraryView, playlist_id: Text, song_id: Text)
    requires
        library.wf(),
        library.has_playlist(playlist_id),
        library.has_song(song_id),
    ensures
        library.with_member(playlist_id, song_id).with_member(playlist_id, song_id)
            == library.with_member(playlist_id, song_id),
        library.with_member(playlist_id, song_id).members.filter(
            |m: MemberView| m.playlist_id == playlist_id && m.song_id == song_id,
        ).len() == 1,
        library.with_member(playlist_id, song_id).members_of(playlist_id).len()
            <= library.members_of(playlist_id).len() + 1,
{
    let once = library.with_member(playlist_id, song_id);
    let pair = |m: MemberView| m.playlist_id == playlist_id && m.song_id == song_id;
    let of = |m: MemberView| m.playlist_id == playlist_id;
    library.lemma_with_member_wf(playlist_id, song_id);
    if !library.has_member(playlist_id, song_id) {
        assert(once.members[library.members.len() as int].playlist_id == playlist_id);
        library.members.lemma_filter_push(once.members[library.members.len() as int], of);
    }
    assert(once.has_member(playlist_id, song_id));
    let k = choose|k: int|
        0 <= k < once.members.len() && (#[trigger] once.members[k]).playlist_id == playlist_id
            && once.members[k].song_id == song_id;
    let rows = once.members.filter(pair);
    lemma_filter_rows(once.members, pair);
    assert(once.members.contains(once.members[k]));
    assert(rows.contains(once.members[k]));
    let apart = |a: MemberView, b: MemberView|
        !(a.playlist_id == b.playlist_id && a.song_id == b.song_id);
    lemma_filter_pairwise(once.members, pair, apart);
    if rows.len() > 1 {
        assert(apart(rows[0], rows[1]));
        assert(rows.contains(rows[0]));
        assert(rows.contains(rows[1]));
    }
}

/// What happens to one playlist leaves the others alone: adding a song to a
/// playlist changes neither the members nor the next position of another.
pub proof fn law_playlists_do_not_interfere(
    library: LibraryView,
    playlist_id: Text,
    other_id: Text,
    song_id: Text,
)
    requires
        playlist_id != other_id,
    ensures
        library.with_member(other_id, song_id).members_of(playlist_id) == library.members_of(
            playlist_id,
        ),
        library.with_member(other_id, song_id).next_position(playlist_id) == library.next_position(
            playlist_id,
        ),
{
    let next = library.with_member(other_id, song_id);
    let of = |m: MemberView| m.playlist_id == playlist_id;
    if !library.has_member(other_id, song_id) {
        let added = next.members[library.members.len() as int];
        library.members.lemma_filter_push(added, of);
        assert(next.members.drop_last() =~= library.members);
    }
}

/// The first two songs of a playlist stand at positions 0 and 1 and are read
/// back in that order, whatever is added to another playlist in between.
pub proof fn law_first_members_take_positions_zero_and_one(
    library: LibraryView,
    playlist_id: Text,
    first: Text,
    second: Text,
    other_id: Text,
    other_song: Text,
)
    requires
        library.members_of(playlist_id).len() == 0,
        first != second,
        other_id != playlist_id,
    ensures
        library.with_member(playlist_id, first).with_member(other_id, other_song).with_member(
            playlist_id,
            second,
        ).members_of(playlist_id) == seq![
            MemberView { playlist_id: playlist_id, song_id: first, position: 0 },
            MemberView { playlist_id: playlist_id, song_id: second, position: 1 },
        ],
        library.with_member(playlist_id, first).with_member(other_id, other_song).with_member(
            playlist_id,
            second,
        ).song_ids_of(playlist_id) == seq![first, second],
{
    let of = |m: MemberView| m.playlist_id == playlist_id;
    let m0 = MemberView { playlist_id: playlist_id, song_id: first, position: 0 };
    let m1 = MemberView { playlist_id: playlist_id, song_id: second, position: 1 };
    lemma_filter_rows(library.members, of);
    assert forall|i: int| 0 <= i < library.members.len() implies (
    #[trigger] library.members[i]).playlist_id != playlist_id by {
        if library.members[i].playlist_id == playlist_id {
            assert(library.members.contains(library.members[i]));
            assert(library.members.filter(of).contains(library.members[i]));
        }
    }
    lemma_max_position_bounds(library.members, playlist_id);
    assert(!library.has_member(playlist_id, first));
    let a = library.with_member(playlist_id, first);
    assert(a.members == library.members.push(m0));
    library.members.lemma_filter_push(m0, of);
    assert(a.members_of(playlist_id) =~= seq![m0]);
    assert(a.members.drop_last() =~= library.members);
    assert(max_position(a.members, playlist_id) == 0);
    let b = a.with_member(other_id, other_song);
    law_playlists_do_not_interfere(a, playlist_id, other_id, other_song);
    assert(b.members_of(playlist_id) == seq![m0]);
    assert(b.next_position(playlist_id) == 1);
    lemma_filter_rows(b.members, of);
    if b.has_member(playlist_id, second) {
        let k = choose|k: int|
            0 <= k < b.members.len() && (#[trigger] b.members[k]).playlist_id == playlist_id
                && b.members[k].song_id == second;
        assert(b.members.contains(b.members[k]));
        assert(b.members.filter(of).contains(b.members[k]));
        let n = choose|n: int| 0 <= n < seq![m0].len() && seq![m0][n] == b.members[k];
    }
    let c = b.with_member(playlist_id, second);
    assert(c.members == b.members.push(m1));
    b.members.lemma_filter_push(m1, of);
    assert(c.members_of(playlist_id) =~= seq![m0, m1]);
    assert(c.song_ids_of(playlist_id) =~= seq![first, second]);
}

/// The members of a playlist are read in playing order: their positions
/// grow strictly from one to the next.
pub proof fn law_members_are_read_by_position(library: LibraryView, playlist_id: Text)
    requires
        library.wf(),
    ensures
        forall|i: int, j: int|
            0 <= i < j < library.members_of(playlist_id).len() ==> (
            #[trigger] library.members_of(playlist_id)[i]).position < (
            #[trigger] library.members_of(playlist_id)[j]).position,
{
    let of = |m: MemberView| m.playlist_id == playlist_id;
    let rows = library.members.filter(of);
    let ahead = |a: MemberView, b: MemberView|
        a.playlist_id == b.playlist_id ==> a.position < b.position;
    lemma_filter_pairwise(library.members, of, ahead);
    assert forall|i: int, j: int| 0 <= i < j < rows.len() implies (#[trigger] rows[i]).position < (
    #[trigger] rows[j]).position by {
        assert(ahead(rows[i], rows[j]));
        library.members.lemma_filter_pred(of, i);
        library.members.lemma_filter_pred(of, j);
    }
}

/// A song that does not exist joins no playlist: the call is refused and
/// names the song as the reason, where the playlist exists.
pub proof fn law_unknown_song_is_refused(library: LibraryView, playlist_id: Text, song_id: Text)
    requires
        !library.has_song(song_id),
    ensures
        member_refusal(library, playlist_id, song_id) == Some(
            if library.has_playlist(playlist_id) {
                LibraryError::UnknownSong
            } else {
                LibraryError::UnknownPlaylist
            },
        ),
{
}

} // verus!
