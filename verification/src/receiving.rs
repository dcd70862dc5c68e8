//! What a choice of the user means for the whole of a synchronization: messages that are to stay on
//! the server stay there, and those that are not are removed once they have been received.
use vstd::prelude::*;

use crate::imap::{messages, numbers, FetchAction, FetchStage, FetchedView, FetchingView};
use crate::sync::{FullStage, FullSyncView, NotifView, SyncFetch, SyncStage, SyncingView, fetch_of};

verus! {

/// Something that happens while a folder is synchronized.
pub enum SyncEvent {
    Last(Option<i64>),
    Fetched(Seq<u32>, u32),
    FetchError(Seq<char>),
    Stored(int, Option<i64>),
    Item(int, Option<NotifView>),
    Executed,
    PurgeSettings(Option<(Option<i64>, i32)>),
}

/// A synchronization after something has happened.
pub open spec fn after_event(s: SyncingView, e: SyncEvent) -> SyncingView {
    match e {
        SyncEvent::Last(stored) => s.after_last(stored),
        SyncEvent::Fetched(uids, uid_next) => s.after_fetch(uids, uid_next),
        SyncEvent::FetchError(e) => s.after_fetch_error(e),
        SyncEvent::Stored(i, new_id) => s.after_store(i, new_id),
        SyncEvent::Item(i, item) => s.after_item(i, item),
        SyncEvent::Executed => s.after_executed(),
        SyncEvent::PurgeSettings(p) => s.after_purge_settings(p),
    }
}

/// A synchronization after several things have happened.
pub open spec fn after_events(s: SyncingView, es: Seq<SyncEvent>) -> SyncingView
    decreases es.len(),
{
    if es.len() == 0 {
        s
    } else {
        after_event(after_events(s, es.drop_last()), es.last())
    }
}

proof fn lemma_events_keep(s: SyncingView, es: Seq<SyncEvent>)
    ensures
        after_events(s, es).plan.leave_on_server == s.plan.leave_on_server,
        after_events(s, es).plan.offset == s.plan.offset,
        after_events(s, es).account_id == s.account_id,
        after_events(s, es).folder == s.folder,
    decreases es.len(),
{
    if es.len() > 0 {
        lemma_events_keep(s, es.drop_last());
    }
}

/// Whatever happens while a folder is synchronized, the account, the folder, how many messages are
/// passed over and whether messages stay on the server remain as they were chosen; without a choice
/// they stay and none is passed over.
pub proof fn law_choice_is_kept(
    account_id: int,
    folder: Seq<char>,
    offset: Option<u32>,
    leave_on_server: Option<bool>,
    es: Seq<SyncEvent>,
)
    ensures
        ({
            let s = after_events(
                SyncingView::start(account_id, folder, offset, leave_on_server),
                es,
            );
            &&& leave_on_server matches Some(b) ==> s.plan.leave_on_server == b
            &&& leave_on_server is None ==> s.plan.leave_on_server
            &&& offset matches Some(k) ==> s.plan.offset == k
            &&& offset is None ==> s.plan.offset == 0
            &&& s.account_id == account_id
            &&& s.folder == folder
        }),
{
    lemma_events_keep(SyncingView::start(account_id, folder, offset, leave_on_server), es);
}

/// The first synchronization of a folder fetches its newest messages, each later one those after the
/// last known message, and one that passes messages over the older ones behind them.
pub proof fn law_what_is_fetched(
    account_id: int,
    folder: Seq<char>,
    offset: Option<u32>,
    leave_on_server: Option<bool>,
    last_uid: i64,
)
    requires
        0 <= last_uid <= u32::MAX,
    ensures
        ({
            let s = SyncingView::start(account_id, folder, offset, leave_on_server);
            let known = s.after_last(Some(last_uid));
            let unknown = s.after_last(None);
            &&& offset matches Some(k) ==> (k > 0 ==> s.stage == SyncStage::Fetch && fetch_of(s.plan)
                == (SyncFetch::Window { limit: 100, offset: k }))
            &&& offset is None ==> {
                &&& s.stage == SyncStage::AskLast
                &&& known.stage == SyncStage::Fetch
                &&& last_uid > 0 ==> fetch_of(known.plan) == (SyncFetch::New {
                    last_uid: last_uid as u32,
                })
                &&& last_uid == 0 ==> fetch_of(known.plan) == (SyncFetch::Window {
                    limit: 100,
                    offset: 0,
                })
                &&& fetch_of(unknown.plan) == (SyncFetch::Window { limit: 100, offset: 0 })
            }
        }),
{
}

/// Something that happens while messages are fetched.
pub enum FetchEvent {
    Messages(Seq<FetchedView>),
    Marked(bool),
    Expunged,
}

/// A fetch after something has happened; what does not fit its stage changes nothing.
pub open spec fn fetch_after(f: FetchingView, e: FetchEvent) -> FetchingView {
    match (f.stage, e) {
        (FetchStage::Fetch, FetchEvent::Messages(m)) => f.after_messages(m),
        (FetchStage::Mark, FetchEvent::Marked(ok)) => f.after_mark(ok),
        (FetchStage::Expunge, FetchEvent::Expunged) => f.after_expunge(),
        _ => f,
    }
}

/// A fetch after several things have happened.
pub open spec fn fetch_after_all(f: FetchingView, es: Seq<FetchEvent>) -> FetchingView
    decreases es.len(),
{
    if es.len() == 0 {
        f
    } else {
        fetch_after(fetch_after_all(f, es.drop_last()), es.last())
    }
}

proof fn lemma_left(sets: Seq<Seq<char>>, by_uid: bool, es: Seq<FetchEvent>)
    ensures
        fetch_after_all(FetchingView::start(sets, by_uid, true), es).leave,
        fetch_after_all(FetchingView::start(sets, by_uid, true), es).stage != FetchStage::Mark,
        fetch_after_all(FetchingView::start(sets, by_uid, true), es).stage != FetchStage::Expunge,
    decreases es.len(),
{
    if es.len() > 0 {
        lemma_left(sets, by_uid, es.drop_last());
    }
}

/// Whatever happens, messages of a folder that is synchronized with the choice to leave them on the
/// server, or without a choice, are never marked as deleted and never removed; nothing but a fetch or
/// the end is ever asked for.
pub proof fn law_left_on_server(
    account_id: int,
    folder: Seq<char>,
    offset: Option<u32>,
    leave_on_server: Option<bool>,
    es: Seq<SyncEvent>,
    sets: Seq<Seq<char>>,
    by_uid: bool,
    fs: Seq<FetchEvent>,
)
    requires
        leave_on_server != Some(false),
    ensures
        ({
            let s = after_events(
                SyncingView::start(account_id, folder, offset, leave_on_server),
                es,
            );
            let f = fetch_after_all(
                FetchingView::start(sets, by_uid, s.plan.leave_on_server),
                fs,
            );
            &&& f.stage != FetchStage::Mark
            &&& f.stage != FetchStage::Expunge
            &&& forall|a: FetchAction| #[trigger] f.wants(a) ==> a is Fetch || a is Finish
        }),
{
    law_choice_is_kept(account_id, folder, offset, leave_on_server, es);
    lemma_left(sets, by_uid, fs);
}

/// Messages of a folder that is synchronized with the choice not to leave them on the server are
/// marked as deleted when the last set has been answered, all that were received and no others, and
/// are removed when they could be marked.
pub proof fn law_removed_from_server(
    account_id: int,
    folder: Seq<char>,
    offset: Option<u32>,
    es: Seq<SyncEvent>,
    set: Seq<char>,
    by_uid: bool,
    m: Seq<FetchedView>,
)
    requires
        messages(m, by_uid).len() > 0,
    ensures
        ({
            let s = after_events(
                SyncingView::start(account_id, folder, offset, Some(false)),
                es,
            );
            let f = FetchingView::start(seq![set], by_uid, s.plan.leave_on_server);
            let marking = fetch_after(f, FetchEvent::Messages(m));
            let removing = fetch_after(marking, FetchEvent::Marked(true));
            &&& marking.stage == FetchStage::Mark
            &&& numbers(marking.got) == numbers(messages(m, by_uid))
            &&& removing.stage == FetchStage::Expunge
            &&& removing.got == messages(m, by_uid)
            &&& fetch_after(removing, FetchEvent::Expunged).stage == FetchStage::Done
            &&& fetch_after(marking, FetchEvent::Marked(false)).stage == FetchStage::Done
        }),
{
    law_choice_is_kept(account_id, folder, offset, Some(false), es);
    assert(Seq::<(u32, Seq<u8>)>::empty() + messages(m, by_uid) =~= messages(m, by_uid));
}

/// Something that happens while all messages of a folder are fetched.
pub enum FullEvent {
    Check(bool),
    Fetched(Seq<u32>),
    Stored(Option<i64>),
    Marked(bool),
    Expunged,
    Reported(bool),
}

/// The work after something has happened; what does not fit its stage changes nothing.
pub open spec fn full_after(s: FullSyncView, e: FullEvent) -> FullSyncView {
    match (s.stage, e) {
        (FullStage::Check, FullEvent::Check(cancelled)) => s.after_check(cancelled),
        (FullStage::Fetch, FullEvent::Fetched(uids)) => s.after_fetch(uids),
        (FullStage::Store(i), FullEvent::Stored(new_id)) => s.after_store(i as int, new_id),
        (FullStage::Mark, FullEvent::Marked(ok)) => s.after_mark(ok),
        (FullStage::Expunge, FullEvent::Expunged) => s.counted(),
        (FullStage::Report, FullEvent::Reported(cancelled)) => s.after_report(cancelled),
        _ => s,
    }
}

/// The work after several things have happened.
pub open spec fn full_after_all(s: FullSyncView, es: Seq<FullEvent>) -> FullSyncView
    decreases es.len(),
{
    if es.len() == 0 {
        s
    } else {
        full_after(full_after_all(s, es.drop_last()), es.last())
    }
}

/// While all messages of a folder are fetched, the choice remains as it was; whatever happens, messages
/// that are to stay on the server are never marked as deleted and never removed.
pub proof fn law_full_sync_leaves(total: int, leave_on_server: bool, es: Seq<FullEvent>)
    ensures
        ({
            let s = full_after_all(FullSyncView::start(total, leave_on_server), es);
            &&& s.leave_on_server == leave_on_server
            &&& s.total == total
            &&& leave_on_server ==> s.stage != FullStage::Mark && s.stage != FullStage::Expunge
        }),
    decreases es.len(),
{
    if es.len() > 0 {
        law_full_sync_leaves(total, leave_on_server, es.drop_last());
    }
}

/// The messages of a batch that are not to stay on the server are marked as deleted when the last of
/// them has been stored, and the batch is counted when they have been removed or could not be marked.
pub proof fn law_full_sync_removes(s: FullSyncView, new_id: Option<i64>)
    requires
        !s.leave_on_server,
        s.stage matches FullStage::Store(i) && i + 1 == s.uids.len(),
    ensures
        ({
            let marking = full_after(s, FullEvent::Stored(new_id));
            let removing = full_after(marking, FullEvent::Marked(true));
            let new_count = marking.new_ids.len();
            &&& marking.stage == FullStage::Mark
            &&& marking.uids == s.uids
            &&& removing.stage == FullStage::Expunge
            &&& new_count == s.new_ids.len() + (if new_id is Some { 1int } else { 0int })
            &&& full_after(removing, FullEvent::Expunged).inserted == s.inserted + new_count
            &&& full_after(removing, FullEvent::Expunged).offset == s.offset + 100
            &&& full_after(marking, FullEvent::Marked(false)).inserted == s.inserted + new_count
            &&& full_after(marking, FullEvent::Marked(false)).offset == s.offset + 100
        }),
{
}

} // verus!
