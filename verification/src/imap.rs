//! What is asked of a mail server, and what is made of its answers.
use vstd::prelude::*;
use vstd::slice::{slice_subrange, slice_to_vec};

use crate::order::{
    arrange, arranged, ascending, is_arrangement, lemma_arranged, lemma_arrangement,
};
use crate::text::{decimal, join, join3, joined, u64_to_string, views};

verus! {

// ---------------------------------------------------------------------------------------------
// Sets of messages
// ---------------------------------------------------------------------------------------------

/// Numbers as texts.
pub open spec fn decimals(uids: Seq<u32>) -> Seq<Seq<char>> {
    Seq::new(uids.len(), |i: int| decimal(uids[i] as nat))
}

/// The set of the messages with these numbers.
pub open spec fn number_set(uids: Seq<u32>) -> Seq<char> {
    joined(decimals(uids), ","@)
}

/// `number_set`, computed.
pub fn uid_set(uids: &[u32]) -> (r: String)
    ensures
        r@ == number_set(uids@),
{
    let mut words: Vec<String> = Vec::new();
    let mut i: usize = 0;
    while i < uids.len()
        invariant
            i <= uids@.len(),
            words@.len() == i,
            forall|j: int| 0 <= j < i ==> (#[trigger] words@[j])@ == decimal(uids@[j] as nat),
        decreases uids@.len() - i,
    {
        words.push(u64_to_string(uids[i] as u64));
        i += 1;
    }
    assert(views(words@) =~= decimals(uids@));
    join(&words, ",")
}

/// The set of the messages from one number to another.
pub open spec fn span_set(first: nat, last: nat) -> Seq<char> {
    decimal(first) + ":"@ + decimal(last)
}

/// `span_set`, computed.
pub fn sequence_set(first: u32, last: u32) -> (r: String)
    ensures
        r@ == span_set(first as nat, last as nat),
{
    join3(u64_to_string(first as u64).as_str(), ":", u64_to_string(last as u64).as_str())
}

// ---------------------------------------------------------------------------------------------
// The newest messages, and those before them
// ---------------------------------------------------------------------------------------------

/// The messages to fetch from a folder of `count`, when the newest `offset` are passed over: the
/// newest `limit` of the others. `None` if there are no others.
pub open spec fn window(count: int, limit: int, offset: int) -> Option<(int, int)> {
    if count <= offset {
        None
    } else {
        let end = count - offset;
        Some((if end > limit { end - limit + 1 } else { 1 }, end))
    }
}

/// `window`, computed.
pub fn fetch_window(count: u32, limit: u32, offset: u32) -> (r: Option<(u32, u32)>)
    requires
        limit > 0 || count - offset < u32::MAX,
    ensures
        match r {
            Some((first, last)) => window(count as int, limit as int, offset as int) == Some(
                (first as int, last as int),
            ),
            None => window(count as int, limit as int, offset as int) is None,
        },
{
    if count <= offset {
        return None;
    }
    let end: u32 = count - offset;
    let first: u32 = if end > limit {
        end - limit + 1
    } else {
        1
    };
    Some((first, end))
}

/// A window lies in the folder and holds at most `limit` messages, and fewer only where it reaches
/// the oldest message.
pub proof fn law_window(count: int, limit: int, offset: int)
    requires
        0 < limit,
        0 <= offset,
    ensures
        window(count, limit, offset) matches Some((first, last)) ==> {
            &&& 1 <= first <= last <= count
            &&& last - first + 1 <= limit
            &&& last - first + 1 == limit || first == 1
        },
{
}

/// The next window begins where this one ends: paging by `limit` leaves out no message and fetches
/// none twice.
pub proof fn law_windows_meet(count: int, limit: int, offset: int)
    requires
        0 < limit,
        0 <= offset,
        window(count, limit, offset) is Some,
    ensures
        match window(count, limit, offset + limit) {
            Some((first, last)) => last + 1 == (window(count, limit, offset)->0).0,
            None => (window(count, limit, offset)->0).0 == 1,
        },
{
}

// ---------------------------------------------------------------------------------------------
// New messages
// ---------------------------------------------------------------------------------------------

/// The numbers after the last one that is known.
pub open spec fn newer(found: Seq<u32>, last_uid: u32) -> Seq<u32>
    decreases found.len(),
{
    if found.len() == 0 {
        Seq::empty()
    } else if found.last() > last_uid {
        newer(found.drop_last(), last_uid).push(found.last())
    } else {
        newer(found.drop_last(), last_uid)
    }
}

/// At most `n` from the beginning.
pub open spec fn at_most(s: Seq<u32>, n: int) -> Seq<u32> {
    if s.len() <= n {
        s
    } else {
        s.take(n)
    }
}

/// What is asked for of messages that are named by their places.
pub const ITEMS_BY_PLACE: &'static str = "(UID RFC822)";

/// What is asked for of messages that are named by their numbers.
pub const ITEMS_BY_NUMBER: &'static str = "RFC822";

/// The change of flags that marks messages as deleted.
pub const MARK_DELETED: &'static str = "+FLAGS (\\Deleted)";

/// The change of flags that marks messages as deleted without an answer for each of them.
pub const MARK_DELETED_SILENTLY: &'static str = "+FLAGS.SILENT (\\Deleted)";

/// How many new messages one synchronization fetches at most.
pub const MAX_BATCH: usize = 100;

/// How many messages one request asks for at most.
pub const FETCH_CHUNK: usize = 50;

/// The messages that one synchronization fetches: of those after the last known one, the oldest.
pub open spec fn batch(found: Seq<u32>, last_uid: u32) -> Seq<u32> {
    at_most(arranged(newer(found, last_uid)), MAX_BATCH as int)
}

/// What is asked of the server to find the messages after the last known one.
pub open spec fn criteria(last_uid: int) -> Seq<char> {
    "UID "@ + decimal((last_uid + 1) as nat) + ":*"@
}

/// `criteria`, computed.
pub fn search_criteria(last_uid: u32) -> (r: String)
    requires
        last_uid < u32::MAX,
    ensures
        r@ == criteria(last_uid as int),
{
    join3("UID ", u64_to_string(last_uid as u64 + 1).as_str(), ":*")
}

fn newer_than(found: &Vec<u32>, last_uid: u32) -> (r: Vec<u32>)
    ensures
        r@ == newer(found@, last_uid),
{
    let mut r: Vec<u32> = Vec::new();
    let mut i: usize = 0;
    while i < found.len()
        invariant
            i <= found@.len(),
            r@ == newer(found@.take(i as int), last_uid),
        decreases found@.len() - i,
    {
        assert(found@.take(i + 1).drop_last() =~= found@.take(i as int));
        if found[i] > last_uid {
            r.push(found[i]);
        }
        i += 1;
    }
    assert(found@.take(i as int) =~= found@);
    r
}

/// Chooses the messages to fetch among those that the server has found, in whatever order.
pub fn new_uids(found: &Vec<u32>, last_uid: u32) -> (r: Vec<u32>)
    ensures
        r@ == batch(found@, last_uid),
{
    let mut r = arrange(newer_than(found, last_uid));
    if r.len() > MAX_BATCH {
        r.truncate(MAX_BATCH);
        assert(r@ =~= arranged(newer(found@, last_uid)).take(MAX_BATCH as int));
    }
    r
}

pub proof fn lemma_newer(found: Seq<u32>, last_uid: u32)
    ensures
        forall|x: u32|
            #[trigger] newer(found, last_uid).contains(x) <==> found.contains(x) && x > last_uid,
    decreases found.len(),
{
    if found.len() > 0 {
        let t = found.drop_last();
        lemma_newer(t, last_uid);
        assert forall|x: u32|
            #[trigger] newer(found, last_uid).contains(x) <==> found.contains(x) && x > last_uid by {
            let n0 = newer(t, last_uid);
            let n1 = newer(found, last_uid);
            if n1.contains(x) {
                let i = choose|i: int| 0 <= i < n1.len() && n1[i] == x;
                if i < n0.len() {
                    assert(n0[i] == x);
                    assert(n0.contains(x));
                    let j = choose|j: int| 0 <= j < t.len() && t[j] == x;
                    assert(found[j] == x);
                } else {
                    assert(found[found.len() - 1] == x);
                }
            }
            if found.contains(x) && x > last_uid {
                let j = choose|j: int| 0 <= j < found.len() && found[j] == x;
                if j < t.len() {
                    assert(t[j] == x);
                    assert(n0.contains(x));
                    let i = choose|i: int| 0 <= i < n0.len() && n0[i] == x;
                    assert(n1[i] == x);
                } else {
                    assert(n1[n1.len() - 1] == x);
                }
            }
        }
    } else {
        assert forall|x: u32|
            #[trigger] newer(found, last_uid).contains(x) <==> found.contains(x) && x > last_uid by {}
    }
}

/// A batch holds only numbers that were found and lie after the last known one, in ascending order,
/// and not more than a batch may; and any number that was found and left out is at least as large as
/// all in it.
pub proof fn law_batch(found: Seq<u32>, last_uid: u32)
    ensures
        batch(found, last_uid).len() <= MAX_BATCH,
        ascending(batch(found, last_uid)),
        forall|i: int|
            0 <= i < batch(found, last_uid).len() ==> found.contains(
                #[trigger] batch(found, last_uid)[i],
            ) && batch(found, last_uid)[i] > last_uid,
        forall|x: u32, i: int|
            #[trigger] found.contains(x) && x > last_uid && !batch(found, last_uid).contains(x) && 0
                <= i < batch(found, last_uid).len() ==> #[trigger] batch(found, last_uid)[i] <= x,
        batch(found, last_uid).len() < MAX_BATCH ==> forall|x: u32|
            found.contains(x) && x > last_uid ==> batch(found, last_uid).contains(x),
{
    let n = newer(found, last_uid);
    let all = arranged(n);
    let b = batch(found, last_uid);
    lemma_newer(found, last_uid);
    lemma_arrangement(n);
    assert forall|i: int| 0 <= i < b.len() implies found.contains(#[trigger] b[i]) && b[i]
        > last_uid by {
        assert(b[i] == all[i]);
        assert(all.contains(b[i]));
        assert(n.contains(b[i]));
    }
    assert forall|x: u32, i: int|
        #[trigger] found.contains(x) && x > last_uid && !b.contains(x) && 0 <= i < b.len() implies #[trigger] b[i]
        <= x by {
        assert(n.contains(x));
        assert(all.contains(x));
        let j = choose|j: int| 0 <= j < all.len() && all[j] == x;
        if j < b.len() {
            assert(b[j] == x);
        }
    }
    assert forall|x: u32|
        b.len() < MAX_BATCH && found.contains(x) && x > last_uid implies b.contains(x) by {
        assert(n.contains(x));
        assert(all.contains(x));
    }
}

proof fn lemma_newer_distinct(found: Seq<u32>, last_uid: u32)
    requires
        found.no_duplicates(),
    ensures
        newer(found, last_uid).no_duplicates(),
    decreases found.len(),
{
    if found.len() > 0 {
        let t = found.drop_last();
        lemma_newer_distinct(t, last_uid);
        lemma_newer(t, last_uid);
        let n0 = newer(t, last_uid);
        let x = found.last();
        assert(!t.contains(x)) by {
            if t.contains(x) {
                let j = choose|j: int| 0 <= j < t.len() && t[j] == x;
                assert(found[j] == found[found.len() - 1]);
            }
        }
        assert(!n0.contains(x));
        assert forall|i: int, j: int|
            0 <= i < newer(found, last_uid).len() && 0 <= j < newer(found, last_uid).len() && i
                != j implies newer(found, last_uid)[i] != newer(found, last_uid)[j] by {
            if i < n0.len() && j < n0.len() {
                assert(n0[i] != n0[j]);
            } else if i < n0.len() {
                assert(n0.contains(n0[i]));
            } else if j < n0.len() {
                assert(n0.contains(n0[j]));
            }
        }
    }
}

proof fn lemma_same_members(a: Seq<u32>, b: Seq<u32>)
    requires
        a.no_duplicates(),
        b.no_duplicates(),
        forall|x: u32| a.contains(x) <==> b.contains(x),
    ensures
        a.to_multiset() == b.to_multiset(),
{
    broadcast use vstd::seq_lib::group_to_multiset_ensures;

    a.lemma_multiset_has_no_duplicates();
    b.lemma_multiset_has_no_duplicates();
    assert forall|x: u32| a.to_multiset().count(x) == b.to_multiset().count(x) by {
        assert(a.contains(x) <==> a.to_multiset().count(x) > 0);
        assert(b.contains(x) <==> b.to_multiset().count(x) > 0);
        if a.contains(x) {
            assert(a.to_multiset().contains(x));
            assert(b.to_multiset().contains(x));
        }
    }
    assert(a.to_multiset() =~= b.to_multiset());
}

proof fn lemma_arranged_distinct(s: Seq<u32>)
    requires
        s.no_duplicates(),
    ensures
        arranged(s).no_duplicates(),
{
    broadcast use vstd::seq_lib::group_to_multiset_ensures;

    lemma_arrangement(s);
    s.lemma_multiset_has_no_duplicates();
    arranged(s).lemma_multiset_has_no_duplicates_conv();
}

/// When a batch has been fetched, the next one goes on exactly where it ends: what is left to fetch
/// after its last number is what was left to fetch before, without the batch.
pub proof fn law_next_batch(found: Seq<u32>, last_uid: u32)
    requires
        found.no_duplicates(),
        batch(found, last_uid).len() > 0,
    ensures
        arranged(newer(found, batch(found, last_uid).last())) == arranged(
            newer(found, last_uid),
        ).skip(batch(found, last_uid).len() as int),
{
    let n = newer(found, last_uid);
    let all = arranged(n);
    let b = batch(found, last_uid);
    let k = b.len() as int;
    let m = b.last();
    let rest = newer(found, m);
    let tail = all.skip(k);
    lemma_newer(found, last_uid);
    lemma_newer(found, m);
    lemma_newer_distinct(found, last_uid);
    lemma_newer_distinct(found, m);
    lemma_arrangement(n);
    lemma_arranged_distinct(n);
    assert(m == all[k - 1]);
    assert(all.contains(m));
    assert(n.contains(m));
    assert forall|x: u32| tail.contains(x) <==> rest.contains(x) by {
        if tail.contains(x) {
            let i = choose|i: int| 0 <= i < tail.len() && tail[i] == x;
            assert(all[k + i] == x);
            assert(all.contains(x));
            assert(n.contains(x));
            assert(all[k - 1] != all[k + i]);
        }
        if rest.contains(x) {
            assert(n.contains(x));
            assert(all.contains(x));
            let j = choose|j: int| 0 <= j < all.len() && all[j] == x;
            assert(j >= k);
            assert(tail[j - k] == x);
        }
    }
    assert(tail.no_duplicates()) by {
        assert forall|i: int, j: int|
            0 <= i < tail.len() && 0 <= j < tail.len() && i != j implies tail[i] != tail[j] by {
            assert(all[k + i] != all[k + j]);
        }
    }
    lemma_same_members(tail, rest);
    assert(ascending(tail)) by {
        assert forall|i: int, j: int| 0 <= i <= j < tail.len() implies tail[i] <= tail[j] by {
            assert(all[k + i] <= all[k + j]);
        }
    }
    assert(is_arrangement(rest, tail));
    lemma_arranged(rest, tail);
}

// ---------------------------------------------------------------------------------------------
// Requests of a bounded size
// ---------------------------------------------------------------------------------------------

/// A list cut into pieces of `n`, the last of which may be shorter.
pub open spec fn cut(s: Seq<u32>, n: int) -> Seq<Seq<u32>>
    decreases s.len(),
{
    if s.len() == 0 || n <= 0 {
        Seq::empty()
    } else if s.len() <= n {
        seq![s]
    } else {
        seq![s.take(n)] + cut(s.skip(n), n)
    }
}

/// The pieces of a list, put together again, are the list, and none is empty or longer than `n`.
pub proof fn law_cut(s: Seq<u32>, n: int)
    requires
        n > 0,
    ensures
        cut(s, n).flatten() == s,
        forall|i: int| 0 <= i < cut(s, n).len() ==> 0 < (#[trigger] cut(s, n)[i]).len() <= n,
    decreases s.len(),
{
    if s.len() == 0 {
        assert(cut(s, n).flatten() =~= s);
    } else if s.len() <= n {
        seq![s].lemma_flatten_one_element();
    } else {
        let c = cut(s, n);
        let r = cut(s.skip(n), n);
        law_cut(s.skip(n), n);
        assert(c.drop_first() =~= r);
        assert(c.flatten() =~= s.take(n) + r.flatten());
        assert(s.take(n) + s.skip(n) =~= s);
        assert forall|i: int| 0 <= i < c.len() implies 0 < (#[trigger] c[i]).len() <= n by {
            if i > 0 {
                assert(c[i] == r[i - 1]);
            }
        }
    }
}

/// The sets of messages that are asked for one after the other.
pub open spec fn requests(uids: Seq<u32>) -> Seq<Seq<char>> {
    let c = cut(uids, FETCH_CHUNK as int);
    Seq::new(c.len(), |i: int| number_set(c[i]))
}

/// `requests`, computed.
pub fn chunked_requests(uids: &Vec<u32>) -> (r: Vec<String>)
    ensures
        views(r@) == requests(uids@),
{
    let mut r: Vec<String> = Vec::new();
    let n: usize = uids.len();
    let mut i: usize = 0;
    let ghost all = cut(uids@, FETCH_CHUNK as int);
    assert(uids@.skip(0) =~= uids@);
    while i < n
        invariant
            i <= n,
            n == uids@.len(),
            all == cut(uids@, FETCH_CHUNK as int),
            r@.len() <= all.len(),
            all.skip(r@.len() as int) == cut(uids@.skip(i as int), FETCH_CHUNK as int),
            forall|j: int| 0 <= j < r@.len() ==> (#[trigger] r@[j])@ == number_set(all[j]),
        decreases n - i,
    {
        let end: usize = if n - i <= FETCH_CHUNK {
            n
        } else {
            i + FETCH_CHUNK
        };
        let chunk = slice_subrange(uids.as_slice(), i, end);
        let ghost rest = uids@.skip(i as int);
        let ghost left = all.skip(r@.len() as int);
        proof {
            if n - i <= FETCH_CHUNK {
                assert(chunk@ =~= rest);
                assert(uids@.skip(end as int) =~= Seq::<u32>::empty());
                assert(left.drop_first() =~= Seq::<Seq<u32>>::empty());
            } else {
                assert(chunk@ =~= rest.take(FETCH_CHUNK as int));
                assert(uids@.skip(end as int) =~= rest.skip(FETCH_CHUNK as int));
                assert(left.drop_first() =~= cut(
                    rest.skip(FETCH_CHUNK as int),
                    FETCH_CHUNK as int,
                ));
            }
            assert(left[0] == chunk@);
            assert(all[r@.len() as int] == left[0]);
            assert(all.skip(r@.len() as int + 1) =~= left.drop_first());
        }
        r.push(uid_set(chunk));
        i = end;
    }
    assert(uids@.skip(i as int) =~= Seq::<u32>::empty());
    assert(all.skip(r@.len() as int).len() == 0);
    assert(views(r@) =~= requests(uids@));
    r
}

// ---------------------------------------------------------------------------------------------
// Messages as the server hands them over
// ---------------------------------------------------------------------------------------------

/// An answer of the server about one message.
pub struct Fetched {
    pub seq: u32,
    pub uid: Option<u32>,
    pub body: Option<Vec<u8>>,
}

/// What the server says about one message.
#[verifier::ext_equal]
pub struct FetchedView {
    pub seq: u32,
    pub uid: Option<u32>,
    pub body: Option<Seq<u8>>,
}

impl View for Fetched {
    type V = FetchedView;

    open spec fn view(&self) -> FetchedView {
        FetchedView {
            seq: self.seq,
            uid: self.uid,
            body: match self.body {
                Some(b) => Some(b@),
                None => None,
            },
        }
    }
}

/// What the server says about some messages.
pub open spec fn fetched_views(v: Seq<Fetched>) -> Seq<FetchedView> {
    Seq::new(v.len(), |i: int| v[i]@)
}

/// A message with its number, not read yet.
pub struct Message {
    pub uid: u32,
    pub raw: Vec<u8>,
}

impl View for Message {
    type V = (u32, Seq<u8>);

    open spec fn view(&self) -> (u32, Seq<u8>) {
        (self.uid, self.raw@)
    }
}

/// Messages with their numbers.
pub open spec fn message_views(v: Seq<Message>) -> Seq<(u32, Seq<u8>)> {
    Seq::new(v.len(), |i: int| v[i]@)
}

/// The number under which an answer counts: that of the message, or else its place in the folder,
/// unless the numbers themselves were asked for.
pub open spec fn number_of(f: FetchedView, by_uid: bool) -> Option<u32> {
    if f.uid is Some || by_uid {
        f.uid
    } else {
        Some(f.seq)
    }
}

/// The messages in an answer: those with a body and a number.
pub open spec fn messages(f: Seq<FetchedView>, by_uid: bool) -> Seq<(u32, Seq<u8>)>
    decreases f.len(),
{
    if f.len() == 0 {
        Seq::empty()
    } else {
        let front = messages(f.drop_last(), by_uid);
        match (number_of(f.last(), by_uid), f.last().body) {
            (Some(n), Some(b)) => front.push((n, b)),
            _ => front,
        }
    }
}

/// Takes the messages from an answer and puts them behind those that are there.
pub fn take_messages(got: &mut Vec<Message>, f: Vec<Fetched>, by_uid: bool)
    ensures
        message_views(final(got)@) == message_views(old(got)@) + messages(
            fetched_views(f@),
            by_uid,
        ),
{
    let ghost start = message_views(got@);
    let ghost fs = fetched_views(f@);
    let mut i: usize = 0;
    assert(message_views(got@) =~= start + messages(fs.take(0), by_uid));
    while i < f.len()
        invariant
            i <= f@.len(),
            fs == fetched_views(f@),
            message_views(got@) == start + messages(fs.take(i as int), by_uid),
        decreases f@.len() - i,
    {
        let one = &f[i];
        assert(fs.take(i + 1).drop_last() =~= fs.take(i as int));
        assert(fs.take(i + 1).last() == one@);
        let number: Option<u32> = if one.uid.is_some() || by_uid {
            one.uid
        } else {
            Some(one.seq)
        };
        if let (Some(uid), Some(body)) = (number, &one.body) {
            let m = Message { uid, raw: slice_to_vec(body.as_slice()) };
            let ghost before = message_views(got@);
            got.push(m);
            assert(message_views(got@) =~= before.push(m@));
            assert(m@ == (uid, body@));
            assert(before.push(m@) =~= start + messages(fs.take(i as int), by_uid).push(m@));
        }
        i += 1;
    }
    assert(fs.take(i as int) =~= fs);
}

// ---------------------------------------------------------------------------------------------
// Fetching
// ---------------------------------------------------------------------------------------------

/// How far a fetch has come.
#[derive(Clone, Copy, PartialEq, Eq, Structural)]
pub enum FetchStage {
    /// Messages are asked for.
    Fetch,
    /// The messages that were fetched are to be marked as deleted.
    Mark,
    /// What is marked is to be removed.
    Expunge,
    /// Nothing is left to do.
    Done,
}

/// Fetching messages from the selected folder.
pub struct Fetching {
    /// The sets that are asked for, one after the other.
    pub sets: Vec<String>,
    /// How many of them have been answered.
    pub answered: usize,
    /// Whether the sets hold the numbers of messages or their places in the folder.
    pub by_uid: bool,
    /// Whether the messages stay on the server.
    pub leave: bool,
    /// The messages fetched so far.
    pub got: Vec<Message>,
    pub stage: FetchStage,
}

/// What is known of a fetch.
#[verifier::ext_equal]
pub struct FetchingView {
    pub sets: Seq<Seq<char>>,
    pub answered: nat,
    pub by_uid: bool,
    pub leave: bool,
    pub got: Seq<(u32, Seq<u8>)>,
    pub stage: FetchStage,
}

impl View for Fetching {
    type V = FetchingView;

    open spec fn view(&self) -> FetchingView {
        FetchingView {
            sets: views(self.sets@),
            answered: self.answered as nat,
            by_uid: self.by_uid,
            leave: self.leave,
            got: message_views(self.got@),
            stage: self.stage,
        }
    }
}

/// What to ask of the server next.
pub enum FetchAction {
    /// Fetch these messages: by number with their text, or by place with number and text.
    Fetch { set: String, by_uid: bool },
    /// Mark these messages as deleted.
    Mark { set: String },
    /// Remove what is marked.
    Expunge,
    /// Nothing.
    Finish,
}

/// The numbers of messages.
pub open spec fn numbers(m: Seq<(u32, Seq<u8>)>) -> Seq<u32> {
    Seq::new(m.len(), |i: int| m[i].0)
}

impl FetchingView {
    /// A fetch at its beginning.
    pub open spec fn start(sets: Seq<Seq<char>>, by_uid: bool, leave: bool) -> FetchingView {
        FetchingView {
            sets,
            answered: 0,
            by_uid,
            leave,
            got: Seq::empty(),
            stage: if sets.len() > 0 {
                FetchStage::Fetch
            } else {
                FetchStage::Done
            },
        }
    }

    /// The fetch can be under way like this: a set is asked for only while one is left, and messages
    /// are removed only if they are not to stay and there are any.
    pub open spec fn valid(self) -> bool {
        &&& self.answered <= self.sets.len()
        &&& self.stage == FetchStage::Fetch <==> self.answered < self.sets.len()
        &&& self.stage == FetchStage::Mark || self.stage == FetchStage::Expunge ==> !self.leave
            && self.got.len() > 0
    }

    /// After an answer about the set that was asked for.
    pub open spec fn after_messages(self, f: Seq<FetchedView>) -> FetchingView {
        let got = self.got + messages(f, self.by_uid);
        let answered = self.answered + 1;
        FetchingView {
            answered,
            got,
            stage: if answered < self.sets.len() {
                FetchStage::Fetch
            } else if !self.leave && got.len() > 0 {
                FetchStage::Mark
            } else {
                FetchStage::Done
            },
            ..self
        }
    }

    /// After the answer to marking: what could be marked is removed.
    pub open spec fn after_mark(self, ok: bool) -> FetchingView {
        FetchingView {
            stage: if ok {
                FetchStage::Expunge
            } else {
                FetchStage::Done
            },
            ..self
        }
    }

    /// After the answer to removing, whatever it is.
    pub open spec fn after_expunge(self) -> FetchingView {
        FetchingView { stage: FetchStage::Done, ..self }
    }

    /// What is to be done next.
    pub open spec fn wants(self, a: FetchAction) -> bool {
        match self.stage {
            FetchStage::Fetch => a matches FetchAction::Fetch { set, by_uid } && set@
                == self.sets[self.answered as int] && by_uid == self.by_uid,
            FetchStage::Mark => a matches FetchAction::Mark { set } && set@ == number_set(
                numbers(self.got),
            ),
            FetchStage::Expunge => a is Expunge,
            FetchStage::Done => a is Finish,
        }
    }
}

impl Fetching {
    fn start(sets: Vec<String>, by_uid: bool, leave: bool) -> (r: Fetching)
        ensures
            r@ == FetchingView::start(views(sets@), by_uid, leave),
            r@.valid(),
            r.got@.len() == 0,
    {
        let stage = if sets.len() > 0 {
            FetchStage::Fetch
        } else {
            FetchStage::Done
        };
        let r = Fetching { sets, answered: 0, by_uid, leave, got: Vec::new(), stage };
        assert(r@.got =~= Seq::<(u32, Seq<u8>)>::empty());
        r
    }

    /// What to ask of the server next.
    pub fn action(&self) -> (r: FetchAction)
        requires
            self@.valid(),
        ensures
            self@.wants(r),
            self.leave ==> !(r is Mark) && !(r is Expunge),
            r matches FetchAction::Fetch { set, by_uid } ==> self.answered < self.sets@.len() && set@
                == self.sets@[self.answered as int]@ && by_uid == self.by_uid,
    {
        match self.stage {
            FetchStage::Fetch => FetchAction::Fetch {
                set: self.sets[self.answered].clone(),
                by_uid: self.by_uid,
            },
            FetchStage::Mark => {
                let mut uids: Vec<u32> = Vec::new();
                let mut i: usize = 0;
                while i < self.got.len()
                    invariant
                        i <= self.got@.len(),
                        uids@.len() == i,
                        forall|j: int| 0 <= j < i ==> #[trigger] uids@[j] == self.got@[j].uid,
                    decreases self.got@.len() - i,
                {
                    uids.push(self.got[i].uid);
                    i += 1;
                }
                assert(uids@ =~= numbers(self@.got));
                FetchAction::Mark { set: uid_set(&uids) }
            },
            FetchStage::Expunge => FetchAction::Expunge,
            FetchStage::Done => FetchAction::Finish,
        }
    }

    /// Takes the messages in an answer.
    pub fn on_messages(self, f: Vec<Fetched>) -> (r: Fetching)
        requires
            self@.valid(),
            self.stage == FetchStage::Fetch,
        ensures
            r@ == self@.after_messages(fetched_views(f@)),
            r@.valid(),
            r.leave == self.leave,
            r.sets@ == self.sets@,
            r.by_uid == self.by_uid,
            r.answered == self.answered + 1,
            self.leave ==> r.stage != FetchStage::Mark,
            r.answered < r.sets@.len() <==> r.stage == FetchStage::Fetch,
            !self.leave && r.got@.len() > 0 && r.answered == r.sets@.len() ==> r.stage
                == FetchStage::Mark,
    {
        let Fetching { sets, answered, by_uid, leave, mut got, stage: _ } = self;
        take_messages(&mut got, f, by_uid);
        let total: usize = sets.len();
        let answered: usize = answered + 1;
        let stage = if answered < total {
            FetchStage::Fetch
        } else if !leave && got.len() > 0 {
            FetchStage::Mark
        } else {
            FetchStage::Done
        };
        let r = Fetching { sets, answered, by_uid, leave, got, stage };
        assert(r@ =~= self@.after_messages(fetched_views(f@)));
        r
    }

    /// Goes on after marking, which may have failed.
    pub fn on_marked(self, ok: bool) -> (r: Fetching)
        requires
            self@.valid(),
            self.stage == FetchStage::Mark,
        ensures
            r@ == self@.after_mark(ok),
            r@.valid(),
            r.got@ == self.got@,
            ok ==> r.stage == FetchStage::Expunge,
            !ok ==> r.stage == FetchStage::Done,
    {
        Fetching {
            stage: if ok {
                FetchStage::Expunge
            } else {
                FetchStage::Done
            },
            ..self
        }
    }

    /// Goes on after removing.
    pub fn on_expunged(self) -> (r: Fetching)
        requires
            self@.valid(),
            self.stage == FetchStage::Expunge,
        ensures
            r@ == self@.after_expunge(),
            r@.valid(),
            r.got@ == self.got@,
            r.stage == FetchStage::Done,
    {
        Fetching { stage: FetchStage::Done, ..self }
    }
}

/// The set that the first fetch from a folder asks for.
pub open spec fn window_sets(count: int, limit: int, offset: int) -> Seq<Seq<char>> {
    match window(count, limit, offset) {
        Some((first, last)) => seq![span_set(first as nat, last as nat)],
        None => Seq::empty(),
    }
}

/// The number that the server will give next, 0 if it does not say.
pub open spec fn known_next(uid_next: Option<u32>) -> u32 {
    match uid_next {
        Some(n) => n,
        None => 0,
    }
}

/// Begins to fetch the newest messages of a folder that has just been selected, or older ones; gives
/// the number that the server will give next too.
pub fn fetch_from_imap(
    exists: u32,
    uid_next: Option<u32>,
    limit: u32,
    offset: u32,
    leave_on_server: bool,
) -> (r: (Fetching, u32))
    requires
        limit > 0 || exists - offset < u32::MAX,
    ensures
        r.0@ == FetchingView::start(
            window_sets(exists as int, limit as int, offset as int),
            false,
            leave_on_server,
        ),
        r.0@.valid(),
        r.1 == known_next(uid_next),
        r.0.leave == leave_on_server,
        !r.0.by_uid,
        r.0.got@.len() == 0,
        r.0.stage == FetchStage::Fetch <==> offset < exists,
        uid_next matches Some(n) ==> r.1 == n,
        uid_next is None ==> r.1 == 0,
{
    let next: u32 = match uid_next {
        Some(n) => n,
        None => 0,
    };
    let mut sets: Vec<String> = Vec::new();
    match fetch_window(exists, limit, offset) {
        Some((first, last)) => {
            sets.push(sequence_set(first, last));
        },
        None => {},
    }
    assert(views(sets@) =~= window_sets(exists as int, limit as int, offset as int));
    (Fetching::start(sets, false, leave_on_server), next)
}

/// What to search for in a folder that has just been selected; `None` if the folder is empty.
pub fn search_new(exists: u32, last_uid: u32) -> (r: Option<String>)
    requires
        exists > 0 ==> last_uid < u32::MAX,
    ensures
        match r {
            Some(c) => exists > 0 && c@ == criteria(last_uid as int),
            None => exists == 0,
        },
{
    if exists == 0 {
        None
    } else {
        Some(search_criteria(last_uid))
    }
}

/// Begins to fetch the new messages among those that the server has found.
pub fn fetch_new_from_imap(found: &Vec<u32>, last_uid: u32, leave_on_server: bool) -> (r: Fetching)
    ensures
        r@ == FetchingView::start(requests(batch(found@, last_uid)), true, leave_on_server),
        r@.valid(),
        r.leave == leave_on_server,
        r.by_uid,
        r.got@.len() == 0,
{
    let uids = new_uids(found, last_uid);
    Fetching::start(chunked_requests(&uids), true, leave_on_server)
}

/// The messages that come of answers to the sets, one answer after the other.
pub open spec fn all_messages(answers: Seq<Seq<FetchedView>>, by_uid: bool) -> Seq<(u32, Seq<u8>)>
    decreases answers.len(),
{
    if answers.len() == 0 {
        Seq::empty()
    } else {
        all_messages(answers.drop_last(), by_uid) + messages(answers.last(), by_uid)
    }
}

/// A fetch after the answers to the sets.
pub open spec fn after_answers(f: FetchingView, answers: Seq<Seq<FetchedView>>) -> FetchingView
    decreases answers.len(),
{
    if answers.len() == 0 {
        f
    } else {
        after_answers(f, answers.drop_last()).after_messages(answers.last())
    }
}

/// When each set has been answered, the messages of all answers have been taken in their order, and
/// they are marked as deleted exactly if they are not to stay on the server and there are any.
pub proof fn law_fetch(
    sets: Seq<Seq<char>>,
    by_uid: bool,
    leave: bool,
    answers: Seq<Seq<FetchedView>>,
)
    requires
        answers.len() <= sets.len(),
    ensures
        after_answers(FetchingView::start(sets, by_uid, leave), answers).got == all_messages(
            answers,
            by_uid,
        ),
        answers.len() == sets.len() ==> {
            let end = after_answers(FetchingView::start(sets, by_uid, leave), answers);
            if !leave && all_messages(answers, by_uid).len() > 0 {
                end.stage == FetchStage::Mark
            } else {
                end.stage == FetchStage::Done
            }
        },
    decreases answers.len(),
{
    lemma_fetch(sets, by_uid, leave, answers);
}

proof fn lemma_fetch(
    sets: Seq<Seq<char>>,
    by_uid: bool,
    leave: bool,
    answers: Seq<Seq<FetchedView>>,
)
    requires
        answers.len() <= sets.len(),
    ensures
        ({
            let f = after_answers(FetchingView::start(sets, by_uid, leave), answers);
            &&& f.sets == sets
            &&& f.by_uid == by_uid
            &&& f.leave == leave
            &&& f.answered == answers.len()
            &&& f.got == all_messages(answers, by_uid)
            &&& f.valid()
            &&& f.stage != FetchStage::Expunge
            &&& answers.len() == sets.len() ==> (f.stage == FetchStage::Mark <==> (!leave
                && f.got.len() > 0))
        }),
    decreases answers.len(),
{
    if answers.len() > 0 {
        lemma_fetch(sets, by_uid, leave, answers.drop_last());
    } else {
        assert(all_messages(answers, by_uid) =~= Seq::<(u32, Seq<u8>)>::empty());
    }
}

} // verus!
