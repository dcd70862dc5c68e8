//! Backups of the database, and the log.
use vstd::prelude::*;

use crate::statements::maybe;
use crate::text::{join, join3, joined, views};

verus! {

// ---------------------------------------------------------------------------------------------
// Files
// ---------------------------------------------------------------------------------------------

/// The name of the file with the settings of backups.
pub fn backup_settings_path() -> (r: String)
    ensures
        r@ == "backup_settings.json"@,
{
    "backup_settings.json".to_owned()
}

/// The name of the file with the database.
pub fn get_db_path() -> (r: String)
    ensures
        r@ == "mail.db"@,
{
    "mail.db".to_owned()
}

/// The name of the file that holds a backup made at this time.
pub fn backup_name(timestamp: &str) -> (r: String)
    ensures
        r@ == "mail_"@ + timestamp@ + ".db"@,
{
    join3("mail_", timestamp, ".db")
}

// ---------------------------------------------------------------------------------------------
// Settings
// ---------------------------------------------------------------------------------------------

/// Whether and how often backups are made.
pub struct BackupSettings {
    pub enabled: bool,
    pub interval_days: u32,
    /// When the last one was made.
    pub last_backup: Option<String>,
}

/// What the settings say.
#[verifier::ext_equal]
pub struct SettingsView {
    pub enabled: bool,
    pub interval_days: int,
    pub last_backup: Option<Seq<char>>,
}

impl View for BackupSettings {
    type V = SettingsView;

    open spec fn view(&self) -> SettingsView {
        SettingsView {
            enabled: self.enabled,
            interval_days: self.interval_days as int,
            last_backup: maybe(self.last_backup),
        }
    }
}

impl Default for BackupSettings {
    fn default() -> (r: Self)
        ensures
            r@ == (SettingsView { enabled: false, interval_days: 7, last_backup: None }),
    {
        BackupSettings { enabled: false, interval_days: 7, last_backup: None }
    }
}

/// The settings that were read, or else the usual ones.
pub fn read_backup_settings(stored: Option<BackupSettings>) -> (r: BackupSettings)
    ensures
        r@ == (match stored {
            Some(s) => s@,
            None => SettingsView { enabled: false, interval_days: 7, last_backup: None },
        }),
{
    match stored {
        Some(s) => s,
        None => BackupSettings::default(),
    }
}

/// Changes the settings. When the last backup was made stays known.
pub fn set_backup_settings(s: BackupSettings, enabled: bool, interval_days: u32) -> (r: BackupSettings)
    ensures
        r@ == (SettingsView { enabled, interval_days: interval_days as int, ..s@ }),
{
    BackupSettings { enabled, interval_days, ..s }
}

/// Notes when the last backup was made.
pub fn backup_made(s: BackupSettings, now: String) -> (r: BackupSettings)
    ensures
        r@ == (SettingsView { last_backup: Some(now@), ..s@ }),
{
    BackupSettings { last_backup: Some(now), ..s }
}

// ---------------------------------------------------------------------------------------------
// When a backup is due
// ---------------------------------------------------------------------------------------------

/// The moment that `chrono` reads from a text: the seconds since 1970, leap seconds not counted, and
/// the nanoseconds since the last of them, a second or more of them during a leap second; `None` if
/// the text is no time.
pub uninterp spec fn moment(s: Seq<char>) -> Option<(i64, u32)>;

/// `chrono::DateTime::parse_from_rfc3339`, and `timestamp` and `timestamp_subsec_nanos` of its
/// result. The moment depends on the text alone; the contract gives it a name.
#[verifier::external_body]
fn read_moment(s: &str) -> (r: Option<(i64, u32)>)
    ensures
        r == moment(s@),
{
    let t = chrono::DateTime::parse_from_rfc3339(s).ok()?;
    Some((t.timestamp(), t.timestamp_subsec_nanos()))
}

/// The nanoseconds in a second.
pub const NANOS: i128 = 1000000000;

/// The seconds in a day.
pub const DAY_SECONDS: i128 = 86400;

/// The leap second that lies between two moments and is not among their seconds: that of the earlier
/// time of day, if it is one.
pub open spec fn leap_between(last: (i64, u32), now: (i64, u32)) -> int {
    let (before, after) = (last.0 as int % DAY_SECONDS as int, now.0 as int % DAY_SECONDS as int);
    if after > before && last.1 >= NANOS {
        1
    } else if after < before && now.1 >= NANOS {
        -1
    } else {
        0
    }
}

/// The nanoseconds from one moment to another.
pub open spec fn nanos_between(last: (i64, u32), now: (i64, u32)) -> int {
    (now.0 - last.0 + leap_between(last, now)) * NANOS + (now.1 - last.1)
}

/// The whole days from one moment to another; those back to an earlier one are negative.
pub open spec fn days_between(last: (i64, u32), now: (i64, u32)) -> int {
    let n = nanos_between(last, now);
    if n >= 0 {
        n / (DAY_SECONDS * NANOS)
    } else {
        -((-n) / (DAY_SECONDS * NANOS))
    }
}

fn time_of_day(seconds: i64) -> (r: i128)
    ensures
        r == seconds as int % DAY_SECONDS as int,
{
    // Enough whole days to make every number of seconds positive.
    let days: i128 = 110000000000000;
    let shifted: i128 = seconds as i128 + days * DAY_SECONDS;
    shifted % DAY_SECONDS
}

/// `days_between`, computed.
pub fn whole_days(last: (i64, u32), now: (i64, u32)) -> (r: i64)
    ensures
        r == days_between(last, now),
{
    let before = time_of_day(last.0);
    let after = time_of_day(now.0);
    let leap: i128 = if after > before && last.1 as i128 >= NANOS {
        1
    } else if after < before && now.1 as i128 >= NANOS {
        -1
    } else {
        0
    };
    let seconds: i128 = now.0 as i128 - last.0 as i128 + leap;
    let n: i128 = seconds * NANOS + (now.1 as i128 - last.1 as i128);
    let day: i128 = DAY_SECONDS * NANOS;
    if n >= 0 {
        (n / day) as i64
    } else {
        let back: i128 = -n;
        -((back / day) as i64)
    }
}

/// A backup is due if backups are made at all and none was made yet, or nobody knows when, or the
/// last one is old enough.
pub open spec fn due(s: SettingsView, days: Option<i64>) -> bool {
    s.enabled && (match (s.last_backup, days) {
        (Some(_), Some(d)) => d >= s.interval_days,
        _ => true,
    })
}

/// Whether a backup is due, given the days since the last one.
pub fn is_due(s: &BackupSettings, days: Option<i64>) -> (r: bool)
    ensures
        r == due(s@, days),
{
    if !s.enabled {
        return false;
    }
    match (&s.last_backup, days) {
        (Some(_), Some(d)) => d >= s.interval_days as i64,
        _ => true,
    }
}

/// Whether a backup is due at this time.
pub fn should_backup(s: &BackupSettings, now: &str) -> (r: bool)
    ensures
        r == due(
            s@,
            match s@.last_backup {
                Some(last) => match (moment(last), moment(now@)) {
                    (Some(t), Some(u)) => Some(days_between(t, u) as i64),
                    _ => None,
                },
                None => None,
            },
        ),
{
    match &s.last_backup {
        Some(last) => {
            let days = match (read_moment(last.as_str()), read_moment(now)) {
                (Some(t), Some(u)) => Some(whole_days(t, u)),
                _ => None,
            };
            is_due(s, days)
        },
        None => is_due(s, None),
    }
}

// ---------------------------------------------------------------------------------------------
// Which backups are kept
// ---------------------------------------------------------------------------------------------

/// One time is not after another; a time that is not known is before all others.
pub open spec fn not_later(a: Option<i128>, b: Option<i128>) -> bool {
    match (a, b) {
        (None, _) => true,
        (Some(_), None) => false,
        (Some(x), Some(y)) => x <= y,
    }
}

/// Puts the file `k` into files that are sorted by their times, after those that are not later.
pub open spec fn placed(times: Seq<Option<i128>>, sorted: Seq<int>, k: int) -> Seq<int>
    decreases sorted.len(),
{
    if sorted.len() == 0 || not_later(times[sorted.last()], times[k]) {
        sorted.push(k)
    } else {
        placed(times, sorted.drop_last(), k).push(sorted.last())
    }
}

/// The first `n` files, from the oldest to the newest; of two with the same time the first comes
/// first.
pub open spec fn oldest_first(times: Seq<Option<i128>>, n: int) -> Seq<int>
    decreases n,
{
    if n <= 0 {
        Seq::empty()
    } else {
        placed(times, oldest_first(times, n - 1), n - 1)
    }
}

/// The files that are removed so that `keep` are left: the oldest.
pub open spec fn removed(times: Seq<Option<i128>>, keep: int) -> Seq<int> {
    let n = times.len() as int;
    if n > keep {
        oldest_first(times, n).take(n - keep)
    } else {
        Seq::empty()
    }
}

fn later(a: &Option<i128>, b: &Option<i128>) -> (r: bool)
    ensures
        r == !not_later(*a, *b),
{
    match (a, b) {
        (None, _) => false,
        (Some(_), None) => true,
        (Some(x), Some(y)) => *x > *y,
    }
}

/// Places as mathematical numbers.
pub open spec fn places(v: Seq<usize>) -> Seq<int> {
    Seq::new(v.len(), |i: int| v[i] as int)
}

fn place(times: &Vec<Option<i128>>, sorted: &mut Vec<usize>, k: usize)
    requires
        k < times@.len(),
        forall|i: int| 0 <= i < old(sorted)@.len() ==> #[trigger] old(sorted)@[i] < times@.len(),
    ensures
        places(final(sorted)@) == placed(times@, places(old(sorted)@), k as int),
        forall|i: int| 0 <= i < final(sorted)@.len() ==> #[trigger] final(sorted)@[i] < times@.len(),
        final(sorted)@.len() == old(sorted)@.len() + 1,
    decreases old(sorted)@.len(),
{
    let n: usize = sorted.len();
    let ghost before = places(sorted@);
    let ghost start = sorted@;
    if n == 0 || !later(&times[sorted[n - 1]], &times[k]) {
        sorted.push(k);
        assert(places(sorted@) =~= before.push(k as int));
    } else {
        let last = sorted[n - 1];
        sorted.pop();
        assert(sorted@ =~= start.drop_last());
        assert(places(sorted@) =~= before.drop_last());
        place(times, sorted, k);
        let ghost inner = places(sorted@);
        sorted.push(last);
        assert(places(sorted@) =~= inner.push(last as int));
    }
}

/// Chooses the backups to remove, by the times at which they were changed, so that `keep` are left.
pub fn cleanup_old_backups(times: &Vec<Option<i128>>, keep: usize) -> (r: Vec<usize>)
    ensures
        places(r@) == removed(times@, keep as int),
{
    let mut sorted: Vec<usize> = Vec::new();
    let n: usize = times.len();
    let mut i: usize = 0;
    assert(places(sorted@) =~= Seq::<int>::empty());
    while i < n
        invariant
            i <= n,
            n == times@.len(),
            sorted@.len() == i,
            places(sorted@) == oldest_first(times@, i as int),
            forall|j: int| 0 <= j < sorted@.len() ==> #[trigger] sorted@[j] < times@.len(),
        decreases n - i,
    {
        place(times, &mut sorted, i);
        i += 1;
    }
    if n > keep {
        let ghost all = sorted@;
        sorted.truncate(n - keep);
        assert(places(sorted@) =~= places(all).take(n - keep));
        sorted
    } else {
        let none: Vec<usize> = Vec::new();
        assert(places(none@) =~= Seq::<int>::empty());
        none
    }
}

/// The files are sorted, and each of them occurs once.
pub open spec fn well_sorted(times: Seq<Option<i128>>, s: Seq<int>, n: int) -> bool {
    &&& s.len() == n
    &&& s.no_duplicates()
    &&& forall|i: int| 0 <= i < s.len() ==> 0 <= #[trigger] s[i] < n
    &&& forall|i: int, j: int|
        0 <= i <= j < s.len() ==> not_later(times[#[trigger] s[i]], times[#[trigger] s[j]])
}

proof fn lemma_placed(times: Seq<Option<i128>>, s: Seq<int>, k: int)
    requires
        s.no_duplicates(),
        forall|i: int| 0 <= i < s.len() ==> 0 <= #[trigger] s[i] < k,
        forall|i: int, j: int|
            0 <= i <= j < s.len() ==> not_later(times[#[trigger] s[i]], times[#[trigger] s[j]]),
    ensures
        placed(times, s, k).len() == s.len() + 1,
        placed(times, s, k).no_duplicates(),
        forall|x: int| #[trigger] placed(times, s, k).contains(x) <==> s.contains(x) || x == k,
        forall|i: int, j: int|
            0 <= i <= j < placed(times, s, k).len() ==> not_later(
                times[#[trigger] placed(times, s, k)[i]],
                times[#[trigger] placed(times, s, k)[j]],
            ),
    decreases s.len(),
{
    let p = placed(times, s, k);
    if s.len() == 0 || not_later(times[s.last()], times[k]) {
        assert forall|x: int| #[trigger] p.contains(x) <==> s.contains(x) || x == k by {
            if s.contains(x) {
                let i = choose|i: int| 0 <= i < s.len() && s[i] == x;
                assert(p[i] == x);
            }
            assert(p[s.len() as int] == k);
        }
        assert forall|i: int, j: int| 0 <= i <= j < p.len() implies not_later(
            times[#[trigger] p[i]],
            times[#[trigger] p[j]],
        ) by {
            if j < s.len() {
                assert(p[i] == s[i] && p[j] == s[j]);
            } else if i < s.len() {
                assert(p[i] == s[i]);
                assert(not_later(times[s[i]], times[s[s.len() - 1]]));
            }
        }
    } else {
        let t = s.drop_last();
        let last = s.last();
        assert forall|i: int| 0 <= i < t.len() implies 0 <= #[trigger] t[i] < k by {
            assert(t[i] == s[i]);
        }
        assert forall|i: int, j: int| 0 <= i <= j < t.len() implies not_later(
            times[#[trigger] t[i]],
            times[#[trigger] t[j]],
        ) by {
            assert(t[i] == s[i] && t[j] == s[j]);
        }
        lemma_placed(times, t, k);
        let q = placed(times, t, k);
        assert(!t.contains(last)) by {
            if t.contains(last) {
                let i = choose|i: int| 0 <= i < t.len() && t[i] == last;
                assert(s[i] == s[s.len() - 1]);
            }
        }
        assert(s[s.len() - 1] == last);
        assert(!q.contains(last));
        assert forall|x: int| #[trigger] p.contains(x) <==> s.contains(x) || x == k by {
            if p.contains(x) {
                let i = choose|i: int| 0 <= i < p.len() && p[i] == x;
                if i < q.len() {
                    assert(q[i] == x);
                    assert(q.contains(x));
                    if t.contains(x) {
                        let j = choose|j: int| 0 <= j < t.len() && t[j] == x;
                        assert(s[j] == x);
                    }
                }
            }
            if s.contains(x) {
                let i = choose|i: int| 0 <= i < s.len() && s[i] == x;
                if i < t.len() {
                    assert(t[i] == x);
                    assert(q.contains(x));
                    let j = choose|j: int| 0 <= j < q.len() && q[j] == x;
                    assert(p[j] == x);
                } else {
                    assert(p[q.len() as int] == x);
                }
            }
            if x == k {
                assert(q.contains(k));
                let j = choose|j: int| 0 <= j < q.len() && q[j] == k;
                assert(p[j] == k);
            }
        }
        assert(p.no_duplicates()) by {
            assert forall|i: int, j: int|
                0 <= i < p.len() && 0 <= j < p.len() && i != j implies p[i] != p[j] by {
                if i < q.len() && j < q.len() {
                    assert(q[i] != q[j]);
                } else if i < q.len() {
                    assert(q.contains(q[i]));
                } else if j < q.len() {
                    assert(q.contains(q[j]));
                }
            }
        }
        assert forall|i: int, j: int| 0 <= i <= j < p.len() implies not_later(
            times[#[trigger] p[i]],
            times[#[trigger] p[j]],
        ) by {
            if j < q.len() {
                assert(p[i] == q[i] && p[j] == q[j]);
            } else if i < q.len() {
                assert(p[i] == q[i]);
                assert(q.contains(q[i]));
                if q[i] != k {
                    let m = choose|m: int| 0 <= m < t.len() && t[m] == q[i];
                    assert(s[m] == q[i]);
                    assert(not_later(times[s[m]], times[s[s.len() - 1]]));
                }
            }
        }
    }
}

proof fn lemma_oldest_first(times: Seq<Option<i128>>, n: int)
    requires
        0 <= n <= times.len(),
    ensures
        well_sorted(times, oldest_first(times, n), n),
    decreases n,
{
    if n > 0 {
        lemma_oldest_first(times, n - 1);
        let s = oldest_first(times, n - 1);
        lemma_placed(times, s, n - 1);
        let p = oldest_first(times, n);
        assert forall|i: int| 0 <= i < p.len() implies 0 <= #[trigger] p[i] < n by {
            assert(p.contains(p[i]));
            if p[i] != n - 1 {
                let j = choose|j: int| 0 <= j < s.len() && s[j] == p[i];
                assert(0 <= s[j] < n - 1);
            }
        }
    }
}

/// Exactly as many backups are removed as are too many, none twice, and no backup that is kept is
/// older than one that is removed.
pub proof fn law_newest_backups_are_kept(times: Seq<Option<i128>>, keep: int, a: int, b: int)
    requires
        0 <= keep,
        removed(times, keep).contains(a),
        0 <= b < times.len(),
        !removed(times, keep).contains(b),
    ensures
        removed(times, keep).len() == times.len() - keep,
        removed(times, keep).no_duplicates(),
        not_later(times[a], times[b]),
{
    let n = times.len() as int;
    lemma_oldest_first(times, n);
    let s = oldest_first(times, n);
    let r = removed(times, keep);
    let i = choose|i: int| 0 <= i < r.len() && r[i] == a;
    assert(s[i] == a);
    lemma_all_places(s, n, b);
    let j = choose|j: int| 0 <= j < s.len() && s[j] == b;
    if j < r.len() {
        assert(r[j] == b);
    }
    assert(not_later(times[s[i]], times[s[j]]));
    assert(r.no_duplicates()) by {
        assert forall|x: int, y: int|
            0 <= x < r.len() && 0 <= y < r.len() && x != y implies r[x] != r[y] by {
            assert(s[x] != s[y]);
        }
    }
}

/// A list of `n` different numbers below `n` holds each of them.
proof fn lemma_all_places(s: Seq<int>, n: int, b: int)
    requires
        s.len() == n,
        s.no_duplicates(),
        forall|i: int| 0 <= i < s.len() ==> 0 <= #[trigger] s[i] < n,
        0 <= b < n,
    ensures
        s.contains(b),
{
    let have = s.to_set();
    let all = vstd::set_lib::set_int_range(0, n);
    vstd::set_lib::lemma_int_range(0, n);
    s.unique_seq_to_set();
    assert(have.subset_of(all)) by {
        assert forall|x: int| have.contains(x) implies all.contains(x) by {
            assert(s.contains(x));
            let i = choose|i: int| 0 <= i < s.len() && s[i] == x;
            assert(0 <= s[i] < n);
        }
    }
    vstd::set_lib::lemma_subset_equality(have, all);
    assert(all.contains(b));
    assert(have.contains(b));
}

// ---------------------------------------------------------------------------------------------
// Restoring a backup
// ---------------------------------------------------------------------------------------------

/// The bytes that a database begins with.
pub open spec fn magic() -> Seq<u8> {
    seq![83u8, 81, 76, 105, 116, 101, 32, 102, 111, 114, 109, 97, 116, 32, 51, 0]
}

/// A file with this content is a database.
pub open spec fn is_database(content: Seq<u8>) -> bool {
    content.len() >= 16 && content.take(16) == magic()
}

/// Whether a file can be restored as the database, given its content; the content of a file that
/// is not there is `None`.
pub fn restore_database(content: Option<&[u8]>) -> (r: Result<(), String>)
    ensures
        match content {
            None => r matches Err(e) && e@ == "Файл не найден"@,
            Some(c) => if is_database(c@) {
                r is Ok
            } else {
                r matches Err(e) && e@ == "Файл не является базой данных SQLite"@
            },
        },
{
    match content {
        None => Err("Файл не найден".to_owned()),
        Some(c) => {
            if c.len() >= 16 && c[0] == 83 && c[1] == 81 && c[2] == 76 && c[3] == 105 && c[4] == 116
                && c[5] == 101 && c[6] == 32 && c[7] == 102 && c[8] == 111 && c[9] == 114 && c[10]
                == 109 && c[11] == 97 && c[12] == 116 && c[13] == 32 && c[14] == 51 && c[15] == 0 {
                assert(c@.take(16) =~= magic());
                Ok(())
            } else {
                assert(!is_database(c@)) by {
                    if is_database(c@) {
                        let t = c@.take(16);
                        assert(t[0] == c@[0] && t[1] == c@[1] && t[2] == c@[2] && t[3] == c@[3]);
                        assert(t[4] == c@[4] && t[5] == c@[5] && t[6] == c@[6] && t[7] == c@[7]);
                        assert(t[8] == c@[8] && t[9] == c@[9] && t[10] == c@[10]);
                        assert(t[11] == c@[11] && t[12] == c@[12] && t[13] == c@[13]);
                        assert(t[14] == c@[14] && t[15] == c@[15]);
                    }
                }
                Err("Файл не является базой данных SQLite".to_owned())
            }
        },
    }
}

// ---------------------------------------------------------------------------------------------
// The log
// ---------------------------------------------------------------------------------------------

/// The size above which a new log is begun.
pub const MAX_LOG_SIZE: u64 = 5242880;

/// Whether a log of this size gives way to a new one.
pub fn rotate_log_if_needed(size: u64) -> (r: bool)
    ensures
        r == (size > MAX_LOG_SIZE),
        r == (size > 5242880),
{
    size > MAX_LOG_SIZE
}

/// A line of the log.
pub fn log_line(timestamp: &str, msg: &str) -> (r: String)
    ensures
        r@ == "["@ + timestamp@ + "] "@ + msg@,
{
    let mut r = join3("[", timestamp, "] ");
    r.append(msg);
    r
}

/// The last `n` of some lines, or all of them.
pub open spec fn tail(all: Seq<Seq<char>>, n: int) -> Seq<Seq<char>> {
    if all.len() <= n {
        all
    } else {
        all.skip(all.len() - n)
    }
}

/// The end of the log, given its lines; the lines of a log that is not there are `None`.
pub fn get_log_tail(all: &Option<Vec<String>>, lines: usize) -> (r: String)
    ensures
        match *all {
            Some(v) => r@ == joined(tail(views(v@), lines as int), "\n"@),
            None => r@ == "Лог-файл не найден"@,
        },
{
    match all {
        None => "Лог-файл не найден".to_owned(),
        Some(v) => {
            let n: usize = v.len();
            let start: usize = if n <= lines {
                0
            } else {
                n - lines
            };
            let mut last: Vec<String> = Vec::new();
            let mut i: usize = start;
            while i < n
                invariant
                    start <= i <= n,
                    n == v@.len(),
                    last@.len() == i - start,
                    forall|j: int| 0 <= j < i - start ==> (#[trigger] last@[j])@ == v@[start + j]@,
                decreases n - i,
            {
                last.push(v[i].clone());
                i += 1;
            }
            assert(views(last@) =~= tail(views(v@), lines as int));
            join(&last, "\n")
        },
    }
}

} // verus!
