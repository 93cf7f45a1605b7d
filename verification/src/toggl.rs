//! Time-tracking data: entries fetched from the time tracker, duration
//! arithmetic for running timers, clock-style formatting, and the
//! per-project aggregation.
//!
//! Entry start times stay RFC 3339 strings as fetched; the calendar
//! bindings read the day number or the unix seconds out of them.  Project
//! names are carried as an id-to-name list with unique ids.

use vstd::prelude::*;

use crate::runtime::{now_unix_secs, rfc3339_day_of, rfc3339_secs_of, parse_rfc3339_day,
    parse_rfc3339_secs};
use crate::strutil::{digit_char, digit_to_char, i64_string, pad2_string, push_char, spec_digits,
    spec_i64_digits, spec_pad2, str_eq, u64_string};

verus! {

/// Mathematical value of a time entry.
#[verifier::ext_equal]
pub ghost struct TogglTimeEntryV {
    pub id: int,
    pub description: Option<Seq<char>>,
    pub duration: int,
    pub start: Seq<char>,
    pub stop: Option<Seq<char>>,
    pub project_id: Option<int>,
    pub project_name: Option<Seq<char>>,
}

/// One tracked time entry; a negative duration marks a running timer.
pub struct TogglTimeEntry {
    pub id: i64,
    pub description: Option<String>,
    pub duration: i64,
    pub start: String,
    pub stop: Option<String>,
    pub project_id: Option<i64>,
    pub project_name: Option<String>,
}

impl View for TogglTimeEntry {
    type V = TogglTimeEntryV;

    open spec fn view(&self) -> TogglTimeEntryV {
        TogglTimeEntryV {
            id: self.id as int,
            description: self.description.deep_view(),
            duration: self.duration as int,
            start: self.start@,
            stop: self.stop.deep_view(),
            project_id: crate::model::opt_int(self.project_id),
            project_name: self.project_name.deep_view(),
        }
    }
}

impl DeepView for TogglTimeEntry {
    type V = TogglTimeEntryV;

    open spec fn deep_view(&self) -> TogglTimeEntryV {
        self.view()
    }
}

/// A project of the time tracker.
pub struct TogglProject {
    pub id: i64,
    pub name: String,
}

/// A machine integer clamped into the signed 64-bit range.
pub open spec fn sat64(x: int) -> int {
    if x > i64::MAX {
        i64::MAX as int
    } else if x < i64::MIN {
        i64::MIN as int
    } else {
        x
    }
}

/// Seconds a time entry has consumed: its duration, or for a running timer
/// the clamped span from its start to the given clock reading; an
/// unreadable start counts as zero.
pub open spec fn spec_duration_at(e: TogglTimeEntryV, now_secs: int) -> int {
    if e.duration >= 0 {
        e.duration
    } else {
        match rfc3339_secs_of(e.start) {
            Some(st) => sat64(now_secs - st),
            None => 0,
        }
    }
}

/// The hours, minutes and seconds of a signed second count, each carrying
/// the sign, as truncating division gives them.
pub open spec fn spec_hms(secs: int) -> (int, int, int) {
    let mag = if secs >= 0 {
        secs
    } else {
        -secs
    };
    let h = mag / 3600;
    let m = (mag % 3600) / 60;
    let s = mag % 60;
    if secs >= 0 {
        (h, m, s)
    } else {
        (-h, -m, -s)
    }
}

/// The clock-style `HH:MM:SS` rendering of a second count.
pub open spec fn spec_clock(secs: int) -> Seq<char> {
    spec_pad2(spec_hms(secs).0) + seq![':'] + spec_pad2(spec_hms(secs).1) + seq![':'] + spec_pad2(
        spec_hms(secs).2,
    )
}

/// The short `Hh Mm` / `Mm` rendering of a second count.
pub open spec fn spec_short(secs: int) -> Seq<char> {
    if spec_hms(secs).0 > 0 {
        spec_i64_digits(spec_hms(secs).0) + "h "@ + spec_i64_digits(spec_hms(secs).1) + seq!['m']
    } else {
        spec_i64_digits(spec_hms(secs).1) + seq!['m']
    }
}

/// Split a second count into signed hours, minutes and seconds.
fn hms(secs: i64) -> (r: (i64, i64, i64))
    ensures
        r.0 as int == spec_hms(secs as int).0,
        r.1 as int == spec_hms(secs as int).1,
        r.2 as int == spec_hms(secs as int).2,
{
    let neg = secs < 0;
    let mag: u64 = if secs == i64::MIN {
        9223372036854775808u64
    } else if neg {
        (-secs) as u64
    } else {
        secs as u64
    };
    let h = mag / 3600;
    let m = (mag % 3600) / 60;
    let s = mag % 60;
    if neg {
        (-(h as i64), -(m as i64), -(s as i64))
    } else {
        (h as i64, m as i64, s as i64)
    }
}

/// Render a second count in clock style, `HH:MM:SS`.
pub fn format_clock(secs: i64) -> (r: String)
    ensures
        r@ == spec_clock(secs as int),
{
    let (h, m, s) = hms(secs);
    let mut r = pad2_string(h);
    push_char(&mut r, ':');
    let r = r.concat(pad2_string(m).as_str());
    let mut r = r;
    push_char(&mut r, ':');
    let r = r.concat(pad2_string(s).as_str());
    proof {
        assert(r@ =~= spec_clock(secs as int));
    }
    r
}

/// Render a second count in short style, `Hh Mm` or `Mm`.
pub fn format_short(secs: i64) -> (r: String)
    ensures
        r@ == spec_short(secs as int),
{
    let (h, m, _s) = hms(secs);
    if h > 0 {
        let mut r = i64_string(h);
        r.append("h ");
        let r = r.concat(i64_string(m).as_str());
        let mut r = r;
        push_char(&mut r, 'm');
        proof {
            assert(r@ =~= spec_short(secs as int));
        }
        r
    } else {
        let mut r = i64_string(m);
        push_char(&mut r, 'm');
        proof {
            assert(r@ =~= spec_short(secs as int));
        }
        r
    }
}

/// The `H.Th` rendering of a second count: hours with one decimal, rounded
/// half up in magnitude.
pub open spec fn spec_hours_tenths(secs: int) -> Seq<char> {
    let mag = if secs >= 0 {
        secs
    } else {
        -secs
    };
    let whole0 = mag / 3600;
    let tenths0 = ((mag % 3600) * 10 + 1800) / 3600;
    let whole = if tenths0 == 10 {
        whole0 + 1
    } else {
        whole0
    };
    let tenths = if tenths0 == 10 {
        0
    } else {
        tenths0
    };
    let sign: Seq<char> = if secs < 0 {
        seq!['-']
    } else {
        Seq::empty()
    };
    sign + spec_digits(whole as nat) + seq!['.'] + seq![digit_char(tenths as nat)] + seq!['h']
}

/// Format seconds as hours with one decimal place (for example `2.5h`).
pub fn format_hours(seconds: i64) -> (r: String)
    ensures
        r@ == spec_hours_tenths(seconds as int),
{
    let neg = seconds < 0;
    let mag: u64 = if seconds == i64::MIN {
        9223372036854775808u64
    } else if neg {
        (-seconds) as u64
    } else {
        seconds as u64
    };
    let whole0 = mag / 3600;
    let tenths0 = ((mag % 3600) * 10 + 1800) / 3600;
    let whole = if tenths0 == 10 {
        whole0 + 1
    } else {
        whole0
    };
    let tenths = if tenths0 == 10 {
        0u64
    } else {
        tenths0
    };
    let mut r = String::new();
    if neg {
        push_char(&mut r, '-');
    }
    let r = r.concat(u64_string(whole).as_str());
    let mut r = r;
    push_char(&mut r, '.');
    push_char(&mut r, digit_to_char(tenths));
    push_char(&mut r, 'h');
    proof {
        assert(r@ =~= spec_hours_tenths(seconds as int));
    }
    r
}

impl TogglTimeEntry {
    /// The calendar day the entry started on, read out of its timestamp.
    pub fn start_date(&self) -> (r: Option<i64>)
        ensures
            r == rfc3339_day_of(self@.start),
    {
        parse_rfc3339_day(self.start.as_str())
    }

    /// Seconds consumed as of the given clock reading.
    pub fn duration_secs_at(&self, now_secs: i64) -> (r: i64)
        ensures
            r as int == spec_duration_at(self@, now_secs as int),
    {
        if self.duration < 0 {
            match parse_rfc3339_secs(self.start.as_str()) {
                Some(st) => {
                    let d: i128 = (now_secs as i128) - (st as i128);
                    if d > (i64::MAX as i128) {
                        i64::MAX
                    } else if d < (i64::MIN as i128) {
                        i64::MIN
                    } else {
                        d as i64
                    }
                },
                None => 0,
            }
        } else {
            self.duration
        }
    }

    /// Seconds consumed as of now; reads the clock, so for a running timer
    /// only existence of a clock reading can be promised.
    pub fn duration_secs(&self) -> (r: i64)
        ensures
            self@.duration >= 0 ==> r as int == self@.duration,
            exists|now_secs: int| r as int == spec_duration_at(self@, now_secs),
    {
        let now = now_unix_secs();
        let r = self.duration_secs_at(now);
        proof {
            assert(r as int == spec_duration_at(self@, now as int));
        }
        r
    }

    /// Clock-style `HH:MM:SS` of the seconds consumed as of now.
    pub fn format_duration(&self) -> (r: String)
        ensures
            exists|now_secs: int| r@ == spec_clock(spec_duration_at(self@, now_secs)),
            self@.duration >= 0 ==> r@ == spec_clock(self@.duration),
    {
        let now = now_unix_secs();
        let secs = self.duration_secs_at(now);
        let r = format_clock(secs);
        proof {
            assert(r@ == spec_clock(spec_duration_at(self@, now as int)));
        }
        r
    }

    /// Short `Hh Mm` of the seconds consumed as of now.
    pub fn format_duration_short(&self) -> (r: String)
        ensures
            exists|now_secs: int| r@ == spec_short(spec_duration_at(self@, now_secs)),
            self@.duration >= 0 ==> r@ == spec_short(self@.duration),
    {
        let now = now_unix_secs();
        let secs = self.duration_secs_at(now);
        let r = format_short(secs);
        proof {
            assert(r@ == spec_short(spec_duration_at(self@, now as int)));
        }
        r
    }
}

/// The fetched time-tracking data: entries and the id-to-name project list.
pub struct TogglData {
    pub entries: Vec<TogglTimeEntry>,
    pub projects: Vec<(i64, String)>,
}

/// Mathematical value of the fetched data.
#[verifier::ext_equal]
pub ghost struct TogglDataV {
    pub entries: Seq<TogglTimeEntryV>,
    pub projects: Seq<(int, Seq<char>)>,
}

impl View for TogglData {
    type V = TogglDataV;

    open spec fn view(&self) -> TogglDataV {
        TogglDataV {
            entries: self.entries.deep_view(),
            projects: Seq::new(
                self.projects@.len(),
                |i: int| (self.projects@[i].0 as int, self.projects@[i].1@),
            ),
        }
    }
}

impl Default for TogglData {
    fn default() -> (r: Self)
        ensures
            r@.entries == Seq::<TogglTimeEntryV>::empty(),
            r@.projects == Seq::<(int, Seq<char>)>::empty(),
    {
        let r = TogglData { entries: Vec::new(), projects: Vec::new() };
        proof {
            assert(r@.entries =~~= Seq::<TogglTimeEntryV>::empty());
            assert(r@.projects =~~= Seq::<(int, Seq<char>)>::empty());
        }
        r
    }
}

/// The first name listed for a project id, if any.
pub open spec fn spec_project_lookup(projects: Seq<(int, Seq<char>)>, id: int) -> Option<Seq<char>>
    decreases projects.len(),
{
    if projects.len() == 0 {
        None
    } else if projects[0].0 == id {
        Some(projects[0].1)
    } else {
        spec_project_lookup(projects.skip(1), id)
    }
}

/// The display name an entry is booked under: its own project name, else
/// the name its project id maps to, else "No Project".
pub open spec fn spec_entry_project(e: TogglTimeEntryV, projects: Seq<(int, Seq<char>)>) -> Seq<
    char,
> {
    match e.project_name {
        Some(n) => n,
        None => match e.project_id {
            Some(id) => match spec_project_lookup(projects, id) {
                Some(n) => n,
                None => "No Project"@,
            },
            None => "No Project"@,
        },
    }
}

/// Total seconds booked under a name as of a clock reading, clamped pair
/// by pair.
pub open spec fn spec_name_total(
    entries: Seq<TogglTimeEntryV>,
    projects: Seq<(int, Seq<char>)>,
    name: Seq<char>,
    now_secs: int,
) -> int
    decreases entries.len(),
{
    if entries.len() == 0 {
        0
    } else {
        let rest = spec_name_total(entries.drop_last(), projects, name, now_secs);
        if spec_entry_project(entries.last(), projects) == name {
            sat64(rest + spec_duration_at(entries.last(), now_secs))
        } else {
            rest
        }
    }
}

/// Total seconds booked on a calendar day as of a clock reading, clamped
/// pair by pair.
pub open spec fn spec_date_total(
    entries: Seq<TogglTimeEntryV>,
    date: int,
    now_secs: int,
) -> int
    decreases entries.len(),
{
    if entries.len() == 0 {
        0
    } else {
        let rest = spec_date_total(entries.drop_last(), date, now_secs);
        if rfc3339_day_of(entries.last().start) == Some(date as i64) {
            sat64(rest + spec_duration_at(entries.last(), now_secs))
        } else {
            rest
        }
    }
}

/// Saturating 64-bit addition.
fn sat_add(a: i64, b: i64) -> (r: i64)
    ensures
        r as int == sat64(a + b),
{
    let s: i128 = (a as i128) + (b as i128);
    if s > (i64::MAX as i128) {
        i64::MAX
    } else if s < (i64::MIN as i128) {
        i64::MIN
    } else {
        s as i64
    }
}

impl TogglData {
    /// Total seconds booked on a calendar day, as of the given clock
    /// reading.
    pub fn duration_for_date_at(&self, date: i64, now_secs: i64) -> (r: i64)
        ensures
            r as int == spec_date_total(self@.entries, date as int, now_secs as int),
    {
        let ghost ev = self.entries.deep_view();
        let mut total: i64 = 0;
        let mut i: usize = 0;
        proof {
            assert(ev.take(0) =~= Seq::<TogglTimeEntryV>::empty());
        }
        while i < self.entries.len()
            invariant
                ev == self.entries.deep_view(),
                0 <= i <= self.entries.len(),
                total as int == spec_date_total(ev.take(i as int), date as int, now_secs as int),
            decreases self.entries.len() - i,
        {
            proof {
                assert(ev.take(i + 1).drop_last() =~= ev.take(i as int));
                assert(ev.take(i + 1).last() == ev[i as int]);
            }
            let day = self.entries[i].start_date();
            let hit = match day {
                Some(d) => d == date,
                None => false,
            };
            if hit {
                total = sat_add(total, self.entries[i].duration_secs_at(now_secs));
            }
            i += 1;
        }
        proof {
            assert(ev.take(self.entries@.len() as int) =~= ev);
        }
        total
    }

    /// Total seconds booked on a calendar day as of now; reads the clock.
    pub fn duration_for_date(&self, date: i64) -> (r: i64)
        ensures
            exists|now_secs: int|
                r as int == spec_date_total(self@.entries, date as int, now_secs),
    {
        let now = now_unix_secs();
        let r = self.duration_for_date_at(date, now);
        proof {
            assert(r as int == spec_date_total(self@.entries, date as int, now as int));
        }
        r
    }
}

/// Whether an aggregation pair is a correct total for its name: the name is
/// booked by some entry and the seconds are that name's clamped total.
pub open spec fn good_total(
    d: TogglDataV,
    now_secs: int,
    p: (Seq<char>, i64),
) -> bool {
    &&& p.1 as int == spec_name_total(d.entries, d.projects, p.0, now_secs)
    &&& exists|i: int|
        0 <= i < d.entries.len() && spec_entry_project(#[trigger] d.entries[i], d.projects) == p.0
}

/// Every pair of an aggregation result is a correct total as of one clock
/// reading.
pub open spec fn all_good_totals(d: TogglDataV, now_secs: int, rs: Seq<(Seq<char>, i64)>) -> bool {
    forall|j: int| 0 <= j < rs.len() ==> good_total(d, now_secs, #[trigger] rs[j])
}

/// The display name an entry is booked under.
fn entry_project_name(e: &TogglTimeEntry, projects: &Vec<(i64, String)>, dv: Ghost<TogglDataV>)
    -> (r: String)
    requires
        dv@.projects == Seq::new(
            projects@.len(),
            |i: int| (projects@[i].0 as int, projects@[i].1@),
        ),
    ensures
        r@ == spec_entry_project(e@, dv@.projects),
{
    if let Some(n) = &e.project_name {
        proof {
            assert(e@.project_name == Some(n@));
        }
        return n.clone();
    }
    proof {
        assert(e@.project_name is None);
    }
    if let Some(id) = e.project_id {
        let mut i: usize = 0;
        while i < projects.len()
            invariant
                dv@.projects == Seq::new(
                    projects@.len(),
                    |i: int| (projects@[i].0 as int, projects@[i].1@),
                ),
                e@.project_name is None,
                e@.project_id == Some(id as int),
                0 <= i <= projects.len(),
                forall|j: int| 0 <= j < i ==> dv@.projects[j].0 != id as int,
            decreases projects.len() - i,
        {
            if projects[i].0 == id {
                proof {
                    assert(dv@.projects[i as int] == (
                        projects@[i as int].0 as int,
                        projects@[i as int].1@,
                    ));
                    lemma_project_lookup_first(dv@.projects, id as int, i as int);
                }
                return projects[i].1.clone();
            }
            i += 1;
        }
        proof {
            lemma_project_lookup_none(dv@.projects, id as int);
        }
    }
    String::from_str("No Project")
}

/// A lookup that stops at the first matching position returns that name.
proof fn lemma_project_lookup_first(projects: Seq<(int, Seq<char>)>, id: int, i: int)
    requires
        0 <= i < projects.len(),
        projects[i].0 == id,
        forall|j: int| 0 <= j < i ==> projects[j].0 != id,
    ensures
        spec_project_lookup(projects, id) == Some(projects[i].1),
    decreases i,
{
    if i > 0 {
        assert(forall|j: int| 0 <= j < projects.skip(1).len() ==> projects.skip(1)[j]
            == projects[j + 1]);
        lemma_project_lookup_first(projects.skip(1), id, i - 1);
    }
}

/// A lookup over ids that never match returns nothing.
proof fn lemma_project_lookup_none(projects: Seq<(int, Seq<char>)>, id: int)
    requires
        forall|j: int| 0 <= j < projects.len() ==> (#[trigger] projects[j]).0 != id,
    ensures
        spec_project_lookup(projects, id) is None,
    decreases projects.len(),
{
    if projects.len() > 0 {
        assert(forall|j: int| 0 <= j < projects.skip(1).len() ==> projects.skip(1)[j]
            == projects[j + 1]);
        lemma_project_lookup_none(projects.skip(1), id);
    }
}

impl TogglData {
    /// Total seconds per project name as of the given clock reading, sorted
    /// by descending duration: every name booked by an entry appears
    /// exactly once, with its clamped total.
    #[verifier::rlimit(100)]
    pub fn duration_by_project_at(&self, now_secs: i64) -> (r: Vec<(String, i64)>)
        ensures
            forall|j1: int, j2: int|
                0 <= j1 < j2 < r.deep_view().len() ==> r.deep_view()[j1].1
                    >= r.deep_view()[j2].1,
            forall|j1: int, j2: int|
                0 <= j1 < j2 < r.deep_view().len() ==> r.deep_view()[j1].0 != r.deep_view()[j2].0,
            forall|j: int|
                0 <= j < r.deep_view().len() ==> good_total(
                    self@,
                    now_secs as int,
                    #[trigger] r.deep_view()[j],
                ),
    {
        let ghost dv = self@;
        let ghost ev = self@.entries;
        // accumulate totals keyed by name, in first-appearance order
        let mut acc: Vec<(String, i64)> = Vec::new();
        let mut i: usize = 0;
        while i < self.entries.len()
            invariant
                dv == self@,
                ev == self@.entries,
                0 <= i <= self.entries.len(),
                forall|j1: int, j2: int|
                    0 <= j1 < j2 < acc.deep_view().len() ==> acc.deep_view()[j1].0
                        != acc.deep_view()[j2].0,
                forall|j: int|
                    0 <= j < acc.deep_view().len() ==> (#[trigger] acc.deep_view()[j]).1 as int
                        == spec_name_total(
                        ev.take(i as int),
                        dv.projects,
                        acc.deep_view()[j].0,
                        now_secs as int,
                    ) && exists|ii: int|
                        0 <= ii < i && spec_entry_project(#[trigger] ev[ii], dv.projects)
                            == acc.deep_view()[j].0,
                forall|ii: int|
                    0 <= ii < i ==> exists|j: int|
                        0 <= j < acc.deep_view().len() && #[trigger] acc.deep_view()[j].0
                            == spec_entry_project(#[trigger] ev[ii], dv.projects),
            decreases self.entries.len() - i,
        {
            let ghost prev = acc.deep_view();
            let name = entry_project_name(&self.entries[i], &self.projects, Ghost(dv));
            let d = self.entries[i].duration_secs_at(now_secs);
            proof {
                assert(ev.take(i + 1).drop_last() =~= ev.take(i as int));
                assert(ev.take(i + 1).last() == ev[i as int]);
            }
            let existing = find_name_pos(&acc, name.as_str());
            if let Some(j) = existing {
                let pair = acc.remove(j);
                let total = sat_add(pair.1, d);
                acc.insert(j, (pair.0, total));
                proof {
                    assert(acc.deep_view() =~~= prev.update(j as int, (prev[j as int].0, total)));
                    assert forall|h: int|
                        0 <= h < acc.deep_view().len() implies (#[trigger] acc.deep_view()[h]).1
                            as int == spec_name_total(
                        ev.take(i + 1),
                        dv.projects,
                        acc.deep_view()[h].0,
                        now_secs as int,
                    ) by {
                        if h == j {
                            assert(acc.deep_view()[h].0 == prev[j as int].0);
                        } else {
                            assert(acc.deep_view()[h] == prev[h]);
                            assert(acc.deep_view()[h].0 != name@);
                        }
                    }
                    assert forall|ii: int|
                        0 <= ii < i + 1 implies exists|h: int|
                        0 <= h < acc.deep_view().len() && #[trigger] acc.deep_view()[h].0
                            == spec_entry_project(#[trigger] ev[ii], dv.projects) by {
                        if ii < i {
                            let h = choose|h: int|
                                0 <= h < prev.len() && #[trigger] prev[h].0 == spec_entry_project(
                                    ev[ii],
                                    dv.projects,
                                );
                            assert(acc.deep_view()[h].0 == prev[h].0);
                        } else {
                            assert(acc.deep_view()[j as int].0 == name@);
                        }
                    }
                }
            } else {
                proof {
                    assert forall|ii: int|
                        0 <= ii < ev.take(i as int).len() implies spec_entry_project(
                        #[trigger] ev.take(i as int)[ii],
                        dv.projects,
                    ) != name@ by {
                        assert(ev.take(i as int)[ii] == ev[ii]);
                        let h = choose|h: int|
                            0 <= h < prev.len() && #[trigger] prev[h].0 == spec_entry_project(
                                ev[ii],
                                dv.projects,
                            );
                        assert(prev[h].0 != name@);
                    }
                    lemma_name_total_absent(ev.take(i as int), dv.projects, name@, now_secs as int);
                }
                acc.push((name, d));
                proof {
                    assert(acc.deep_view() =~~= prev.push((name@, d)));
                    assert forall|h: int|
                        0 <= h < acc.deep_view().len() implies (#[trigger] acc.deep_view()[h]).1
                            as int == spec_name_total(
                        ev.take(i + 1),
                        dv.projects,
                        acc.deep_view()[h].0,
                        now_secs as int,
                    ) by {
                        if h < prev.len() {
                            assert(acc.deep_view()[h] == prev[h]);
                            assert(acc.deep_view()[h].0 != name@);
                        } else {
                            assert(acc.deep_view()[h] == (name@, d));
                        }
                    }
                    assert forall|ii: int|
                        0 <= ii < i + 1 implies exists|h: int|
                        0 <= h < acc.deep_view().len() && #[trigger] acc.deep_view()[h].0
                            == spec_entry_project(#[trigger] ev[ii], dv.projects) by {
                        if ii < i {
                            let h = choose|h: int|
                                0 <= h < prev.len() && #[trigger] prev[h].0 == spec_entry_project(
                                    ev[ii],
                                    dv.projects,
                                );
                            assert(acc.deep_view()[h].0 == prev[h].0);
                        } else {
                            assert(acc.deep_view()[prev.len() as int].0 == name@);
                        }
                    }
                }
            }
            i += 1;
        }
        proof {
            assert(ev.take(self.entries@.len() as int) =~= ev);
        }
        // order by descending duration
        sort_totals(acc, Ghost(dv), Ghost(now_secs as int))
    }

    /// Totals per project as of now; reads the clock.
    pub fn duration_by_project(&self) -> (r: Vec<(String, i64)>)
        ensures
            forall|j1: int, j2: int|
                0 <= j1 < j2 < r.deep_view().len() ==> r.deep_view()[j1].1
                    >= r.deep_view()[j2].1,
            forall|j1: int, j2: int|
                0 <= j1 < j2 < r.deep_view().len() ==> r.deep_view()[j1].0 != r.deep_view()[j2].0,
            exists|now_secs: int| all_good_totals(self@, now_secs, r.deep_view()),
    {
        let now = now_unix_secs();
        let r = self.duration_by_project_at(now);
        proof {
            assert(all_good_totals(self@, now as int, r.deep_view()));
        }
        r
    }
}

/// Position of the accumulation pair carrying the name, if any.
fn find_name_pos(acc: &Vec<(String, i64)>, name: &str) -> (r: Option<usize>)
    ensures
        match r {
            Some(j) => j < acc.deep_view().len() && acc.deep_view()[j as int].0 == name@,
            None => forall|h: int|
                0 <= h < acc.deep_view().len() ==> (#[trigger] acc.deep_view()[h]).0 != name@,
        },
{
    let mut j: usize = 0;
    while j < acc.len()
        invariant
            0 <= j <= acc.len(),
            forall|h: int| 0 <= h < j ==> (#[trigger] acc.deep_view()[h]).0 != name@,
        decreases acc.len() - j,
    {
        if str_eq(acc[j].0.as_str(), name) {
            return Some(j);
        }
        j += 1;
    }
    None
}

/// A name no entry of the collection is booked under has a zero total.
proof fn lemma_name_total_absent(
    entries: Seq<TogglTimeEntryV>,
    projects: Seq<(int, Seq<char>)>,
    name: Seq<char>,
    now_secs: int,
)
    requires
        forall|i: int|
            0 <= i < entries.len() ==> spec_entry_project(#[trigger] entries[i], projects) != name,
    ensures
        spec_name_total(entries, projects, name, now_secs) == 0,
    decreases entries.len(),
{
    if entries.len() > 0 {
        assert(forall|i: int|
            0 <= i < entries.drop_last().len() ==> entries.drop_last()[i] == entries[i]);
        lemma_name_total_absent(entries.drop_last(), projects, name, now_secs);
        assert(spec_entry_project(entries[entries.len() - 1], projects) != name);
    }
}

/// Selection sort of aggregation pairs by descending seconds; distinct
/// names, correct totals and name coverage all carry through.
#[verifier::rlimit(60)]
fn sort_totals(acc: Vec<(String, i64)>, dv: Ghost<TogglDataV>, now_secs: Ghost<int>) -> (r: Vec<
    (String, i64),
>)
    requires
        forall|j1: int, j2: int|
            0 <= j1 < j2 < acc.deep_view().len() ==> acc.deep_view()[j1].0
                != acc.deep_view()[j2].0,
        forall|j: int|
            0 <= j < acc.deep_view().len() ==> good_total(
                dv@,
                now_secs@,
                #[trigger] acc.deep_view()[j],
            ),
    ensures
        r.deep_view().len() == acc.deep_view().len(),
        forall|j1: int, j2: int|
            0 <= j1 < j2 < r.deep_view().len() ==> r.deep_view()[j1].1 >= r.deep_view()[j2].1,
        forall|j1: int, j2: int|
            0 <= j1 < j2 < r.deep_view().len() ==> r.deep_view()[j1].0 != r.deep_view()[j2].0,
        forall|j: int|
            0 <= j < r.deep_view().len() ==> good_total(
                dv@,
                now_secs@,
                #[trigger] r.deep_view()[j],
            ),
        forall|h: int|
            0 <= h < acc.deep_view().len() ==> r.deep_view().contains(
                #[trigger] acc.deep_view()[h],
            ),
{
    let ghost accv = acc.deep_view();
    let mut rest = acc;
    let mut out: Vec<(String, i64)> = Vec::new();
    proof {
        assert(rest.deep_view() =~~= accv);
        assert forall|h: int| 0 <= h < accv.len() implies out.deep_view().contains(
            #[trigger] accv[h],
        ) || rest.deep_view().contains(accv[h]) by {
            assert(rest.deep_view()[h] == accv[h]);
        }
    }
    while rest.len() > 0
        invariant
            out.deep_view().len() + rest.deep_view().len() == accv.len(),
            forall|j1: int, j2: int|
                0 <= j1 < j2 < out.deep_view().len() ==> out.deep_view()[j1].0
                    != out.deep_view()[j2].0,
            forall|j1: int, j2: int|
                0 <= j1 < j2 < rest.deep_view().len() ==> rest.deep_view()[j1].0
                    != rest.deep_view()[j2].0,
            forall|j1: int, j2: int|
                0 <= j1 < out.deep_view().len() && 0 <= j2 < rest.deep_view().len()
                    ==> out.deep_view()[j1].0 != rest.deep_view()[j2].0,
            forall|j: int|
                0 <= j < out.deep_view().len() ==> good_total(
                    dv@,
                    now_secs@,
                    #[trigger] out.deep_view()[j],
                ),
            forall|j: int|
                0 <= j < rest.deep_view().len() ==> good_total(
                    dv@,
                    now_secs@,
                    #[trigger] rest.deep_view()[j],
                ),
            forall|j1: int, j2: int|
                0 <= j1 < j2 < out.deep_view().len() ==> out.deep_view()[j1].1
                    >= out.deep_view()[j2].1,
            forall|j1: int, j2: int|
                0 <= j1 < out.deep_view().len() && 0 <= j2 < rest.deep_view().len()
                    ==> out.deep_view()[j1].1 >= rest.deep_view()[j2].1,
            forall|h: int|
                0 <= h < accv.len() ==> out.deep_view().contains(#[trigger] accv[h])
                    || rest.deep_view().contains(accv[h]),
        decreases rest.len(),
    {
        let ghost restv = rest.deep_view();
        let mut m: usize = 0;
        let mut k: usize = 1;
        while k < rest.len()
            invariant
                restv == rest.deep_view(),
                rest.len() > 0,
                0 <= m < rest.len(),
                1 <= k <= rest.len(),
                forall|j: int| 0 <= j < k ==> restv[m as int].1 >= (#[trigger] restv[j]).1,
            decreases rest.len() - k,
        {
            if rest[k].1 > rest[m].1 {
                m = k;
            }
            k += 1;
        }
        let ghost prev_out = out.deep_view();
        let picked = rest.remove(m);
        out.push(picked);
        proof {
            assert(rest.deep_view() =~~= restv.remove(m as int));
            assert(out.deep_view() =~~= prev_out.push(restv[m as int]));
            assert(forall|k2: int|
                0 <= k2 < rest.deep_view().len() ==> #[trigger] rest.deep_view()[k2] == (if k2 < m {
                    restv[k2]
                } else {
                    restv[k2 + 1]
                }));
            assert forall|h: int| 0 <= h < accv.len() implies out.deep_view().contains(
                #[trigger] accv[h],
            ) || rest.deep_view().contains(accv[h]) by {
                if prev_out.contains(accv[h]) {
                    let k2 = choose|k2: int| 0 <= k2 < prev_out.len() && prev_out[k2] == accv[h];
                    assert(out.deep_view()[k2] == accv[h]);
                } else {
                    let k2 = choose|k2: int| 0 <= k2 < restv.len() && restv[k2] == accv[h];
                    if k2 == m {
                        assert(out.deep_view()[out.deep_view().len() - 1] == accv[h]);
                    } else if k2 < m {
                        assert(rest.deep_view()[k2] == accv[h]);
                    } else {
                        assert(rest.deep_view()[k2 - 1] == accv[h]);
                    }
                }
            }
        }
    }
    proof {
        assert forall|h: int| 0 <= h < accv.len() implies out.deep_view().contains(
            #[trigger] accv[h],
        ) by {
            assert(!rest.deep_view().contains(accv[h]));
        }
    }
    out
}

} // verus!
