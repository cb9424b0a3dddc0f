//! Progress multiplexer registry: one entry per stage name a module reports
//! through the callback. The registry is the state behind the single lock of
//! the multiplexer; every callback invocation, from whatever thread the
//! module chose, is serialized by that lock into one `report` call here.

use vstd::prelude::*;

verus! {

/// One visible progress indicator: an opaque stage name, unique in the
/// registry, and a position on the fixed 0–1000 scale.
pub struct ProgressEntry {
    pub name: String,
    pub position: u64,
}

/// What a report did: told apart so the display layer knows whether to make
/// a new indicator or move an existing one.
#[derive(PartialEq, Eq, Structural, Debug)]
pub enum ReportOutcome {
    Created,
    Updated,
}

/// The registry mapping stage names to indicator positions.
pub struct ProgressRegistry {
    entries: Vec<ProgressEntry>,
}

/// The map an entry sequence denotes, later entries winning.
pub open spec fn entries_map(s: Seq<ProgressEntry>) -> Map<Seq<char>, u64>
    decreases s.len(),
{
    if s.len() == 0 {
        Map::empty()
    } else {
        entries_map(s.drop_last()).insert(s.last().name@, s.last().position)
    }
}

/// Stage names are unique across the entries.
pub open spec fn entries_unique(s: Seq<ProgressEntry>) -> bool {
    forall|i: int, j: int| 0 <= i < j < s.len() ==> s[i].name@ != s[j].name@
}

/// Unique entries denote exactly their names, each at its own position.
proof fn lemma_entries_map_lookup(s: Seq<ProgressEntry>)
    requires
        entries_unique(s),
    ensures
        entries_map(s).dom().finite(),
        entries_map(s).dom().len() == s.len(),
        forall|i: int| 0 <= i < s.len() ==> entries_map(s).dom().contains(#[trigger] s[i].name@),
        forall|i: int|
            0 <= i < s.len() ==> entries_map(s)[#[trigger] s[i].name@] == s[i].position,
        forall|nm: Seq<char>|
            #[trigger] entries_map(s).dom().contains(nm) ==> exists|i: int|
                0 <= i < s.len() && #[trigger] s[i].name@ == nm,
    decreases s.len(),
{
    if s.len() > 0 {
        let t = s.drop_last();
        let last = s.last();
        assert(entries_unique(t)) by {
            assert forall|i: int, j: int| 0 <= i < j < t.len() implies t[i].name@ != t[j].name@ by {
                assert(s[i].name@ != s[j].name@);
            }
        }
        lemma_entries_map_lookup(t);
        assert(!entries_map(t).dom().contains(last.name@)) by {
            if entries_map(t).dom().contains(last.name@) {
                let i = choose|i: int| 0 <= i < t.len() && #[trigger] t[i].name@ == last.name@;
                assert(s[i].name@ == s[s.len() - 1].name@);
            }
        }
        assert forall|i: int| 0 <= i < s.len() implies entries_map(s).dom().contains(
            #[trigger] s[i].name@,
        ) by {
            if i < s.len() - 1 {
                assert(t[i].name@ == s[i].name@);
                assert(entries_map(t).dom().contains(t[i].name@));
            }
        }
        assert forall|i: int| 0 <= i < s.len() implies entries_map(s)[#[trigger] s[i].name@]
            == s[i].position by {
            if i < s.len() - 1 {
                assert(t[i].name@ == s[i].name@);
                assert(entries_map(t)[t[i].name@] == t[i].position);
                assert(s[i].name@ != last.name@);
            }
        }
        assert forall|nm: Seq<char>| #[trigger] entries_map(s).dom().contains(nm) implies exists|
            i: int,
        |
            0 <= i < s.len() && #[trigger] s[i].name@ == nm by {
            if nm == last.name@ {
                assert(s[s.len() - 1].name@ == nm);
            } else {
                let i = choose|i: int| 0 <= i < t.len() && #[trigger] t[i].name@ == nm;
                assert(s[i].name@ == nm);
            }
        }
    }
}

impl View for ProgressRegistry {
    type V = Map<Seq<char>, u64>;

    closed spec fn view(&self) -> Map<Seq<char>, u64> {
        entries_map(self.entries@)
    }
}

impl ProgressRegistry {
    /// The registry's internal invariant: one entry per stage name.
    pub closed spec fn wf(&self) -> bool {
        entries_unique(self.entries@)
    }

    /// A fresh registry, as the orchestrator makes it before a work unit.
    pub fn new() -> (r: ProgressRegistry)
        ensures
            r.wf(),
            r@ == Map::<Seq<char>, u64>::empty(),
    {
        ProgressRegistry { entries: Vec::new() }
    }

    /// One serialized callback invocation: update the indicator of a known
    /// stage name, or register a new one — never both, so a repeated name
    /// can only move its one indicator.
    pub fn report(&mut self, name: &String, position: u64) -> (outcome: ReportOutcome)
        requires
            old(self).wf(),
        ensures
            final(self).wf(),
            final(self)@ == old(self)@.insert(name@, position),
            outcome == ReportOutcome::Created <==> !old(self)@.dom().contains(name@),
    {
        let n = self.entries.len();
        let mut i: usize = 0;
        while i < n
            invariant
                old(self).wf(),
                self.entries@ == old(self).entries@,
                n == self.entries@.len(),
                0 <= i <= n,
                forall|j: int| 0 <= j < i ==> self.entries@[j].name@ != name@,
            decreases n - i,
        {
            if self.entries[i].name == *name {
                let ghost s = self.entries@;
                proof {
                    assert(s[i as int].name@ == name@);
                }
                self.entries[i].position = position;
                proof {
                    lemma_entries_map_lookup(s);
                    assert(entries_map(s).dom().contains(s[i as int].name@));
                    lemma_entries_map_update(s, i as int, self.entries@[i as int]);
                }
                return ReportOutcome::Updated;
            }
            i += 1;
        }
        let ghost s = self.entries@;
        proof {
            lemma_entries_map_lookup(s);
        }
        self.entries.push(ProgressEntry { name: name.clone(), position });
        proof {
            let t = self.entries@;
            assert(t.drop_last() =~= s);
            assert(t.last().name@ == name@);
            assert forall|a: int, b: int| 0 <= a < b < t.len() implies t[a].name@ != t[b].name@ by {
                if b == t.len() - 1 {
                    assert(s[a].name@ != name@);
                } else {
                    assert(s[a].name@ != s[b].name@);
                }
            }
            if entries_map(s).dom().contains(name@) {
                let w = choose|w: int| 0 <= w < s.len() && #[trigger] s[w].name@ == name@;
                assert(false);
            }
        }
        ReportOutcome::Created
    }

    /// How many indicators are on display.
    pub fn count(&self) -> (n: usize)
        requires
            self.wf(),
        ensures
            n == self@.dom().len(),
    {
        proof {
            lemma_entries_map_lookup(self.entries@);
        }
        self.entries.len()
    }

    /// The recorded position of a stage, if it ever reported.
    pub fn position_of(&self, name: &String) -> (r: Option<u64>)
        requires
            self.wf(),
        ensures
            r matches Some(p) ==> self@.dom().contains(name@) && self@[name@] == p,
            r is None <==> !self@.dom().contains(name@),
    {
        let n = self.entries.len();
        let mut i: usize = 0;
        while i < n
            invariant
                self.wf(),
                n == self.entries@.len(),
                0 <= i <= n,
                forall|j: int| 0 <= j < i ==> self.entries@[j].name@ != name@,
            decreases n - i,
        {
            if self.entries[i].name == *name {
                proof {
                    lemma_entries_map_lookup(self.entries@);
                    assert(self.entries@[i as int].name@ == name@);
                    assert(entries_map(self.entries@)[self.entries@[i as int].name@]
                        == self.entries@[i as int].position);
                    assert(entries_map(self.entries@).dom().contains(
                        self.entries@[i as int].name@,
                    ));
                }
                return Some(self.entries[i].position);
            }
            i += 1;
        }
        proof {
            lemma_entries_map_lookup(self.entries@);
            if self@.dom().contains(name@) {
                let w = choose|w: int|
                    0 <= w < self.entries@.len() && #[trigger] self.entries@[w].name@ == name@;
                assert(false);
            }
        }
        None
    }

    /// Tear-down at the end of a work unit: the next input file starts with
    /// a clean display.
    pub fn clear(&mut self)
        ensures
            final(self).wf(),
            final(self)@ == Map::<Seq<char>, u64>::empty(),
    {
        self.entries = Vec::new();
    }
}

/// Replacing the position of the entry that holds a name denotes the same
/// map as inserting that name anew.
proof fn lemma_entries_map_update(s: Seq<ProgressEntry>, k: int, e: ProgressEntry)
    requires
        entries_unique(s),
        0 <= k < s.len(),
        e.name@ == s[k].name@,
    ensures
        entries_unique(s.update(k, e)),
        entries_map(s.update(k, e)) == entries_map(s).insert(e.name@, e.position),
    decreases s.len(),
{
    let t = s.update(k, e);
    if k == s.len() - 1 {
        assert(t.drop_last() =~= s.drop_last());
        assert(entries_map(t) =~= entries_map(s).insert(e.name@, e.position));
    } else {
        assert(t.drop_last() =~= s.drop_last().update(k, e));
        lemma_entries_map_update(s.drop_last(), k, e);
        assert(t.last() == s.last());
        assert(s[k].name@ != s.last().name@);
        assert(entries_map(t) =~= entries_map(s).insert(e.name@, e.position));
    }
}

/// Idempotence law: a repeated report for a stage never makes a second
/// entry — the registry after two reports under one name is the registry
/// after the later one alone, and the second report finds the name already
/// registered.
pub proof fn lemma_repeat_report_updates(
    m: Map<Seq<char>, u64>,
    name: Seq<char>,
    p1: u64,
    p2: u64,
)
    ensures
        m.insert(name, p1).insert(name, p2) == m.insert(name, p2),
        m.insert(name, p1).dom().contains(name),
{
    assert(m.insert(name, p1).insert(name, p2) =~= m.insert(name, p2));
}

/// The registry after a series of serialized reports: `report` makes each
/// step an insert, so a whole schedule is this fold.
pub open spec fn apply_reports(m: Map<Seq<char>, u64>, reports: Seq<(Seq<char>, u64)>) -> Map<
    Seq<char>,
    u64,
>
    decreases reports.len(),
{
    if reports.len() == 0 {
        m
    } else {
        apply_reports(m.insert(reports[0].0, reports[0].1), reports.drop_first())
    }
}

/// The stage names a schedule of reports carries.
pub open spec fn report_names(reports: Seq<(Seq<char>, u64)>) -> Seq<Seq<char>> {
    reports.map_values(|r: (Seq<char>, u64)| r.0)
}

/// A schedule of reports registers exactly its names on top of what was
/// there.
pub proof fn lemma_reports_register_names(m: Map<Seq<char>, u64>, reports: Seq<(Seq<char>, u64)>)
    ensures
        apply_reports(m, reports).dom() =~= m.dom() + report_names(reports).to_set(),
    decreases reports.len(),
{
    if reports.len() > 0 {
        let m1 = m.insert(reports[0].0, reports[0].1);
        let rest = reports.drop_first();
        lemma_reports_register_names(m1, rest);
        assert(report_names(rest) =~= report_names(reports).drop_first());
        assert(report_names(reports).to_set() =~= report_names(rest).to_set().insert(
            reports[0].0,
        )) by {
            let names = report_names(reports);
            assert forall|nm: Seq<char>| names.to_set().contains(nm) implies report_names(
                rest,
            ).to_set().insert(reports[0].0).contains(nm) by {
                let i = choose|i: int| 0 <= i < names.len() && names[i] == nm;
                if i > 0 {
                    assert(report_names(rest)[i - 1] == nm);
                    assert(report_names(rest).contains(nm));
                }
            }
            assert forall|nm: Seq<char>| report_names(rest).to_set().insert(reports[0].0).contains(
                nm,
            ) implies names.to_set().contains(nm) by {
                if nm == reports[0].0 {
                    assert(names[0] == nm);
                } else {
                    let i = choose|i: int|
                        0 <= i < report_names(rest).len() && report_names(rest)[i] == nm;
                    assert(names[i + 1] == nm);
                }
                assert(names.contains(nm));
            }
        }
        assert(apply_reports(m, reports).dom() =~= m.dom() + report_names(reports).to_set());
    }
}

/// A name no later report touches keeps its binding through the schedule.
proof fn lemma_reports_preserve_absent(
    m: Map<Seq<char>, u64>,
    reports: Seq<(Seq<char>, u64)>,
    nm: Seq<char>,
)
    requires
        !report_names(reports).contains(nm),
        m.dom().contains(nm),
    ensures
        apply_reports(m, reports).dom().contains(nm),
        apply_reports(m, reports)[nm] == m[nm],
    decreases reports.len(),
{
    if reports.len() > 0 {
        assert(report_names(reports)[0] != nm);
        assert forall|i: int| 0 <= i < report_names(reports.drop_first()).len() implies report_names(
            reports.drop_first(),
        )[i] != nm by {
            assert(report_names(reports)[i + 1] == report_names(reports.drop_first())[i]);
        }
        lemma_reports_preserve_absent(m.insert(reports[0].0, reports[0].1), reports.drop_first(), nm);
    }
}

/// Concurrency law for the multiplexer: however the lock serializes N
/// callback invocations with pairwise distinct stage names, afterwards every
/// one of the N stages is registered at exactly the position it reported —
/// no report is lost — and, starting from an empty registry, there are
/// exactly N entries.
pub proof fn lemma_distinct_reports_all_registered(
    m: Map<Seq<char>, u64>,
    reports: Seq<(Seq<char>, u64)>,
)
    requires
        report_names(reports).no_duplicates(),
    ensures
        forall|i: int|
            0 <= i < reports.len() ==> {
                &&& apply_reports(m, reports).dom().contains(#[trigger] reports[i].0)
                &&& apply_reports(m, reports)[reports[i].0] == reports[i].1
            },
        m.dom() =~= Set::<Seq<char>>::empty() ==> apply_reports(m, reports).dom().len()
            == reports.len(),
    decreases reports.len(),
{
    if reports.len() > 0 {
        let m1 = m.insert(reports[0].0, reports[0].1);
        let rest = reports.drop_first();
        assert(report_names(rest) =~= report_names(reports).drop_first());
        lemma_distinct_reports_all_registered(m1, rest);
        assert(!report_names(rest).contains(reports[0].0)) by {
            if report_names(rest).contains(reports[0].0) {
                let i = choose|i: int|
                    0 <= i < report_names(rest).len() && report_names(rest)[i] == reports[0].0;
                assert(report_names(reports)[i + 1] == reports[0].0);
                assert(report_names(reports)[0] == reports[0].0);
            }
        }
        lemma_reports_preserve_absent(m1, rest, reports[0].0);
        assert forall|i: int| 0 <= i < reports.len() implies {
            &&& apply_reports(m, reports).dom().contains(#[trigger] reports[i].0)
            &&& apply_reports(m, reports)[reports[i].0] == reports[i].1
        } by {
            if i > 0 {
                assert(rest[i - 1] == reports[i]);
            }
        }
        if m.dom() =~= Set::<Seq<char>>::empty() {
            lemma_reports_register_names(m, reports);
            report_names(reports).unique_seq_to_set();
            assert(apply_reports(m, reports).dom() =~= report_names(reports).to_set());
        }
    }
}

/// Blank padding to a fixed width, for aligned display labels.
pub open spec fn spaces(n: nat) -> Seq<char> {
    Seq::new(n, |i: int| ' ')
}

/// A stage name left-padded to the display width; longer names are shown as
/// they are.
pub open spec fn padded(s: Seq<char>, width: nat) -> Seq<char> {
    if s.len() >= width {
        s
    } else {
        spaces((width - s.len()) as nat) + s
    }
}

/// The display label for a stage: its name, left-padded to 16 characters so
/// the indicators line up.
pub fn padded_label(name: &String) -> (r: String)
    ensures
        r@ == padded(name@, 16),
{
    let n = name.as_str().unicode_len();
    if n >= 16 {
        return name.clone();
    }
    let width: usize = 16 - n;
    let mut out = String::new();
    let mut k: usize = 0;
    proof {
        reveal_strlit(" ");
        assert(out@ =~= spaces(0));
    }
    while k < width
        invariant
            0 <= k <= width,
            out@ =~= spaces(k as nat),
            " "@ =~= seq![' '],
        decreases width - k,
    {
        out.append(" ");
        proof {
            assert(out@ =~= spaces((k + 1) as nat));
        }
        k += 1;
    }
    out.append(name.as_str());
    proof {
        assert(out@ =~= padded(name@, 16));
    }
    out
}

} // verus!
