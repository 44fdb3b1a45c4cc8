//! Solar band-condition reports: grouping raw day/night entries into one
//! complete record per band, rejecting duplicate or incomplete data, and
//! rendering the report lines sorted by band name.

use vstd::prelude::*;
use crate::chars::{lex_le, lemma_lex_le_total, lemma_lex_le_trans, str_eq, str_le};

verus! {

/// A raw band-condition entry: a band name, a time period tag, and the
/// condition text for that period.
#[derive(Debug)]
pub struct BandData {
    pub name: String,
    pub time: String,
    pub condition: String,
}

/// Specification-level image of a raw band-condition entry.
pub struct BandDataView {
    pub name: Seq<char>,
    pub time: Seq<char>,
    pub condition: Seq<char>,
}

impl View for BandData {
    type V = BandDataView;

    open spec fn view(&self) -> BandDataView {
        BandDataView { name: self.name@, time: self.time@, condition: self.condition@ }
    }
}

/// A whole raw solar report: the update timestamp text and the entries.
#[derive(Debug)]
pub struct SolarData {
    pub updated: String,
    pub entries: Vec<BandData>,
}

/// A band's accumulator while grouping: each period slot fills at most
/// once.
#[derive(Debug)]
pub struct PossibleBandCondition {
    pub name: String,
    pub day: Option<String>,
    pub night: Option<String>,
}

/// Specification-level image of a band accumulator.
pub struct PossibleBandConditionView {
    pub name: Seq<char>,
    pub day: Option<Seq<char>>,
    pub night: Option<Seq<char>>,
}

impl View for PossibleBandCondition {
    type V = PossibleBandConditionView;

    open spec fn view(&self) -> PossibleBandConditionView {
        PossibleBandConditionView {
            name: self.name@,
            day: match self.day {
                Some(ref d) => Some(d@),
                None => None,
            },
            night: match self.night {
                Some(ref n) => Some(n@),
                None => None,
            },
        }
    }
}

/// A complete band record: both period slots present.
#[derive(Debug)]
pub struct BandCondition {
    pub name: String,
    pub day: String,
    pub night: String,
}

/// Specification-level image of a complete band record.
pub struct BandConditionView {
    pub name: Seq<char>,
    pub day: Seq<char>,
    pub night: Seq<char>,
}

impl View for BandCondition {
    type V = BandConditionView;

    open spec fn view(&self) -> BandConditionView {
        BandConditionView { name: self.name@, day: self.day@, night: self.night@ }
    }
}

/// Specification-level image of a `SolarError`.
pub enum SolarErrorView {
    DuplicateDay { band: Seq<char> },
    DuplicateNight { band: Seq<char> },
    UnknownPeriod { band: Seq<char>, time: Seq<char> },
    MissingDay { band: Seq<char> },
    MissingNight { band: Seq<char> },
}

/// Structurally well-formed but logically bad report data: a duplicate
/// slot, an unrecognized period tag, or an incomplete band.
#[derive(Debug)]
pub enum SolarError {
    DuplicateDay { band: String },
    DuplicateNight { band: String },
    UnknownPeriod { band: String, time: String },
    MissingDay { band: String },
    MissingNight { band: String },
}

impl View for SolarError {
    type V = SolarErrorView;

    open spec fn view(&self) -> SolarErrorView {
        match self {
            SolarError::DuplicateDay { band } => SolarErrorView::DuplicateDay { band: band@ },
            SolarError::DuplicateNight { band } => SolarErrorView::DuplicateNight { band: band@ },
            SolarError::UnknownPeriod { band, time } => SolarErrorView::UnknownPeriod {
                band: band@,
                time: time@,
            },
            SolarError::MissingDay { band } => SolarErrorView::MissingDay { band: band@ },
            SolarError::MissingNight { band } => SolarErrorView::MissingNight { band: band@ },
        }
    }
}

/// What grouping the entries yields: an accumulator per band in
/// first-seen order, or the first error.
pub enum GroupOutcome {
    Good(Seq<PossibleBandConditionView>),
    Bad(SolarErrorView),
}

/// The views of a sequence of raw entries.
pub open spec fn entry_views(s: Seq<BandData>) -> Seq<BandDataView> {
    s.map_values(|b: BandData| b@)
}

/// The views of a sequence of band accumulators.
pub open spec fn pbc_views(s: Seq<PossibleBandCondition>) -> Seq<PossibleBandConditionView> {
    s.map_values(|p: PossibleBandCondition| p@)
}

/// The views of a sequence of complete band records.
pub open spec fn record_views(s: Seq<BandCondition>) -> Seq<BandConditionView> {
    s.map_values(|b: BandCondition| b@)
}

/// The first accumulator index holding `name`, or `-1` if there is none.
pub open spec fn find_band(state: Seq<PossibleBandConditionView>, name: Seq<char>) -> int
    decreases state.len(),
{
    if state.len() == 0 {
        -1
    } else if state[0].name == name {
        0
    } else {
        let r = find_band(state.skip(1), name);
        if r == -1 {
            -1
        } else {
            1 + r
        }
    }
}

/// How one raw entry changes the grouping state: it fills the matching
/// period slot of its band, failing on an already-filled slot or an
/// unrecognized period tag.
pub open spec fn apply_entry(state: Seq<PossibleBandConditionView>, e: BandDataView) -> GroupOutcome {
    if e.time == "day"@ {
        let i = find_band(state, e.name);
        if i == -1 {
            GroupOutcome::Good(
                state.push(
                    PossibleBandConditionView { name: e.name, day: Some(e.condition), night: None },
                ),
            )
        } else if state[i].day is Some {
            GroupOutcome::Bad(SolarErrorView::DuplicateDay { band: e.name })
        } else {
            GroupOutcome::Good(
                state.update(
                    i,
                    PossibleBandConditionView {
                        name: state[i].name,
                        day: Some(e.condition),
                        night: state[i].night,
                    },
                ),
            )
        }
    } else if e.time == "night"@ {
        let i = find_band(state, e.name);
        if i == -1 {
            GroupOutcome::Good(
                state.push(
                    PossibleBandConditionView { name: e.name, day: None, night: Some(e.condition) },
                ),
            )
        } else if state[i].night is Some {
            GroupOutcome::Bad(SolarErrorView::DuplicateNight { band: e.name })
        } else {
            GroupOutcome::Good(
                state.update(
                    i,
                    PossibleBandConditionView {
                        name: state[i].name,
                        day: state[i].day,
                        night: Some(e.condition),
                    },
                ),
            )
        }
    } else {
        GroupOutcome::Bad(SolarErrorView::UnknownPeriod { band: e.name, time: e.time })
    }
}

/// Grouping a whole entry sequence, left to right, stopping at the first
/// failing entry.
pub open spec fn group_entries(entries: Seq<BandDataView>) -> GroupOutcome
    decreases entries.len(),
{
    if entries.len() == 0 {
        GroupOutcome::Good(Seq::empty())
    } else {
        match group_entries(entries.drop_last()) {
            GroupOutcome::Good(state) => apply_entry(state, entries.last()),
            GroupOutcome::Bad(e) => GroupOutcome::Bad(e),
        }
    }
}

/// Whether every band accumulator has both slots filled.
pub open spec fn complete_ok(state: Seq<PossibleBandConditionView>) -> bool {
    forall|i: int|
        0 <= i < state.len() ==> (#[trigger] state[i]).day is Some && state[i].night is Some
}

/// The first accumulator index missing a slot, or `-1` if all are
/// complete.
pub open spec fn first_incomplete(state: Seq<PossibleBandConditionView>) -> int
    decreases state.len(),
{
    if state.len() == 0 {
        -1
    } else if state[0].day is None || state[0].night is None {
        0
    } else {
        let r = first_incomplete(state.skip(1));
        if r == -1 {
            -1
        } else {
            1 + r
        }
    }
}

/// The error an incomplete state reports: the first incomplete band, its
/// day slot checked before its night slot.
pub open spec fn spec_completion_error(state: Seq<PossibleBandConditionView>) -> SolarErrorView {
    let i = first_incomplete(state);
    if state[i].day is None {
        SolarErrorView::MissingDay { band: state[i].name }
    } else {
        SolarErrorView::MissingNight { band: state[i].name }
    }
}

/// The complete records an all-complete state denotes, in state order.
pub open spec fn to_records(state: Seq<PossibleBandConditionView>) -> Seq<BandConditionView> {
    state.map_values(
        |p: PossibleBandConditionView|
            BandConditionView { name: p.name, day: p.day->0, night: p.night->0 },
    )
}

/// Insertion of a record into a name-sorted sequence, before the first
/// record whose name does not precede it.
pub open spec fn insert_by_name(sorted: Seq<BandConditionView>, r: BandConditionView) -> Seq<
    BandConditionView,
>
    decreases sorted.len(),
{
    if sorted.len() == 0 {
        seq![r]
    } else if lex_le(r.name, sorted[0].name) {
        seq![r] + sorted
    } else {
        seq![sorted[0]] + insert_by_name(sorted.skip(1), r)
    }
}

/// Insertion sort of records by band name.
pub open spec fn sort_records(s: Seq<BandConditionView>) -> Seq<BandConditionView>
    decreases s.len(),
{
    if s.len() == 0 {
        Seq::empty()
    } else {
        insert_by_name(sort_records(s.drop_last()), s.last())
    }
}

/// Whether records come in lexicographically non-decreasing name order.
pub open spec fn sorted_by_name(s: Seq<BandConditionView>) -> bool {
    forall|i: int, j: int| 0 <= i < j < s.len() ==> lex_le(s[i].name, s[j].name)
}

/// Every element of an insertion result is the inserted record or an
/// element of the original sequence.
proof fn lemma_insert_contains(s: Seq<BandConditionView>, r: BandConditionView, k: int)
    requires
        0 <= k < insert_by_name(s, r).len(),
    ensures
        insert_by_name(s, r).len() == s.len() + 1,
        insert_by_name(s, r)[k] == r || exists|j: int| 0 <= j < s.len() && insert_by_name(s, r)[k]
            == s[j],
    decreases s.len(),
{
    if s.len() == 0 {
    } else if lex_le(r.name, s[0].name) {
        if k > 0 {
            assert(insert_by_name(s, r)[k] == s[k - 1]);
        }
    } else {
        if k > 0 {
            lemma_insert_contains(s.skip(1), r, k - 1);
            if insert_by_name(s.skip(1), r)[k - 1] != r {
                let j = choose|j: int|
                    0 <= j < s.skip(1).len() && insert_by_name(s.skip(1), r)[k - 1] == s.skip(1)[j];
                assert(s.skip(1)[j] == s[j + 1]);
            }
        } else {
            lemma_insert_contains(s.skip(1), r, 0);
        }
    }
}

/// Inserting into a name-sorted sequence keeps it name-sorted.
proof fn lemma_insert_sorted(s: Seq<BandConditionView>, r: BandConditionView)
    requires
        sorted_by_name(s),
    ensures
        sorted_by_name(insert_by_name(s, r)),
    decreases s.len(),
{
    let out = insert_by_name(s, r);
    if s.len() == 0 {
    } else if lex_le(r.name, s[0].name) {
        assert forall|i: int, j: int| 0 <= i < j < out.len() implies lex_le(
            out[i].name,
            out[j].name,
        ) by {
            if i == 0 {
                if j > 1 {
                    lemma_lex_le_trans(r.name, s[0].name, s[j - 1].name);
                }
            } else {
                assert(out[i] == s[i - 1] && out[j] == s[j - 1]);
            }
        }
    } else {
        assert(forall|i: int, j: int|
            0 <= i < j < s.skip(1).len() ==> lex_le(
                #[trigger] s.skip(1)[i].name,
                #[trigger] s.skip(1)[j].name,
            ));
        lemma_insert_sorted(s.skip(1), r);
        let rest = insert_by_name(s.skip(1), r);
        lemma_lex_le_total(r.name, s[0].name);
        assert forall|i: int, j: int| 0 <= i < j < out.len() implies lex_le(
            out[i].name,
            out[j].name,
        ) by {
            if i == 0 {
                assert(out[j] == rest[j - 1]);
                lemma_insert_contains(s.skip(1), r, j - 1);
                if rest[j - 1] == r {
                } else {
                    let m = choose|m: int| 0 <= m < s.skip(1).len() && rest[j - 1] == s.skip(1)[m];
                    assert(s.skip(1)[m] == s[m + 1]);
                    assert(lex_le(s[0].name, s[m + 1].name));
                }
            } else {
                assert(out[i] == rest[i - 1] && out[j] == rest[j - 1]);
            }
        }
    }
}

/// Insertion adds exactly the inserted record to the contents.
proof fn lemma_insert_multiset(s: Seq<BandConditionView>, r: BandConditionView)
    ensures
        insert_by_name(s, r).to_multiset() == s.to_multiset().insert(r),
    decreases s.len(),
{
    broadcast use vstd::seq_lib::group_to_multiset_ensures;
    broadcast use vstd::multiset::group_multiset_axioms;
    broadcast use vstd::seq_lib::lemma_multiset_commutative;

    let out = insert_by_name(s, r);
    assert(seq![r].to_multiset() =~= vstd::multiset::Multiset::<BandConditionView>::empty().insert(r)) by {
        assert(seq![r] =~= Seq::<BandConditionView>::empty().push(r));
        assert(Seq::<BandConditionView>::empty().to_multiset()
            =~= vstd::multiset::Multiset::<BandConditionView>::empty());
    }
    if s.len() == 0 {
        assert(out =~= seq![r]);
        assert(out.to_multiset() =~= s.to_multiset().insert(r));
    } else if lex_le(r.name, s[0].name) {
        assert(out == seq![r] + s);
        assert((seq![r] + s).to_multiset() == seq![r].to_multiset().add(s.to_multiset()));
        assert(out.to_multiset() =~= s.to_multiset().insert(r));
    } else {
        lemma_insert_multiset(s.skip(1), r);
        let rest = insert_by_name(s.skip(1), r);
        assert(out == seq![s[0]] + rest);
        assert((seq![s[0]] + rest).to_multiset() == seq![s[0]].to_multiset().add(
            rest.to_multiset(),
        ));
        assert(s =~= seq![s[0]] + s.skip(1));
        assert(s.to_multiset() == seq![s[0]].to_multiset().add(s.skip(1).to_multiset()));
        assert(out.to_multiset() =~= s.to_multiset().insert(r));
    }
}

/// Sorting the records only reorders them: the sorted sequence holds
/// exactly the same records.
pub proof fn lemma_sort_records_permutes(s: Seq<BandConditionView>)
    ensures
        sort_records(s).to_multiset() == s.to_multiset(),
    decreases s.len(),
{
    broadcast use vstd::seq_lib::group_to_multiset_ensures;

    if s.len() > 0 {
        lemma_sort_records_permutes(s.drop_last());
        lemma_insert_multiset(sort_records(s.drop_last()), s.last());
        assert(s.drop_last().push(s.last()) =~= s);
        assert(s.drop_last().push(s.last()).to_multiset() =~= s.drop_last().to_multiset().insert(
            s.last(),
        ));
    }
}

/// Insertion sort by name sorts: its result is always name-sorted.
pub proof fn lemma_sort_records_sorted(s: Seq<BandConditionView>)
    ensures
        sorted_by_name(sort_records(s)),
    decreases s.len(),
{
    if s.len() > 0 {
        lemma_sort_records_sorted(s.drop_last());
        lemma_insert_sorted(sort_records(s.drop_last()), s.last());
    }
}

/// A scan that finds `name` first at `i` pins `find_band`.
proof fn lemma_find_band_at(state: Seq<PossibleBandConditionView>, name: Seq<char>, i: int)
    requires
        0 <= i < state.len(),
        forall|j: int| 0 <= j < i ==> (#[trigger] state[j]).name != name,
        state[i].name == name,
    ensures
        find_band(state, name) == i,
    decreases state.len(),
{
    if i > 0 {
        lemma_find_band_at(state.skip(1), name, i - 1);
    }
}

/// A scan that finds `name` nowhere pins `find_band` to `-1`.
proof fn lemma_find_band_none(state: Seq<PossibleBandConditionView>, name: Seq<char>)
    requires
        forall|j: int| 0 <= j < state.len() ==> (#[trigger] state[j]).name != name,
    ensures
        find_band(state, name) == -1,
    decreases state.len(),
{
    if state.len() > 0 {
        lemma_find_band_none(state.skip(1), name);
    }
}

/// A scan that finds the first incomplete accumulator at `i` pins
/// `first_incomplete`.
proof fn lemma_first_incomplete_at(state: Seq<PossibleBandConditionView>, i: int)
    requires
        0 <= i < state.len(),
        forall|j: int|
            0 <= j < i ==> (#[trigger] state[j]).day is Some && state[j].night is Some,
        state[i].day is None || state[i].night is None,
    ensures
        first_incomplete(state) == i,
    decreases state.len(),
{
    if i > 0 {
        lemma_first_incomplete_at(state.skip(1), i - 1);
    }
}

/// Once grouping has failed on a prefix, the rest of the entries change
/// nothing.
proof fn lemma_group_stays_bad(entries: Seq<BandDataView>, i: int)
    requires
        0 <= i <= entries.len(),
        group_entries(entries.take(i)) matches GroupOutcome::Bad(e),
    ensures
        group_entries(entries) == group_entries(entries.take(i)),
    decreases entries.len() - i,
{
    if i < entries.len() {
        assert(entries.take(i + 1).drop_last() =~= entries.take(i));
        lemma_group_stays_bad(entries, i + 1);
    } else {
        assert(entries.take(i) =~= entries);
    }
}

/// Finds the first accumulator holding `name`.
fn find_slot(state: &Vec<PossibleBandCondition>, name: &str) -> (r: Option<usize>)
    ensures
        match r {
            Some(i) => i < state@.len() && find_band(pbc_views(state@), name@) == i,
            None => find_band(pbc_views(state@), name@) == -1,
        },
{
    let n = state.len();
    let mut i: usize = 0;
    while i < n
        invariant
            n == state@.len(),
            0 <= i <= n,
            forall|j: int| 0 <= j < i ==> (#[trigger] pbc_views(state@)[j]).name != name@,
        decreases n - i,
    {
        if str_eq(state[i].name.as_str(), name) {
            proof {
                assert(pbc_views(state@)[i as int].name == name@);
                lemma_find_band_at(pbc_views(state@), name@, i as int);
            }
            return Some(i);
        }
        proof {
            assert(pbc_views(state@)[i as int].name != name@);
        }
        i = i + 1;
    }
    proof {
        lemma_find_band_none(pbc_views(state@), name@);
    }
    None
}

/// Inserts a record into a name-sorted vector, keeping the order that
/// `insert_by_name` defines.
fn insert_record(sorted: &mut Vec<BandCondition>, rec: BandCondition)
    ensures
        record_views(final(sorted)@) == insert_by_name(record_views(old(sorted)@), rec@),
{
    let n = sorted.len();
    let mut pos: usize = 0;
    while pos < n && !str_le(rec.name.as_str(), sorted[pos].name.as_str())
        invariant
            n == sorted@.len(),
            sorted@ == old(sorted)@,
            0 <= pos <= n,
            forall|j: int|
                0 <= j < pos ==> !lex_le(rec@.name, (#[trigger] record_views(sorted@)[j]).name),
        decreases n - pos,
    {
        proof {
            assert(record_views(sorted@)[pos as int].name == sorted@[pos as int].name@);
        }
        pos = pos + 1;
    }
    proof {
        if pos < n {
            assert(lex_le(rec@.name, record_views(sorted@)[pos as int].name));
        }
        lemma_insert_position(record_views(sorted@), rec@, pos as int);
    }
    let ghost orig = sorted@;
    sorted.insert(pos, rec);
    proof {
        assert(record_views(orig.insert(pos as int, rec)) =~= record_views(orig).insert(
            pos as int,
            rec@,
        ));
    }
}

/// An insertion position bounded by non-preceding names on the left and a
/// preceding name on the right pins `insert_by_name` to a plain sequence
/// insertion.
proof fn lemma_insert_position(s: Seq<BandConditionView>, r: BandConditionView, pos: int)
    requires
        0 <= pos <= s.len(),
        forall|j: int| 0 <= j < pos ==> !lex_le(r.name, (#[trigger] s[j]).name),
        pos < s.len() ==> lex_le(r.name, s[pos].name),
    ensures
        insert_by_name(s, r) == s.insert(pos, r),
    decreases s.len(),
{
    if s.len() == 0 {
        assert(insert_by_name(s, r) =~= s.insert(0, r));
    } else if pos == 0 {
        assert(insert_by_name(s, r) =~= s.insert(0, r));
    } else {
        lemma_insert_position(s.skip(1), r, pos - 1);
        assert(seq![s[0]] + s.skip(1).insert(pos - 1, r) =~= s.insert(pos, r));
    }
}

/// The display line of one complete band record.
pub open spec fn spec_band_line(b: BandConditionView) -> Seq<char> {
    b.name + " - day: "@ + b.day + ", night: "@ + b.night
}

/// The report's header line.
pub open spec fn spec_header_line(updated: Seq<char>) -> Seq<char> {
    "updated "@ + updated
}

/// Normalizes a raw solar report into its display lines: the header with
/// the update timestamp, then one line per band in lexicographic name
/// order. Fails on a duplicate slot, an unrecognized period tag, or a
/// band missing a slot, and never returns a partial report.
pub fn format_solar_data(data: &SolarData) -> (r: Result<Vec<String>, SolarError>)
    ensures
        match r {
            Ok(lines) => {
                &&& group_entries(entry_views(data.entries@)) matches GroupOutcome::Good(state)
                &&& {
                    let state = group_entries(entry_views(data.entries@))->Good_0;
                    let recs = sort_records(to_records(state));
                    &&& complete_ok(state)
                    &&& sorted_by_name(recs)
                    &&& lines@.len() == recs.len() + 1
                    &&& lines@[0]@ == spec_header_line(data.updated@)
                    &&& forall|k: int|
                        0 <= k < recs.len() ==> #[trigger] lines@[k + 1]@ == spec_band_line(
                            recs[k],
                        )
                }
            },
            Err(e) => match group_entries(entry_views(data.entries@)) {
                GroupOutcome::Bad(ge) => e@ == ge,
                GroupOutcome::Good(state) => !complete_ok(state) && e@ == spec_completion_error(
                    state,
                ),
            },
        },
{
    let ghost all = data.entries@;
    let n = data.entries.len();
    let mut state: Vec<PossibleBandCondition> = Vec::new();
    let mut i: usize = 0;
    proof {
        assert(entry_views(all.take(0)) =~= Seq::<BandDataView>::empty());
        assert(pbc_views(state@) =~= Seq::<PossibleBandConditionView>::empty());
    }
    while i < n
        invariant
            all == data.entries@,
            n == all.len(),
            0 <= i <= n,
            group_entries(entry_views(all.take(i as int))) == GroupOutcome::Good(
                pbc_views(state@),
            ),
        decreases n - i,
    {
        let e = &data.entries[i];
        proof {
            assert(entry_views(all.take(i + 1)).drop_last() =~= entry_views(all.take(i as int)));
            assert(entry_views(all.take(i + 1)).last() == all[i as int]@);
        }
        let ghost pre = pbc_views(state@);
        let is_day = str_eq(e.time.as_str(), "day");
        let is_night = if is_day {
            false
        } else {
            str_eq(e.time.as_str(), "night")
        };
        if !is_day && !is_night {
            proof {
                let q = entry_views(all);
                assert(group_entries(entry_views(all.take(i + 1)))
                    == GroupOutcome::Bad(
                    SolarErrorView::UnknownPeriod {
                        band: all[i as int]@.name,
                        time: all[i as int]@.time,
                    },
                ));
                assert(q.take(i + 1) =~= entry_views(all.take(i + 1)));
                lemma_group_stays_bad(q, i + 1);
            }
            return Err(SolarError::UnknownPeriod { band: e.name.clone(), time: e.time.clone() });
        }
        let slot = find_slot(&state, e.name.as_str());
        match slot {
            None => {
                let fresh = PossibleBandCondition {
                    name: e.name.clone(),
                    day: if is_day {
                        Some(e.condition.clone())
                    } else {
                        None
                    },
                    night: if is_night {
                        Some(e.condition.clone())
                    } else {
                        None
                    },
                };
                state.push(fresh);
                proof {
                    assert(pbc_views(state@) =~= pre.push(
                        PossibleBandConditionView {
                            name: all[i as int]@.name,
                            day: if is_day {
                                Some(all[i as int]@.condition)
                            } else {
                                None
                            },
                            night: if is_night {
                                Some(all[i as int]@.condition)
                            } else {
                                None
                            },
                        },
                    ));
                }
            },
            Some(idx) => {
                if is_day {
                    if state[idx].day.is_some() {
                        proof {
                            let q = entry_views(all);
                            assert(pre[idx as int].day is Some);
                            assert(group_entries(entry_views(all.take(i + 1)))
                                == GroupOutcome::Bad(
                                SolarErrorView::DuplicateDay { band: all[i as int]@.name },
                            ));
                            assert(q.take(i + 1) =~= entry_views(all.take(i + 1)));
                            lemma_group_stays_bad(q, i + 1);
                        }
                        return Err(SolarError::DuplicateDay { band: e.name.clone() });
                    }
                    let night = match &state[idx].night {
                        Some(s) => Some(s.clone()),
                        None => None,
                    };
                    let upd = PossibleBandCondition {
                        name: state[idx].name.clone(),
                        day: Some(e.condition.clone()),
                        night,
                    };
                    let ghost want = pre.update(
                        idx as int,
                        PossibleBandConditionView {
                            name: pre[idx as int].name,
                            day: Some(all[i as int]@.condition),
                            night: pre[idx as int].night,
                        },
                    );
                    let _gone = state.remove(idx);
                    state.insert(idx, upd);
                    proof {
                        assert(pbc_views(state@) =~= want);
                    }
                } else {
                    if state[idx].night.is_some() {
                        proof {
                            let q = entry_views(all);
                            assert(pre[idx as int].night is Some);
                            assert(group_entries(entry_views(all.take(i + 1)))
                                == GroupOutcome::Bad(
                                SolarErrorView::DuplicateNight { band: all[i as int]@.name },
                            ));
                            assert(q.take(i + 1) =~= entry_views(all.take(i + 1)));
                            lemma_group_stays_bad(q, i + 1);
                        }
                        return Err(SolarError::DuplicateNight { band: e.name.clone() });
                    }
                    let day = match &state[idx].day {
                        Some(s) => Some(s.clone()),
                        None => None,
                    };
                    let upd = PossibleBandCondition {
                        name: state[idx].name.clone(),
                        day,
                        night: Some(e.condition.clone()),
                    };
                    let ghost want = pre.update(
                        idx as int,
                        PossibleBandConditionView {
                            name: pre[idx as int].name,
                            day: pre[idx as int].day,
                            night: Some(all[i as int]@.condition),
                        },
                    );
                    let _gone = state.remove(idx);
                    state.insert(idx, upd);
                    proof {
                        assert(pbc_views(state@) =~= want);
                    }
                }
            },
        }
        i = i + 1;
    }
    proof {
        assert(all.take(n as int) =~= all);
    }
    // Completeness check and name-sorted record collection.
    let m = state.len();
    let mut sorted: Vec<BandCondition> = Vec::new();
    let mut k: usize = 0;
    proof {
        assert(record_views(sorted@) =~= Seq::<BandConditionView>::empty());
        assert(to_records(pbc_views(state@).take(0)) =~= Seq::<BandConditionView>::empty());
    }
    while k < m
        invariant
            all == data.entries@,
            n == all.len(),
            m == state@.len(),
            0 <= k <= m,
            group_entries(entry_views(all)) == GroupOutcome::Good(pbc_views(state@)),
            forall|j: int|
                0 <= j < k ==> (#[trigger] pbc_views(state@)[j]).day is Some && pbc_views(
                    state@,
                )[j].night is Some,
            record_views(sorted@) == sort_records(to_records(pbc_views(state@).take(k as int))),
        decreases m - k,
    {
        let ghost sv = pbc_views(state@);
        let day = match &state[k].day {
            Some(s) => s.clone(),
            None => {
                proof {
                    assert(sv.len() == state@.len());
                    assert(sv[k as int] == state@[k as int]@);
                    lemma_first_incomplete_at(sv, k as int);
                    assert(!(sv[k as int].day is Some && sv[k as int].night is Some));
                    assert(!complete_ok(sv));
                    assert(spec_completion_error(sv) == (SolarErrorView::MissingDay {
                        band: sv[k as int].name,
                    }));
                    assert(group_entries(entry_views(data.entries@)) == GroupOutcome::Good(sv));
                }
                return Err(SolarError::MissingDay { band: state[k].name.clone() });
            },
        };
        let night = match &state[k].night {
            Some(s) => s.clone(),
            None => {
                proof {
                    assert(sv.len() == state@.len());
                    assert(sv[k as int] == state@[k as int]@);
                    lemma_first_incomplete_at(sv, k as int);
                    assert(!(sv[k as int].day is Some && sv[k as int].night is Some));
                    assert(!complete_ok(sv));
                    assert(spec_completion_error(sv) == (SolarErrorView::MissingNight {
                        band: sv[k as int].name,
                    }));
                    assert(group_entries(entry_views(data.entries@)) == GroupOutcome::Good(sv));
                }
                return Err(SolarError::MissingNight { band: state[k].name.clone() });
            },
        };
        let rec = BandCondition { name: state[k].name.clone(), day, night };
        proof {
            assert(to_records(sv.take(k + 1)).drop_last() =~= to_records(sv.take(k as int)));
            assert(to_records(sv.take(k + 1)).last() == rec@);
        }
        insert_record(&mut sorted, rec);
        k = k + 1;
    }
    proof {
        let sv = pbc_views(state@);
        assert(sv.take(m as int) =~= sv);
        lemma_sort_records_sorted(to_records(sv));
    }
    // Render the lines.
    let mut lines: Vec<String> = Vec::new();
    proof {
        reveal_strlit("updated ");
    }
    let mut header = String::from_str("updated ");
    header.append(data.updated.as_str());
    proof {
        assert(header@ =~= spec_header_line(data.updated@));
    }
    lines.push(header);
    let c = sorted.len();
    let mut w: usize = 0;
    let ghost recs = record_views(sorted@);
    while w < c
        invariant
            c == sorted@.len(),
            0 <= w <= c,
            recs == record_views(sorted@),
            lines@.len() == w + 1,
            lines@[0]@ == spec_header_line(data.updated@),
            forall|j: int| 0 <= j < w ==> #[trigger] lines@[j + 1]@ == spec_band_line(recs[j]),
        decreases c - w,
    {
        proof {
            reveal_strlit(" - day: ");
            reveal_strlit(", night: ");
        }
        let mut line = sorted[w].name.clone();
        line.append(" - day: ");
        line.append(sorted[w].day.as_str());
        line.append(", night: ");
        line.append(sorted[w].night.as_str());
        proof {
            assert(line@ =~= spec_band_line(recs[w as int]));
        }
        lines.push(line);
        w = w + 1;
    }
    Ok(lines)
}

} // verus!
