//! What holds of every walk, every decoded attribute and every evaluation.
//!
//! The laws about walks speak of `replay`, the state a walk is in after a
//! sequence of visits; `Walker::visit` and `walk` are specified by it.
use vstd::prelude::*;
use crate::decode::{lossy_text, name_of, DecodedNameModel};
use crate::handlers::{last_named, subprogram_of, variable_of};
use crate::location::{static_offset, stop_after, FRAME_BASE, OPERATION_BUDGET, RESULT_MASK};
use crate::machine::{settled_offset, Step};
use crate::model::{
    kind_of_tag, AttributeModel, Encoding, EntryKind, EntryModel, SubprogramModel, VariableModel,
    DW_AT_LOCATION,
};
use crate::walker::{initial, replay, visit_spec, Visit};

verus! {

/// Whether a visit is that of a subprogram entry.
pub open spec fn opens(v: Visit) -> bool {
    kind_of_tag(v.entry.tag) == EntryKind::Subprogram
}

/// Whether a visit is that of a variable entry.
pub open spec fn declares(v: Visit) -> bool {
    kind_of_tag(v.entry.tag) == EntryKind::Variable
}

/// The linkage name under which a subprogram entry is recorded.
pub open spec fn key_of(v: Visit) -> Seq<char> {
    subprogram_of(v.entry).linkage_name
}

/// Whether none of the visits from `from` up to but not including `to` is
/// that of a subprogram entry.
pub open spec fn none_opens(visits: Seq<Visit>, from: int, to: int) -> bool {
    forall|i: int| from <= i < to ==> !opens(#[trigger] visits[i])
}

/// The variables described by the variable entries among the visits from
/// `from` up to but not including `to`, in order.
pub open spec fn variables_in(encoding: Encoding, visits: Seq<Visit>, from: int, to: int) -> Seq<
    VariableModel,
>
    decreases to - from,
{
    if to <= from {
        Seq::empty()
    } else if declares(visits[to - 1]) {
        variables_in(encoding, visits, from, to - 1).push(
            variable_of(encoding, visits[to - 1].entry),
        )
    } else {
        variables_in(encoding, visits, from, to - 1)
    }
}

/// The record that the subprogram entry at `j` opens, with the variables met
/// from there up to but not including `to`.
pub open spec fn record_of(encoding: Encoding, visits: Seq<Visit>, j: int, to: int) -> SubprogramModel {
    SubprogramModel {
        variables: variables_in(encoding, visits, j + 1, to),
        ..subprogram_of(visits[j].entry)
    }
}

/// The state after `n + 1` visits is the state after `n`, taken through the
/// visit at `n`.
proof fn lemma_next(encoding: Encoding, visits: Seq<Visit>, n: int)
    requires
        0 <= n < visits.len(),
    ensures
        replay(encoding, visits.take(n + 1)) == visit_spec(
            encoding,
            replay(encoding, visits.take(n)),
            visits[n],
        ),
{
    assert(visits.take(n + 1).drop_last() =~= visits.take(n));
}

/// Before the first subprogram entry no function is current and the table
/// is empty.
proof fn lemma_nothing_opened(encoding: Encoding, visits: Seq<Visit>, n: int)
    requires
        0 <= n <= visits.len(),
        none_opens(visits, 0, n),
    ensures
        replay(encoding, visits.take(n)).current is None,
        replay(encoding, visits.take(n)).table == Map::<Seq<char>, SubprogramModel>::empty(),
    decreases n,
{
    if n > 0 {
        lemma_nothing_opened(encoding, visits, n - 1);
        lemma_next(encoding, visits, n - 1);
        assert(!opens(visits[n - 1]));
    }
}

/// Two walks that stand at the same function with the same table stay that
/// way while they visit the same entries.
proof fn lemma_same_tail(encoding: Encoding, a: Seq<Visit>, b: Seq<Visit>, skipped: int, n: int)
    requires
        0 <= skipped <= a.len(),
        b == a.skip(skipped),
        skipped <= n <= a.len(),
        replay(encoding, a.take(skipped)).current == initial().current,
        replay(encoding, a.take(skipped)).table == initial().table,
    ensures
        replay(encoding, a.take(n)).current == replay(encoding, b.take(n - skipped)).current,
        replay(encoding, a.take(n)).table == replay(encoding, b.take(n - skipped)).table,
    decreases n - skipped,
{
    if n == skipped {
        assert(b.take(0) =~= Seq::<Visit>::empty());
    } else {
        lemma_same_tail(encoding, a, b, skipped, n - 1);
        lemma_next(encoding, a, n - 1);
        lemma_next(encoding, b, n - 1 - skipped);
        assert(b[n - 1 - skipped] == a[n - 1]);
    }
}

/// Orphans are dropped. Variable entries met before any subprogram entry
/// leave no trace: the table is the one that the walk would have gathered
/// had it begun at the first subprogram entry.
pub proof fn law_orphans_are_dropped(encoding: Encoding, visits: Seq<Visit>, n: int)
    requires
        0 <= n <= visits.len(),
        none_opens(visits, 0, n),
    ensures
        replay(encoding, visits.take(n)).table == Map::<Seq<char>, SubprogramModel>::empty(),
        replay(encoding, visits).table == replay(encoding, visits.skip(n)).table,
{
    lemma_nothing_opened(encoding, visits, n);
    lemma_same_tail(encoding, visits, visits.skip(n), n, visits.len() as int);
    assert(visits.take(visits.len() as int) =~= visits);
    assert(visits.skip(n).take(visits.len() - n) =~= visits.skip(n));
}

/// Attribution. From a subprogram entry on, and for as long as no further
/// subprogram entry is met, that function is current, and its record holds
/// what the entry says together with the variables of exactly the variable
/// entries met since, in the order in which they were met.
pub proof fn law_attribution(encoding: Encoding, visits: Seq<Visit>, j: int, n: int)
    requires
        0 <= j < n <= visits.len(),
        opens(visits[j]),
        none_opens(visits, j + 1, n),
    ensures
        replay(encoding, visits.take(n)).current == Some(key_of(visits[j])),
        replay(encoding, visits.take(n)).table.dom().contains(key_of(visits[j])),
        replay(encoding, visits.take(n)).table[key_of(visits[j])] == record_of(
            encoding,
            visits,
            j,
            n,
        ),
    decreases n - j,
{
    lemma_next(encoding, visits, n - 1);
    if n == j + 1 {
        assert(variables_in(encoding, visits, j + 1, n) =~= Seq::<VariableModel>::empty());
    } else {
        law_attribution(encoding, visits, j, n - 1);
        assert(!opens(visits[n - 1]));
    }
}

/// A record is not touched by entries of other functions: once a subprogram
/// entry with another linkage name has been met, the record under `key` stays
/// as it is until a subprogram entry with that name comes.
proof fn lemma_untouched(encoding: Encoding, visits: Seq<Visit>, key: Seq<char>, n: int, m: int)
    requires
        0 <= n < m <= visits.len(),
        opens(visits[n]),
        forall|i: int| n <= i < m && opens(#[trigger] visits[i]) ==> key_of(visits[i]) != key,
        replay(encoding, visits.take(n)).table.dom().contains(key),
    ensures
        replay(encoding, visits.take(m)).current is Some,
        replay(encoding, visits.take(m)).current != Some(key),
        replay(encoding, visits.take(m)).table.dom().contains(key),
        replay(encoding, visits.take(m)).table[key] == replay(encoding, visits.take(n)).table[key],
    decreases m - n,
{
    lemma_next(encoding, visits, m - 1);
    if m > n + 1 {
        lemma_untouched(encoding, visits, key, n, m - 1);
    }
}

/// Last write wins. Where several subprogram entries share a linkage name,
/// the table holds one record under that name: what the last of them says,
/// with the variables met after it and before the next subprogram entry, and
/// nothing of what the earlier ones gathered.
pub proof fn law_last_write_wins(encoding: Encoding, visits: Seq<Visit>, j: int, next: int)
    requires
        0 <= j < next <= visits.len(),
        opens(visits[j]),
        none_opens(visits, j + 1, next),
        next < visits.len() ==> opens(visits[next]),
        forall|i: int|
            j < i < visits.len() && opens(#[trigger] visits[i]) ==> key_of(visits[i]) != key_of(
                visits[j],
            ),
    ensures
        replay(encoding, visits).table.dom().contains(key_of(visits[j])),
        replay(encoding, visits).table[key_of(visits[j])] == record_of(encoding, visits, j, next),
{
    law_attribution(encoding, visits, j, next);
    assert(visits.take(visits.len() as int) =~= visits);
    if next < visits.len() {
        lemma_untouched(encoding, visits, key_of(visits[j]), next, visits.len() as int);
    }
}

/// The table has a record under a name exactly if a subprogram entry with
/// that linkage name has been visited: no other entry makes a record.
pub proof fn law_records_come_from_subprograms(
    encoding: Encoding,
    visits: Seq<Visit>,
    key: Seq<char>,
)
    ensures
        replay(encoding, visits).table.dom().contains(key) <==> exists|i: int|
            0 <= i < visits.len() && opens(#[trigger] visits[i]) && key_of(visits[i]) == key,
    decreases visits.len(),
{
    if visits.len() > 0 {
        let before = visits.drop_last();
        law_records_come_from_subprograms(encoding, before, key);
        let s = replay(encoding, before);
        let last = visits.len() - 1;
        if exists|i: int| 0 <= i < before.len() && opens(#[trigger] before[i]) && key_of(before[i]) == key {
            let i = choose|i: int|
                0 <= i < before.len() && opens(#[trigger] before[i]) && key_of(before[i]) == key;
            assert(opens(visits[i]) && key_of(visits[i]) == key);
        }
        if opens(visits[last]) && key_of(visits[last]) == key {
            assert(replay(encoding, visits).table.dom().contains(key));
        }
        if replay(encoding, visits).table.dom().contains(key) && !s.table.dom().contains(key) {
            assert(opens(visits[last]) && key_of(visits[last]) == key);
        }
        if exists|i: int| 0 <= i < visits.len() && opens(#[trigger] visits[i]) && key_of(visits[i]) == key {
            let i = choose|i: int|
                0 <= i < visits.len() && opens(#[trigger] visits[i]) && key_of(visits[i]) == key;
            if i < last {
                assert(opens(before[i]) && key_of(before[i]) == key);
            }
        }
    }
}

/// Decoder fallback. Every attribute decodes to a name: the text of its own
/// string where it has one, and the rendering of its raw value where it has
/// none.
pub proof fn law_decoder_fallback(attr: AttributeModel)
    ensures
        attr.value is Text ==> name_of(attr) == DecodedNameModel::Resolved(
            lossy_text(attr.value->Text_0),
        ),
        !(attr.value is Text) ==> name_of(attr) == DecodedNameModel::Fallback(attr.rendering),
{
}

/// A variable entry without a location attribute has no frame offset.
pub proof fn law_absent_location(encoding: Encoding, entry: EntryModel)
    requires
        forall|i: int| 0 <= i < entry.attrs.len() ==> (#[trigger] entry.attrs[i]).name != DW_AT_LOCATION,
    ensures
        variable_of(encoding, entry).frame_offset is None,
{
    lemma_not_named(entry.attrs, DW_AT_LOCATION);
}

/// Where no attribute is called `code`, there is no last one of that name.
proof fn lemma_not_named(attrs: Seq<AttributeModel>, code: u16)
    requires
        forall|i: int| 0 <= i < attrs.len() ==> (#[trigger] attrs[i]).name != code,
    ensures
        last_named(attrs, code) is None,
    decreases attrs.len(),
{
    if attrs.len() > 0 {
        lemma_not_named(attrs.drop_last(), code);
    }
}

/// Frame-relative constant. Where the machine asks for the frame base once
/// and then completes with the integer `k`, the static offset is `k`.
pub proof fn law_frame_relative_offset(expr: Seq<u8>, encoding: Encoding, k: i64)
    ensures
        ({
            &&& encoding.address_size <= 8
            &&& stop_after(expr, encoding, 0) == Step::NeedsFrameBase
            &&& stop_after(expr, encoding, 1) == Step::Complete
            &&& settled_offset(expr, encoding, OPERATION_BUDGET, FRAME_BASE, 1, RESULT_MASK)
                == Some(k)
        }) ==> static_offset(expr, encoding) == Some(k),
{
    reveal_with_fuel(crate::location::offset_from, 3);
}

/// Run-time input. Where the machine asks for anything but the frame base,
/// or fails, before it has completed, there is no static offset.
pub proof fn law_runtime_input_has_no_offset(expr: Seq<u8>, encoding: Encoding)
    ensures
        stop_after(expr, encoding, 0) == Step::Unsupported ==> static_offset(expr, encoding)
            is None,
        stop_after(expr, encoding, 0) == Step::Failed ==> static_offset(expr, encoding) is None,
        ({
            &&& stop_after(expr, encoding, 0) == Step::NeedsFrameBase
            &&& stop_after(expr, encoding, 1) != Step::Complete
            &&& stop_after(expr, encoding, 1) != Step::NeedsFrameBase
        }) ==> static_offset(expr, encoding) is None,
{
    reveal_with_fuel(crate::location::offset_from, 3);
}

} // verus!
