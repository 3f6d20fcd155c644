//! Which column of a variable group is used.

use vstd::prelude::*;

use crate::json::Entry;
use crate::laws::lag::spelled;
use crate::numeral::all_digits;
use crate::source::synoptic::{best_of, number_of, picked, sensor_of, Column};

verus! {

/// The name of a column of a group.
pub open spec fn column_name(group: Seq<char>, digits: Seq<char>, derived: bool) -> Seq<char> {
    if derived {
        group + "_set_"@ + digits + seq!['d']
    } else {
        group + "_set_"@ + digits
    }
}

/// Digits, at least one.
pub open spec fn some_digits(s: Seq<char>) -> bool {
    s.len() > 0 && forall|i: int| 0 <= i < s.len() ==> '0' <= #[trigger] s[i] <= '9'
}

/// A name that is made of the group and a number, with or without the mark of a
/// derived value, is that of a column of the group; and no other name is.
pub proof fn law_columns_are_known_by_their_names(
    name: Seq<char>,
    group: Seq<char>,
    digits: Seq<char>,
    derived: bool,
)
    ensures
        some_digits(digits) ==> (sensor_of(column_name(group, digits, derived), group) matches Some(
            s,
        ) && s.digits == digits && s.derived == derived),
        sensor_of(name, group) matches Some(s) ==> some_digits(s.digits) && name == column_name(
            group,
            s.digits,
            s.derived,
        ),
{
    let prefix = group + "_set_"@;
    let n = prefix.len() as int;
    if some_digits(digits) {
        let made = column_name(group, digits, derived);
        assert(all_digits(digits));
        assert(made.take(n) =~= prefix);
        if derived {
            assert(made.skip(n) =~= digits.push('d'));
            assert(made.skip(n).drop_last() =~= digits);
        } else {
            assert(made.skip(n) =~= digits);
            assert(digits[digits.len() - 1] != 'd');
        }
    }
    if let Some(s) = sensor_of(name, group) {
        assert(name =~= name.take(n) + name.skip(n));
        assert(name =~= column_name(group, s.digits, s.derived));
    }
}

/// Numbers of sensors are compared as numbers.
proof fn lemma_number(s: Seq<char>)
    requires
        forall|i: int| 0 <= i < s.len() ==> '0' <= #[trigger] s[i] <= '9',
    ensures
        number_of(s) == spelled(s),
    decreases s.len(),
{
    if s.len() > 0 {
        let head = s.drop_last();
        assert forall|i: int| 0 <= i < head.len() implies '0' <= #[trigger] head[i] <= '9' by {
            assert('0' <= s[i] <= '9');
        }
        lemma_number(head);
        assert('0' <= s[s.len() - 1] <= '9');
    }
}

/// The column that is used is one of the group. None of the group has a lower
/// number, and none of the same number is measured where it is derived.
pub proof fn law_the_lowest_measured_column_is_used(
    entries: Seq<Entry<Column>>,
    group: Seq<char>,
    i: int,
    digits: Seq<char>,
    derived: bool,
)
    requires
        0 <= i < entries.len(),
        some_digits(digits),
        entries[i].name@ == column_name(group, digits, derived),
    ensures
        ({
            let found = best_of(entries, group);
            &&& found matches Some(k) && 0 <= k < entries.len() && picked(entries, group) == Some(
                entries[k].value,
            )
            &&& sensor_of(entries[found->0].name@, group) matches Some(s) && spelled(s.digits)
                <= spelled(digits) && (spelled(s.digits) == spelled(digits) && !derived
                ==> !s.derived)
        }),
{
    law_columns_are_known_by_their_names(entries[i].name@, group, digits, derived);
    crate::source::synoptic::law_the_picked_column_is_the_lowest(entries, group, i);
    let k = best_of(entries, group)->0;
    let s = sensor_of(entries[k].name@, group)->0;
    law_columns_are_known_by_their_names(entries[k].name@, group, s.digits, s.derived);
    lemma_number(digits);
    lemma_number(s.digits);
}

/// Where no column is named for the group, none is used.
pub proof fn law_no_column_of_another_group_is_used(entries: Seq<Entry<Column>>, group: Seq<char>)
    requires
        forall|i: int|
            0 <= i < entries.len() ==> sensor_of((#[trigger] entries[i]).name@, group) is None,
    ensures
        picked(entries, group) is None,
{
    crate::source::synoptic::lemma_best_is_a_sensor(entries, group);
}

} // verus!
