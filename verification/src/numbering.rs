//! What holds of run numbers whatever the archive directory looks like.

use crate::decimal::{
    all_digits,
    decimal,
    is_digit,
    lemma_decimal_digits,
    lemma_parse_decimal,
    parse_u32,
    unsigned_body,
};
use crate::naming::{
    entry_run_number,
    highest_run,
    is_date_text,
    is_run_dir_for_date,
    lemma_highest_run_is_maximum,
    next_run_number,
    run_dir_name,
    run_prefix,
    script_basename,
    NamingError,
};
use crate::paths::path_join;
use vstd::prelude::*;

verus! {

/// The next run number is above every number that an entry carries, and
/// directly above one of them unless it is 1. So gaps among the numbers
/// taken are never filled.
pub proof fn lemma_next_run_is_above_all(entries: Seq<Seq<char>>, prefix: Seq<char>)
    ensures
        forall|i: int|
            0 <= i < entries.len() ==> match #[trigger] entry_run_number(entries[i], prefix) {
                Some(n) => n < next_run_number(entries, prefix),
                None => true,
            },
        next_run_number(entries, prefix) == 1 || exists|i: int|
            0 <= i < entries.len() && #[trigger] entry_run_number(entries[i], prefix) == Some(
                (next_run_number(entries, prefix) - 1) as u32,
            ),
{
    lemma_highest_run_is_maximum(entries, prefix);
}

/// The directory of run `n` of a date and script carries the number `n`
/// for that date and script.
pub proof fn lemma_run_dir_carries_its_number(date: Seq<char>, script_name: Seq<char>, n: u32)
    ensures
        entry_run_number(run_dir_name(date, script_name, n as nat), run_prefix(date, script_name))
            == Some(n),
{
    let prefix = run_prefix(date, script_name);
    let entry = run_dir_name(date, script_name, n as nat);
    assert(entry.subrange(0, prefix.len() as int) =~= prefix);
    assert(entry.skip(prefix.len() as int) =~= decimal(n as nat));
    lemma_parse_decimal(n);
}

/// An entry that carries no number for a date and script changes nothing
/// for them.
pub proof fn lemma_foreign_entry_is_ignored(
    entries: Seq<Seq<char>>,
    prefix: Seq<char>,
    entry: Seq<char>,
)
    requires
        entry_run_number(entry, prefix) is None,
    ensures
        next_run_number(entries.push(entry), prefix) == next_run_number(entries, prefix),
{
    assert(entries.push(entry).drop_last() =~= entries);
}

/// A new entry that carries a number raises the highest number to it, if
/// it is higher.
pub proof fn lemma_highest_run_push(entries: Seq<Seq<char>>, prefix: Seq<char>, entry: Seq<char>)
    ensures
        highest_run(entries.push(entry), prefix) == match entry_run_number(entry, prefix) {
            Some(n) => if n > highest_run(entries, prefix) {
                n as nat
            } else {
                highest_run(entries, prefix)
            },
            None => highest_run(entries, prefix),
        },
{
    assert(entries.push(entry).drop_last() =~= entries);
}

/// The archive directory after `count` more runs of one script on one
/// date, each filed under the name that its turn gave it.
pub open spec fn after_runs(
    entries: Seq<Seq<char>>,
    date: Seq<char>,
    script_name: Seq<char>,
    count: nat,
) -> Seq<Seq<char>>
    decreases count,
{
    if count == 0 {
        entries
    } else {
        let before = after_runs(entries, date, script_name, (count - 1) as nat);
        before.push(
            run_dir_name(
                date,
                script_name,
                next_run_number(before, run_prefix(date, script_name)),
            ),
        )
    }
}

/// Runs that follow one another take consecutive numbers: after `count`
/// runs the highest number taken has grown by `count`. Starting from a
/// directory without runs of that date and script, the run after `count`
/// runs is therefore number `count + 1`.
pub proof fn lemma_sequential_runs(
    entries: Seq<Seq<char>>,
    date: Seq<char>,
    script_name: Seq<char>,
    count: nat,
)
    requires
        highest_run(entries, run_prefix(date, script_name)) + count <= u32::MAX,
    ensures
        highest_run(after_runs(entries, date, script_name, count), run_prefix(date, script_name))
            == highest_run(entries, run_prefix(date, script_name)) + count,
        next_run_number(after_runs(entries, date, script_name, count), run_prefix(date, script_name))
            == highest_run(entries, run_prefix(date, script_name)) + count + 1,
    decreases count,
{
    if count > 0 {
        let prefix = run_prefix(date, script_name);
        let before = after_runs(entries, date, script_name, (count - 1) as nat);
        lemma_sequential_runs(entries, date, script_name, (count - 1) as nat);
        let n = next_run_number(before, prefix);
        let entry = run_dir_name(date, script_name, n);
        lemma_run_dir_carries_its_number(date, script_name, n as u32);
        lemma_highest_run_push(before, prefix, entry);
    }
}

/// In an archive directory without runs of a script on a date, the run
/// that follows `count` runs filed in turn is number `count + 1`: that
/// is the one answer for that date, and it is no failure.
pub proof fn lemma_run_after_runs_in_turn(
    out: Result<String, NamingError>,
    base_dir: Seq<char>,
    script_path: Seq<char>,
    date: Seq<char>,
    entries: Seq<Seq<char>>,
    count: nat,
)
    requires
        count < u32::MAX,
        highest_run(entries, run_prefix(date, script_basename(script_path))) == 0,
        is_run_dir_for_date(
            out,
            base_dir,
            script_path,
            date,
            after_runs(entries, date, script_basename(script_path), count),
        ),
    ensures
        out is Ok,
        out->Ok_0@ == path_join(
            base_dir,
            run_dir_name(date, script_basename(script_path), count + 1),
        ),
{
    lemma_sequential_runs(entries, date, script_basename(script_path), count);
}

/// Only the entries that begin with the prefix of a date and script count
/// for them: two listings that agree on those entries give the same next
/// run number, whatever else they hold.
pub proof fn lemma_only_prefixed_entries_count(
    a: Seq<Seq<char>>,
    b: Seq<Seq<char>>,
    prefix: Seq<char>,
)
    requires
        forall|i: int|
            0 <= i < a.len() && prefix.is_prefix_of(#[trigger] a[i]) ==> b.contains(a[i]),
        forall|i: int|
            0 <= i < b.len() && prefix.is_prefix_of(#[trigger] b[i]) ==> a.contains(b[i]),
    ensures
        next_run_number(a, prefix) == next_run_number(b, prefix),
{
    lemma_prefixed_bounded_by(a, b, prefix);
    lemma_prefixed_bounded_by(b, a, prefix);
}

proof fn lemma_prefixed_bounded_by(a: Seq<Seq<char>>, b: Seq<Seq<char>>, prefix: Seq<char>)
    requires
        forall|i: int|
            0 <= i < a.len() && prefix.is_prefix_of(#[trigger] a[i]) ==> b.contains(a[i]),
    ensures
        highest_run(a, prefix) <= highest_run(b, prefix),
{
    lemma_highest_run_is_maximum(a, prefix);
    lemma_highest_run_is_maximum(b, prefix);
    let top = highest_run(a, prefix);
    if top != 0 {
        let i = choose|i: int|
            0 <= i < a.len() && #[trigger] entry_run_number(a[i], prefix) == Some(top as u32);
        assert(prefix.is_prefix_of(a[i]));
        assert(b.contains(a[i]));
        let j = choose|j: int| 0 <= j < b.len() && b[j] == a[i];
        assert(entry_run_number(b[j], prefix) == Some(top as u32));
    }
}

/// The next run number depends on which entries there are, not on their
/// order nor on how often a name occurs.
pub proof fn lemma_order_does_not_matter(a: Seq<Seq<char>>, b: Seq<Seq<char>>, prefix: Seq<char>)
    requires
        forall|i: int| 0 <= i < a.len() ==> b.contains(#[trigger] a[i]),
        forall|i: int| 0 <= i < b.len() ==> a.contains(#[trigger] b[i]),
    ensures
        next_run_number(a, prefix) == next_run_number(b, prefix),
{
    lemma_only_prefixed_entries_count(a, b, prefix);
}

/// No underscore stands in a date.
pub proof fn lemma_date_has_no_underscore(date: Seq<char>)
    requires
        is_date_text(date),
    ensures
        forall|i: int| 0 <= i < date.len() ==> #[trigger] date[i] != '_',
{
    let n = date.len() as int;
    let year = date.take(n - 6);
    assert forall|i: int| 0 <= i < date.len() implies #[trigger] date[i] != '_' by {
        if i < n - 6 {
            assert(year[i] == date[i]);
            if !(year.len() == 4 && all_digits(year)) && i > 0 {
                assert(year.skip(1)[i - 1] == year[i]);
                assert(is_digit(year.skip(1)[i - 1]));
            }
        }
    }
}

/// The directory of a run of one date and script carries no number for
/// another date or script.
pub proof fn lemma_other_run_is_foreign(
    date: Seq<char>,
    script_name: Seq<char>,
    other_date: Seq<char>,
    other_script: Seq<char>,
    n: nat,
)
    requires
        is_date_text(date),
        is_date_text(other_date),
        date != other_date || script_name != other_script,
    ensures
        entry_run_number(run_dir_name(other_date, other_script, n), run_prefix(date, script_name))
            is None,
{
    lemma_date_has_no_underscore(date);
    lemma_date_has_no_underscore(other_date);
    let prefix = run_prefix(date, script_name);
    let entry = run_dir_name(other_date, other_script, n);
    let digits = decimal(n);
    let len = date.len() as int;
    let a = script_name.len() as int;
    let b = other_script.len() as int;
    lemma_decimal_digits(n);
    if prefix.is_prefix_of(entry) {
        assert(prefix =~= entry.subrange(0, prefix.len() as int));
        assert forall|i: int| 0 <= i < prefix.len() implies prefix[i] == entry[i] by {
            assert(entry.subrange(0, prefix.len() as int)[i] == entry[i]);
        }
        let other_len = other_date.len() as int;
        if len < other_len {
            assert(prefix[len] == '_');
            assert(entry[len] == other_date[len]);
        } else if other_len < len {
            assert(entry[other_len] == '_');
            assert(prefix[other_len] == date[other_len]);
        }
        assert(len == other_len);
        assert(date =~= other_date) by {
            assert forall|i: int| 0 <= i < len implies date[i] == other_date[i] by {
                assert(prefix[i] == date[i]);
                assert(entry[i] == other_date[i]);
            }
        }
        assert(prefix.len() == len + a + 5);
        assert(entry.len() == len + b + 5 + digits.len());
        if a == b {
            assert(script_name =~= other_script) by {
                assert forall|i: int| 0 <= i < a implies script_name[i] == other_script[i] by {
                    assert(prefix[len + 1 + i] == script_name[i]);
                    assert(entry[len + 1 + i] == other_script[i]);
                }
            }
        } else if a > b {
            let at = len + a + 4;
            assert(prefix[at] == 'n');
            assert(entry[at] == digits[a - b - 1]);
            assert(is_digit(digits[a - b - 1]));
        } else {
            let rest = entry.skip(prefix.len() as int);
            let j = b - a - 1;
            assert(rest[j] == entry[len + b + 4]);
            assert(entry[len + b + 4] == 'n');
            if parse_u32(rest) is Some {
                let body = unsigned_body(rest);
                assert(all_digits(body));
                if j == 0 {
                    assert(body == rest);
                    assert(is_digit(body[0]));
                } else if rest[0] == '+' {
                    assert(body[j - 1] == rest[j]);
                    assert(is_digit(body[j - 1]));
                } else {
                    assert(is_digit(body[j]));
                }
            }
        }
    }
}

/// Run numbering is kept apart by date and script: filing a run of
/// another date or script changes nothing for this one.
pub proof fn lemma_numbering_is_scoped(
    entries: Seq<Seq<char>>,
    date: Seq<char>,
    script_name: Seq<char>,
    other_date: Seq<char>,
    other_script: Seq<char>,
    n: nat,
)
    requires
        is_date_text(date),
        is_date_text(other_date),
        date != other_date || script_name != other_script,
    ensures
        next_run_number(
            entries.push(run_dir_name(other_date, other_script, n)),
            run_prefix(date, script_name),
        ) == next_run_number(entries, run_prefix(date, script_name)),
{
    lemma_other_run_is_foreign(date, script_name, other_date, other_script, n);
    lemma_foreign_entry_is_ignored(
        entries,
        run_prefix(date, script_name),
        run_dir_name(other_date, other_script, n),
    );
}

} // verus!
