//! Names of run directories.
//!
//! A run of script `S` on date `D` is archived under `D_S_run<N>`, where `N`
//! is one more than the highest number already taken by a directory of that
//! date and script. The scan and the creation are two separate steps, so two
//! invocations that race each other may arrive at the same name.

use crate::decimal::{
    all_digits,
    decimal,
    is_digit,
    parse_u32,
    parse_u32_from,
    push_decimal,
};
use crate::paths::{file_stem_of, join_path, path_file_stem, path_join};
use crate::record::{Cli, Timestamp};
use crate::text::{chars_of, push_all, starts_with, string_of, texts};
use vstd::prelude::*;
use vstd::string::StringExecFns;

verus! {

/// What every run directory of one date and script begins with.
pub open spec fn run_prefix(date: Seq<char>, script_name: Seq<char>) -> Seq<char> {
    date + seq!['_'] + script_name + seq!['_', 'r', 'u', 'n']
}

/// The name of run number `run_number` of a date and script.
pub open spec fn run_dir_name(date: Seq<char>, script_name: Seq<char>, run_number: nat) -> Seq<
    char,
> {
    run_prefix(date, script_name) + decimal(run_number)
}

/// The run number that a directory entry carries for the given prefix: the
/// entry begins with the prefix and the rest reads as a number.
pub open spec fn entry_run_number(entry: Seq<char>, prefix: Seq<char>) -> Option<u32> {
    if prefix.is_prefix_of(entry) {
        parse_u32(entry.skip(prefix.len() as int))
    } else {
        None
    }
}

/// The highest run number among `entries`, or zero where no entry carries one.
pub open spec fn highest_run(entries: Seq<Seq<char>>, prefix: Seq<char>) -> nat
    decreases entries.len(),
{
    if entries.len() == 0 {
        0
    } else {
        let rest = highest_run(entries.drop_last(), prefix);
        match entry_run_number(entries.last(), prefix) {
            Some(n) => if n > rest {
                n as nat
            } else {
                rest
            },
            None => rest,
        }
    }
}

/// The number of the next run: one more than the highest taken.
pub open spec fn next_run_number(entries: Seq<Seq<char>>, prefix: Seq<char>) -> nat {
    highest_run(entries, prefix) + 1
}

/// The highest run number bounds every number carried by an entry, and is
/// itself carried by an entry unless it is zero.
pub proof fn lemma_highest_run_is_maximum(entries: Seq<Seq<char>>, prefix: Seq<char>)
    ensures
        highest_run(entries, prefix) <= u32::MAX,
        forall|i: int|
            0 <= i < entries.len() ==> match #[trigger] entry_run_number(entries[i], prefix) {
                Some(n) => n <= highest_run(entries, prefix),
                None => true,
            },
        highest_run(entries, prefix) == 0 || exists|i: int|
            0 <= i < entries.len() && #[trigger] entry_run_number(entries[i], prefix) == Some(
                highest_run(entries, prefix) as u32,
            ),
    decreases entries.len(),
{
    if entries.len() > 0 {
        let front = entries.drop_last();
        lemma_highest_run_is_maximum(front, prefix);
        let rest = highest_run(front, prefix);
        let top = highest_run(entries, prefix);
        assert forall|i: int| 0 <= i < entries.len() implies match #[trigger] entry_run_number(
            entries[i],
            prefix,
        ) {
            Some(n) => n <= top,
            None => true,
        } by {
            if i < front.len() {
                assert(entries[i] == front[i]);
            }
        }
        if top != 0 {
            if top == rest {
                let i = choose|i: int|
                    0 <= i < front.len() && #[trigger] entry_run_number(front[i], prefix) == Some(
                        rest as u32,
                    );
                assert(entries[i] == front[i]);
            } else {
                assert(entry_run_number(entries[entries.len() - 1], prefix) == Some(top as u32));
            }
        }
    }
}

/// Builds the prefix of the run directories of a date and script.
fn build_prefix(date: &str, script_name: &str) -> (out: Vec<char>)
    ensures
        out@ == run_prefix(date@, script_name@),
{
    let mut out = chars_of(date);
    out.push('_');
    let name = chars_of(script_name);
    push_all(&mut out, &name);
    out.push('_');
    out.push('r');
    out.push('u');
    out.push('n');
    assert(out@ =~= run_prefix(date@, script_name@));
    out
}

/// The highest run number that the directory entries `entries` carry for
/// the given script and date; zero where none carries one.
pub fn highest_run_number(entries: &Vec<String>, script_name: &str, date: &str) -> (out: u32)
    ensures
        out == highest_run(texts(entries@), run_prefix(date@, script_name@)),
{
    let prefix = build_prefix(date, script_name);
    let ghost names = texts(entries@);
    let mut top: u32 = 0;
    let mut i: usize = 0;
    while i < entries.len()
        invariant
            i <= entries.len(),
            names == texts(entries@),
            top == highest_run(names.take(i as int), prefix@),
        decreases entries.len() - i,
    {
        let entry = chars_of(entries[i].as_str());
        assert(entry@ == names[i as int]);
        assert(names.take(i + 1).drop_last() =~= names.take(i as int));
        if starts_with(&entry, &prefix) {
            match parse_u32_from(&entry, prefix.len()) {
                Some(n) => {
                    if n > top {
                        top = n;
                    }
                },
                None => {},
            }
        }
        i += 1;
    }
    assert(names.take(entries.len() as int) =~= names);
    top
}

/// The number of the next run of a script on a date, given the names of
/// the entries of the archive directory: one more than the highest number
/// taken, and 1 where none is taken.
pub fn get_next_run_number(entries: &Vec<String>, script_name: &str, date: &str) -> (out: u32)
    requires
        highest_run(texts(entries@), run_prefix(date@, script_name@)) < u32::MAX,
    ensures
        out == next_run_number(texts(entries@), run_prefix(date@, script_name@)),
{
    highest_run_number(entries, script_name, date) + 1
}

/// The name of the directory of run `run_number` of a script on a date.
pub fn format_run_dir_name(date: &str, script_name: &str, run_number: u32) -> (out: String)
    ensures
        out@ == run_dir_name(date@, script_name@, run_number as nat),
{
    let mut name = build_prefix(date, script_name);
    push_decimal(&mut name, run_number);
    string_of(&name)
}

/// The name under which the runs of a script are filed: the file stem of
/// its path, or a fixed name where the path has none.
pub open spec fn script_basename(script_path: Seq<char>) -> Seq<char> {
    match path_file_stem(script_path) {
        Some(stem) => stem,
        None => "unknown"@,
    }
}

/// The name for a script whose path has the file stem `stem`.
pub fn basename_or_fallback(stem: Option<String>) -> (out: String)
    ensures
        out@ == match stem {
            Some(s) => s@,
            None => "unknown"@,
        },
{
    match stem {
        Some(s) => s,
        None => String::from_str("unknown"),
    }
}

/// The name under which the runs of the script at `script_path` are filed.
pub fn get_script_basename(script_path: &str) -> (out: String)
    ensures
        out@ == script_basename(script_path@),
{
    basename_or_fallback(file_stem_of(script_path))
}

/// Why no run directory could be named.
#[derive(Debug, PartialEq, Eq)]
pub enum NamingError {
    /// The highest run number that fits 32 bits is taken.
    RunNumbersExhausted,
    /// The moment of the run lies outside the calendar.
    NoDate,
}

impl NamingError {
    /// The one-line diagnostic for this error.
    pub open spec fn message_text(self) -> Seq<char> {
        match self {
            NamingError::RunNumbersExhausted => "No run number is left for this script and date"@,
            NamingError::NoDate => "The time of the run lies outside the calendar"@,
        }
    }

    /// The one-line diagnostic for this error.
    pub fn message(&self) -> (out: String)
        ensures
            out@ == self.message_text(),
    {
        match self {
            NamingError::RunNumbersExhausted => String::from_str(
                "No run number is left for this script and date",
            ),
            NamingError::NoDate => String::from_str("The time of the run lies outside the calendar"),
        }
    }
}

/// The path of the directory for the next run of the script at
/// `script_path` on `date`, inside `base_dir`, whose entries are
/// `entries`; none where the run numbers are used up.
pub open spec fn run_dir_path_of(
    base_dir: Seq<char>,
    script_path: Seq<char>,
    date: Seq<char>,
    entries: Seq<Seq<char>>,
) -> Option<Seq<char>> {
    let name = script_basename(script_path);
    let prefix = run_prefix(date, name);
    if highest_run(entries, prefix) < u32::MAX {
        Some(path_join(base_dir, run_dir_name(date, name, next_run_number(entries, prefix))))
    } else {
        None
    }
}

/// Whether `out` is the answer for the date `date`.
pub open spec fn is_run_dir_for_date(
    out: Result<String, NamingError>,
    base_dir: Seq<char>,
    script_path: Seq<char>,
    date: Seq<char>,
    entries: Seq<Seq<char>>,
) -> bool {
    match run_dir_path_of(base_dir, script_path, date, entries) {
        Some(path) => out is Ok && out->Ok_0@ == path,
        None => out matches Err(NamingError::RunNumbersExhausted),
    }
}

/// The path of the directory for the next run of a script on the date
/// `date`, given the names of the entries of `base_dir`.
pub fn run_dir_for_date(base_dir: &str, script_path: &str, date: &str, entries: &Vec<String>) -> (out:
    Result<String, NamingError>)
    ensures
        is_run_dir_for_date(out, base_dir@, script_path@, date@, texts(entries@)),
{
    let script_name = get_script_basename(script_path);
    let highest = highest_run_number(entries, script_name.as_str(), date);
    if highest == 0xffff_ffff {
        return Err(NamingError::RunNumbersExhausted);
    }
    let dir_name = format_run_dir_name(date, script_name.as_str(), highest + 1);
    Ok(join_path(base_dir, dir_name.as_str()))
}

/// `s` is a year as it is written in a date: four digits, or a sign and
/// at least four digits for a year that four digits cannot hold.
pub open spec fn is_year_text(s: Seq<char>) -> bool {
    ||| s.len() == 4 && all_digits(s)
    ||| s.len() >= 5 && (s[0] == '+' || s[0] == '-') && all_digits(s.skip(1))
}

/// `s` is a calendar date written as year, month and day with hyphens
/// between them, month and day with two digits each.
pub open spec fn is_date_text(s: Seq<char>) -> bool {
    let n = s.len() as int;
    &&& n >= 10
    &&& is_year_text(s.take(n - 6))
    &&& s[n - 6] == '-'
    &&& is_digit(s[n - 5])
    &&& is_digit(s[n - 4])
    &&& s[n - 3] == '-'
    &&& is_digit(s[n - 2])
    &&& is_digit(s[n - 1])
}

/// The pattern by which a date is written into a directory name: year,
/// month and day, with hyphens between them.
pub open spec fn date_pattern() -> Seq<char> {
    "%Y-%m-%d"@
}

/// The moments for which the calendar is certain to have a date: from
/// the Unix epoch to the end of the year 9999.
pub open spec fn in_common_era(secs: int) -> bool {
    0 <= secs < 253_402_300_800
}

/// Makes a moment of `secs` and `nanos` with `chrono::DateTime::from_timestamp`,
/// moves it to the machine's time zone with `with_timezone(&chrono::Local)`
/// and writes its date with `format`. There is no date where chrono's
/// calendar does not reach the moment. Which date comes back depends on
/// the machine's time zone; the contract claims the shape that the pattern
/// gives every date, and that a moment between 1970 and the year 10000 has
/// a date.
#[verifier::external_body]
fn local_date_text(secs: i64, nanos: u32, pattern: &str) -> (out: Option<String>)
    requires
        pattern@ == date_pattern(),
    ensures
        out matches Some(date) ==> is_date_text(date@),
        in_common_era(secs as int) && nanos < 1_000_000_000 ==> out is Some,
{
    match chrono::DateTime::from_timestamp(secs, nanos) {
        Some(moment) => Some(moment.with_timezone(&chrono::Local).format(pattern).to_string()),
        None => None,
    }
}

/// Whether `out` is an answer that [`create_run_dir`] may give: the answer
/// of [`run_dir_for_date`] for some date, or the failure to find a date.
pub open spec fn is_run_dir_for_some_date(
    out: Result<String, NamingError>,
    base_dir: Seq<char>,
    script_path: Seq<char>,
    entries: Seq<Seq<char>>,
) -> bool {
    ||| out matches Err(NamingError::NoDate)
    ||| exists|date: Seq<char>|
        is_date_text(date) && #[trigger] is_run_dir_for_date(
            out,
            base_dir,
            script_path,
            date,
            entries,
        )
}

/// The path of the directory for a run of the script at `script_path`
/// that starts at the moment `now`, given the names of the entries of
/// `base_dir`: the answer of [`run_dir_for_date`] for the local date of
/// that moment. Fails where the calendar has no date for the moment, which
/// is never so between 1970 and the year 10000.
pub fn create_run_dir(base_dir: &str, script_path: &str, entries: &Vec<String>, now: &Timestamp) -> (out:
    Result<String, NamingError>)
    ensures
        is_run_dir_for_some_date(out, base_dir@, script_path@, texts(entries@)),
        in_common_era(now.spec_secs()) ==> !(out matches Err(NamingError::NoDate)),
{
    match local_date_text(now.secs(), now.nanos(), "%Y-%m-%d") {
        Some(date) => {
            let out = run_dir_for_date(base_dir, script_path, date.as_str(), entries);
            assert(is_run_dir_for_date(out, base_dir@, script_path@, date@, texts(entries@)));
            out
        },
        None => Err(NamingError::NoDate),
    }
}

/// The output directory of an invocation that starts at the moment `now`:
/// the archive directory itself where subfolders are switched off, else
/// the directory for a run that starts at that moment.
pub fn get_output_dir(cli: &Cli, entries: &Vec<String>, now: &Timestamp) -> (out: Result<
    String,
    NamingError,
>)
    ensures
        cli.no_subfolder ==> out is Ok && out->Ok_0@ == cli.archive_dir@,
        !cli.no_subfolder ==> is_run_dir_for_some_date(
            out,
            cli.archive_dir@,
            cli.script@,
            texts(entries@),
        ),
        in_common_era(now.spec_secs()) ==> !(out matches Err(NamingError::NoDate)),
{
    if cli.no_subfolder {
        Ok(cli.archive_dir.clone())
    } else {
        create_run_dir(cli.archive_dir.as_str(), cli.script.as_str(), entries, now)
    }
}

} // verus!
