//! Change detection: which report lines of a feed body have not been seen before.

use crate::fingerprints::{contains, empty, fingerprints, insert, lines, texts};
use crate::text::{
    chars_of, find, first_occurrence, lemma_first_occurrence_found,
    lemma_first_occurrence_of_char, lemma_first_occurrence_of_char_found, lemma_lines_of_single,
    line_texts, lines_of, matches_at, occurs_at, slice_of, split_lines, starts_with, string_of,
};
use fnv::FnvHashSet;
use vstd::prelude::*;

verus! {

/// The token that every report line begins with.
pub open spec fn report_marker() -> Seq<char> {
    seq!['I', 'c', 'o', 'n', ':']
}

/// The third field of a report line, which stands before the age digit, with its commas.
pub open spec fn age_marker() -> Seq<char> {
    seq![',', '0', '0', '0', ',']
}

/// Whether `line` is a report line.
pub open spec fn is_report_line(line: Seq<char>) -> bool {
    report_marker().is_prefix_of(line)
}

/// An age digit that says nothing of which report a line is.
pub open spec fn is_aging_digit(c: char) -> bool {
    c == '3' || c == '4' || c == '5'
}

/// The separator of the fields of a report line.
pub open spec fn comma() -> Seq<char> {
    seq![',']
}

/// The index of the second comma of `line`, behind which its third field begins.
pub open spec fn second_comma(line: Seq<char>) -> Option<int> {
    match first_occurrence(line, comma()) {
        Some(first) => match first_occurrence(line.skip(first + 1), comma()) {
            Some(next) => Some(first + 1 + next),
            None => None,
        },
        None => None,
    }
}

/// The index of the age digit of `line`: the first character of its fourth field, where
/// the fields are parted by commas and the third field reads `000`.
pub open spec fn age_digit_index(line: Seq<char>) -> Option<int> {
    match second_comma(line) {
        Some(at) if occurs_at(line, age_marker(), at) && at + age_marker().len() < line.len() =>
            Some(at + age_marker().len()),
        _ => None,
    }
}

/// `line` with an age digit of 3, 4 or 5 rewritten to 0; any other line as it is.
pub open spec fn normalized(line: Seq<char>) -> Seq<char> {
    match age_digit_index(line) {
        Some(i) if is_aging_digit(line[i]) => line.update(i, '0'),
        _ => line,
    }
}

/// The normalized report lines among `lines`.
pub open spec fn fingerprints_of(lines: Seq<Seq<char>>) -> Set<Seq<char>> {
    Set::new(
        |print: Seq<char>|
            exists|i: int|
                0 <= i < lines.len() && is_report_line(#[trigger] lines[i]) && print == normalized(
                    lines[i],
                ),
    )
}

/// The normalized report lines of the feed body `body`.
pub open spec fn latest_fingerprints(body: Seq<char>) -> Set<Seq<char>> {
    fingerprints_of(lines_of(body))
}

/// What one poll of the feed found.
#[derive(Debug)]
pub struct Comparison {
    /// Every report of the body, normalized.
    pub latest_set: FnvHashSet<String>,
    /// Those of them that were not seen before.
    pub new: Vec<String>,
}

fn age_marker_chars() -> (marker: Vec<char>)
    ensures
        marker@ == age_marker(),
{
    let marker = vec![',', '0', '0', '0', ','];
    assert(marker@ =~= age_marker());
    marker
}

fn report_marker_chars() -> (marker: Vec<char>)
    ensures
        marker@ == report_marker(),
{
    let marker = vec!['I', 'c', 'o', 'n', ':'];
    assert(marker@ =~= report_marker());
    marker
}

/// Finds the age digit of a line.
fn age_digit_position(line: &Vec<char>) -> (position: Option<usize>)
    ensures
        position matches Some(i) ==> age_digit_index(line@) == Some(i as int),
        position is None ==> age_digit_index(line@) is None,
{
    let separator = vec![','];
    assert(separator@ =~= comma());
    proof {
        lemma_first_occurrence_found(line@, comma());
    }
    let first = match find(line, &separator) {
        Some(first) => first,
        None => {
            return None;
        },
    };
    assert(occurs_at(line@, comma(), first as int) && comma().len() == 1);
    assert(first + 1 <= line.len());
    let rest = slice_of(line, first + 1, line.len());
    assert(rest@ =~= line@.skip(first + 1));
    proof {
        lemma_first_occurrence_found(rest@, comma());
    }
    let next = match find(&rest, &separator) {
        Some(next) => next,
        None => {
            return None;
        },
    };
    assert(occurs_at(rest@, comma(), next as int));
    assert(first + 1 + next < line.len());
    let second = first + 1 + next;
    let marker = age_marker_chars();
    if matches_at(line, &marker, second) && marker.len() < line.len() - second {
        Some(second + marker.len())
    } else {
        None
    }
}

/// Normalizes the characters of a line in place.
fn normalize_chars(line: &mut Vec<char>)
    ensures
        final(line)@ == normalized(old(line)@),
{
    match age_digit_position(line) {
        Some(i) => {
            let c = line[i];
            if c == '3' || c == '4' || c == '5' {
                line.set(i, '0');
            }
        },
        None => {},
    }
}

/// Rewrites the age digit of a report line to 0 where it is 3, 4 or 5, so that a report
/// keeps one identity while it ages.
pub fn normalize_line(line: &str) -> (normal: String)
    ensures
        normal@ == normalized(line@),
{
    let mut chars = chars_of(line);
    normalize_chars(&mut chars);
    string_of(&chars)
}

/// Adding a line adds its fingerprint where it is a report line, and nothing otherwise.
proof fn lemma_fingerprints_of_push(lines: Seq<Seq<char>>, line: Seq<char>)
    ensures
        fingerprints_of(lines.push(line)) == if is_report_line(line) {
            fingerprints_of(lines).insert(normalized(line))
        } else {
            fingerprints_of(lines)
        },
{
    let longer = lines.push(line);
    let expected = if is_report_line(line) {
        fingerprints_of(lines).insert(normalized(line))
    } else {
        fingerprints_of(lines)
    };
    assert forall|print: Seq<char>| fingerprints_of(longer).contains(print) implies expected.contains(
        print,
    ) by {
        let i = choose|i: int|
            0 <= i < longer.len() && is_report_line(#[trigger] longer[i]) && print == normalized(
                longer[i],
            );
        if i < lines.len() {
            assert(is_report_line(lines[i]) && print == normalized(lines[i]));
        }
    }
    assert forall|print: Seq<char>| expected.contains(print) implies fingerprints_of(
        longer,
    ).contains(print) by {
        if fingerprints_of(lines).contains(print) {
            let i = choose|i: int|
                0 <= i < lines.len() && is_report_line(#[trigger] lines[i]) && print == normalized(
                    lines[i],
                );
            assert(is_report_line(longer[i]) && print == normalized(longer[i]));
        } else {
            let last = lines.len() as int;
            assert(is_report_line(longer[last]) && print == normalized(longer[last]));
        }
    }
    assert(fingerprints_of(longer) =~= expected);
}

/// Compares the feed body `body` with the lines seen at the previous poll.
///
/// `latest_set` holds the normalized report lines of `body`; `new` holds each of them that
/// `seen` lacks, once, in no stated order.
pub fn get_comparison(body: &str, seen: FnvHashSet<String>) -> (comparison: Comparison)
    ensures
        fingerprints(comparison.latest_set) == latest_fingerprints(body@),
        texts(comparison.new@).no_duplicates(),
        texts(comparison.new@).to_set() == latest_fingerprints(body@).difference(
            fingerprints(seen),
        ),
{
    let body_chars = chars_of(body);
    let body_lines = split_lines(&body_chars);
    let marker = report_marker_chars();
    let mut latest_set = empty();
    let mut i: usize = 0;
    assert(line_texts(body_lines@).take(0) =~= Seq::<Seq<char>>::empty());
    assert(fingerprints_of(Seq::<Seq<char>>::empty()) =~= Set::<Seq<char>>::empty());
    while i < body_lines.len()
        invariant
            i <= body_lines.len(),
            marker@ == report_marker(),
            fingerprints(latest_set) == fingerprints_of(line_texts(body_lines@).take(i as int)),
        decreases body_lines.len() - i,
    {
        let line = &body_lines[i];
        proof {
            let all = line_texts(body_lines@);
            assert(all.take(i + 1) =~= all.take(i as int).push(line@));
            lemma_fingerprints_of_push(all.take(i as int), line@);
        }
        if starts_with(line, &marker) {
            let mut chars = line.clone();
            normalize_chars(&mut chars);
            insert(&mut latest_set, string_of(&chars));
        }
        i += 1;
    }
    assert(line_texts(body_lines@).take(body_lines@.len() as int) =~= line_texts(body_lines@));

    let all = lines(&latest_set);
    let ghost pool = texts(all@);
    let ghost known = fingerprints(seen);
    let mut new: Vec<String> = Vec::new();
    let mut k: usize = 0;
    while k < all.len()
        invariant
            k <= all.len(),
            pool == texts(all@),
            known == fingerprints(seen),
            pool.no_duplicates(),
            texts(new@).no_duplicates(),
            forall|n: int|
                0 <= n < new.len() ==> pool.take(k as int).contains(#[trigger] texts(new@)[n])
                    && !known.contains(texts(new@)[n]),
            forall|j: int|
                0 <= j < k && !known.contains(#[trigger] pool[j]) ==> texts(new@).contains(pool[j]),
        decreases all.len() - k,
    {
        let line = &all[k];
        let ghost before = texts(new@);
        proof {
            assert forall|n: int| 0 <= n < before.len() implies pool.take(k + 1).contains(
                #[trigger] before[n],
            ) && before[n] != pool[k as int] by {
                let j = choose|j: int|
                    0 <= j < pool.take(k as int).len() && pool.take(k as int)[j] == before[n];
                assert(pool.take(k + 1)[j] == before[n]);
            }
        }
        if !contains(&seen, line) {
            new.push(line.clone());
            proof {
                assert(texts(new@) =~= before.push(pool[k as int]));
                assert(pool.take(k + 1)[k as int] == pool[k as int]);
                assert forall|j: int| 0 <= j < k + 1 && !known.contains(#[trigger] pool[j]) implies texts(
                    new@,
                ).contains(pool[j]) by {
                    if j < k {
                        let n = choose|n: int| 0 <= n < before.len() && before[n] == pool[j];
                        assert(texts(new@)[n] == pool[j]);
                    } else {
                        assert(texts(new@)[before.len() as int] == pool[j]);
                    }
                }
            }
        }
        k += 1;
    }
    proof {
        let found = texts(new@).to_set();
        let wanted = latest_fingerprints(body@).difference(known);
        assert(pool.take(k as int) =~= pool);
        assert forall|print: Seq<char>| found.contains(print) implies wanted.contains(print) by {
            let n = choose|n: int| 0 <= n < texts(new@).len() && texts(new@)[n] == print;
            assert(pool.contains(texts(new@)[n]));
            assert(pool.to_set().contains(print));
        }
        assert forall|print: Seq<char>| wanted.contains(print) implies found.contains(print) by {
            assert(pool.to_set().contains(print));
            let j = choose|j: int| 0 <= j < pool.len() && pool[j] == print;
            assert(texts(new@).contains(pool[j]));
        }
        assert(found =~= wanted);
    }
    Comparison { latest_set, new }
}

/// Lines of one length that agree before index `i` have their commas before `i` in the
/// same places.
proof fn lemma_second_comma_stable(a: Seq<char>, b: Seq<char>, i: int)
    requires
        a.len() == b.len(),
        second_comma(a) matches Some(at) && at < i,
        forall|k: int| 0 <= k < i && k < a.len() ==> a[k] == b[k],
    ensures
        second_comma(b) == second_comma(a),
{
    lemma_first_occurrence_of_char_found(a, ',');
    let first = first_occurrence(a, comma())->0;
    lemma_first_occurrence_of_char(b, ',', first);
    let rest_a = a.skip(first + 1);
    let rest_b = b.skip(first + 1);
    lemma_first_occurrence_of_char_found(rest_a, ',');
    let next = first_occurrence(rest_a, comma())->0;
    assert forall|j: int| 0 <= j <= next implies rest_b[j] == rest_a[j] by {
        assert(rest_a[j] == a[first + 1 + j] && rest_b[j] == b[first + 1 + j]);
    }
    lemma_first_occurrence_of_char(rest_b, ',', next);
}

/// Two lines of one length that differ in the age digit alone keep that digit in one place.
proof fn lemma_age_digit_index_stable(a: Seq<char>, b: Seq<char>, i: int)
    requires
        a.len() == b.len(),
        age_digit_index(a) == Some(i),
        forall|k: int| 0 <= k < a.len() && k != i ==> a[k] == b[k],
    ensures
        age_digit_index(b) == Some(i),
{
    let marker = age_marker();
    let at = i - marker.len();
    lemma_second_comma_stable(a, b, i);
    assert(b.subrange(at, at + marker.len()) =~= a.subrange(at, at + marker.len()));
}

/// A line of the feed's layout: a first and a second field, the third field `000`, the
/// age digit `digit`, and whatever follows.
pub open spec fn layout_line(first: Seq<char>, second: Seq<char>, digit: char, rest: Seq<char>) -> Seq<
    char,
> {
    first + comma() + second + age_marker() + seq![digit] + rest
}

/// In a line of the layout whose first two fields hold no comma, the age digit is the
/// character behind the third field, and normalizing rewrites it to 0 where it is 3, 4
/// or 5 and changes nothing else.
pub proof fn lemma_normalized_layout_line(
    first: Seq<char>,
    second: Seq<char>,
    digit: char,
    rest: Seq<char>,
)
    requires
        forall|j: int| 0 <= j < first.len() ==> first[j] != ',',
        forall|j: int| 0 <= j < second.len() ==> second[j] != ',',
    ensures
        age_digit_index(layout_line(first, second, digit, rest)) == Some(
            (first.len() + second.len() + 6) as int,
        ),
        normalized(layout_line(first, second, digit, rest)) == layout_line(
            first,
            second,
            if is_aging_digit(digit) {
                '0'
            } else {
                digit
            },
            rest,
        ),
{
    let line = layout_line(first, second, digit, rest);
    let at = (first.len() + 1 + second.len()) as int;
    let start = (first.len() + 1) as int;
    assert(line[first.len() as int] == ',');
    assert forall|j: int| 0 <= j < first.len() implies line[j] != ',' by {
        assert(line[j] == first[j]);
    }
    lemma_first_occurrence_of_char(line, ',', first.len() as int);
    let tail = line.skip(start);
    assert(tail[second.len() as int] == line[at]);
    assert(line[at] == age_marker()[0]);
    assert forall|j: int| 0 <= j < second.len() implies tail[j] != ',' by {
        assert(tail[j] == second[j]);
    }
    lemma_first_occurrence_of_char(tail, ',', second.len() as int);
    assert(line.subrange(at, at + age_marker().len()) =~= age_marker());
    assert(line[at + 5] == digit);
    if is_aging_digit(digit) {
        assert(line.update(at + 5, '0') =~= layout_line(first, second, '0', rest));
    }
}

/// Two lines of the layout that differ only in an age digit of 3, 4 or 5 are one line
/// once normalized.
pub proof fn lemma_layout_lines_are_one(
    first: Seq<char>,
    second: Seq<char>,
    one: char,
    other: char,
    rest: Seq<char>,
)
    requires
        forall|j: int| 0 <= j < first.len() ==> first[j] != ',',
        forall|j: int| 0 <= j < second.len() ==> second[j] != ',',
        is_aging_digit(one),
        is_aging_digit(other),
    ensures
        normalized(layout_line(first, second, one, rest)) == normalized(
            layout_line(first, second, other, rest),
        ),
{
    lemma_normalized_layout_line(first, second, one, rest);
    lemma_normalized_layout_line(first, second, other, rest);
}

/// Normalizing a normalized line changes nothing.
pub proof fn lemma_normalized_idempotent(line: Seq<char>)
    ensures
        normalized(normalized(line)) == normalized(line),
{
    if let Some(i) = age_digit_index(line) {
        if is_aging_digit(line[i]) {
            lemma_age_digit_index_stable(line, line.update(i, '0'), i);
        }
    }
}

/// `a` and `b` are one line but for the age digit, which is 3, 4 or 5 in both.
pub open spec fn differ_in_age_only(a: Seq<char>, b: Seq<char>) -> bool {
    &&& a.len() == b.len()
    &&& age_digit_index(a) matches Some(i) && is_aging_digit(a[i]) && is_aging_digit(b[i])
        && forall|k: int| 0 <= k < a.len() && k != i ==> a[k] == b[k]
}

/// Lines that differ only in an age digit of 3, 4 or 5 are one line once normalized.
pub proof fn lemma_age_digit_ignored(a: Seq<char>, b: Seq<char>)
    requires
        differ_in_age_only(a, b),
    ensures
        normalized(a) == normalized(b),
{
    let i = age_digit_index(a)->0;
    lemma_age_digit_index_stable(a, b, i);
    assert(a.update(i, '0') =~= b.update(i, '0'));
}

/// With nothing seen before, every fingerprint of the body is new.
pub proof fn lemma_nothing_seen_all_new(body: Seq<char>)
    ensures
        latest_fingerprints(body).difference(Set::<Seq<char>>::empty()) == latest_fingerprints(body),
{
    assert(latest_fingerprints(body).difference(Set::<Seq<char>>::empty()) =~= latest_fingerprints(
        body,
    ));
}

/// A line that the body repeats adds no fingerprint.
pub proof fn lemma_repeated_line_adds_nothing(lines: Seq<Seq<char>>, i: int)
    requires
        0 <= i < lines.len(),
    ensures
        fingerprints_of(lines.push(lines[i])) == fingerprints_of(lines),
{
    lemma_fingerprints_of_push(lines, lines[i]);
    if is_report_line(lines[i]) {
        assert(fingerprints_of(lines).contains(normalized(lines[i])));
        assert(fingerprints_of(lines).insert(normalized(lines[i])) =~= fingerprints_of(lines));
    }
}

/// The fingerprints of a body that is one report line.
pub proof fn lemma_single_report_fingerprints(line: Seq<char>)
    requires
        is_report_line(line),
        forall|j: int| 0 <= j < line.len() ==> line[j] != '\n',
    ensures
        latest_fingerprints(line) == set![normalized(line)],
{
    lemma_lines_of_single(line);
    assert(line.len() > 0);
    let lines = seq![line];
    assert(is_report_line(lines[0]) && normalized(line) == normalized(lines[0]));
    assert(fingerprints_of(lines) =~= set![normalized(line)]);
}

/// A report whose age digit changed between two polls is not new at the second: where the
/// first body is the one report line `first` and the second body is `second`, the same line
/// but for the age digit, nothing of the second body is missing from what the first left.
pub proof fn lemma_aged_report_not_new(first: Seq<char>, second: Seq<char>)
    requires
        is_report_line(first),
        forall|j: int| 0 <= j < first.len() ==> first[j] != '\n',
        forall|j: int| 0 <= j < second.len() ==> second[j] != '\n',
        differ_in_age_only(first, second),
    ensures
        latest_fingerprints(second).difference(latest_fingerprints(first)) == Set::<
            Seq<char>,
        >::empty(),
{
    let i = age_digit_index(first)->0;
    assert(i >= report_marker().len()) by {
        lemma_first_occurrence_found(first, age_marker());
    }
    assert(second.subrange(0, report_marker().len() as int) =~= first.subrange(
        0,
        report_marker().len() as int,
    ));
    lemma_age_digit_ignored(first, second);
    lemma_single_report_fingerprints(first);
    lemma_single_report_fingerprints(second);
    assert(latest_fingerprints(second).difference(latest_fingerprints(first)) =~= Set::<
        Seq<char>,
    >::empty());
}

/// A report of the layout whose age digit changed between two polls is not new at the
/// second: where the first body is one report line with an age digit of 3, 4 or 5 and the
/// second body is the same line with another of these digits, nothing of the second body
/// is missing from what the first left.
pub proof fn lemma_aged_layout_report_not_new(
    first: Seq<char>,
    second: Seq<char>,
    one: char,
    other: char,
    rest: Seq<char>,
)
    requires
        report_marker().is_prefix_of(first),
        forall|j: int| 0 <= j < first.len() ==> first[j] != ',' && first[j] != '\n',
        forall|j: int| 0 <= j < second.len() ==> second[j] != ',' && second[j] != '\n',
        forall|j: int| 0 <= j < rest.len() ==> rest[j] != '\n',
        is_aging_digit(one),
        is_aging_digit(other),
    ensures
        latest_fingerprints(layout_line(first, second, other, rest)).difference(
            latest_fingerprints(layout_line(first, second, one, rest)),
        ) == Set::<Seq<char>>::empty(),
{
    let before = layout_line(first, second, one, rest);
    let after = layout_line(first, second, other, rest);
    let i = (first.len() + second.len() + 6) as int;
    lemma_normalized_layout_line(first, second, one, rest);
    assert(before.subrange(0, report_marker().len() as int) =~= first.subrange(
        0,
        report_marker().len() as int,
    ));
    assert(before[i] == one && after[i] == other);
    assert forall|k: int| 0 <= k < before.len() && k != i implies before[k] == after[k] by {}
    assert forall|j: int| 0 <= j < before.len() implies before[j] != '\n' && after[j] != '\n' by {
        if j < first.len() {
            assert(before[j] == first[j]);
        } else if j == first.len() {
        } else if j < first.len() + 1 + second.len() {
            assert(before[j] == second[j - first.len() - 1]);
        } else if j < i {
            assert(before[j] == age_marker()[j - first.len() - 1 - second.len()]);
        } else if j == i {
        } else {
            assert(before[j] == rest[j - i - 1]);
        }
    }
    lemma_aged_report_not_new(before, after);
}

} // verus!
