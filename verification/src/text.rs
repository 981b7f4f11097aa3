//! Text primitives shared by the detectors: case folding, substring search,
//! suffix stripping and splitting, stated over sequences of characters.

use vstd::prelude::*;
use vstd::string::StringExecFns;

verus! {

/// The lowercase form of a text as `str::to_lowercase` of the standard
/// library produces it (Unicode lowercase mapping).
pub uninterp spec fn lowercase(s: Seq<char>) -> Seq<char>;

/// `needle` occurs in `hay` as a contiguous run starting at position `at`.
pub open spec fn occurs_at(needle: Seq<char>, hay: Seq<char>, at: int) -> bool {
    &&& 0 <= at
    &&& at + needle.len() <= hay.len()
    &&& hay.subrange(at, at + needle.len()) == needle
}

/// `needle` occurs somewhere in `hay`. The empty text occurs in every text.
pub open spec fn occurs_in(needle: Seq<char>, hay: Seq<char>) -> bool {
    exists|at: int| occurs_at(needle, hay, at)
}

/// `s` ends with `suffix`.
pub open spec fn ends_with(s: Seq<char>, suffix: Seq<char>) -> bool {
    suffix.len() <= s.len() && s.subrange(s.len() - suffix.len(), s.len() as int) == suffix
}

/// `s` starts with `prefix`.
pub open spec fn starts_with(s: Seq<char>, prefix: Seq<char>) -> bool {
    prefix.len() <= s.len() && s.subrange(0, prefix.len() as int) == prefix
}

/// What stands in `s` before the first `mark`; all of `s` when it holds none.
pub open spec fn before_first(s: Seq<char>, mark: char) -> Seq<char>
    decreases s.len(),
{
    if s.len() == 0 || s[0] == mark {
        Seq::empty()
    } else {
        seq![s[0]] + before_first(s.drop_first(), mark)
    }
}

/// The character views of a list of strings, in order.
pub open spec fn texts(list: Seq<String>) -> Seq<Seq<char>> {
    Seq::new(list.len(), |i: int| list[i]@)
}

/// The lowercase forms of a list of names, in order.
pub open spec fn lowered(names: Seq<Seq<char>>) -> Seq<Seq<char>> {
    Seq::new(names.len(), |i: int| lowercase(names[i]))
}

/// A list without its repetitions: of texts that stand in it more than once
/// only the first is kept.
pub open spec fn first_occurrences(items: Seq<Seq<char>>) -> Seq<Seq<char>>
    decreases items.len(),
{
    if items.len() == 0 {
        Seq::empty()
    } else {
        let earlier = first_occurrences(items.drop_last());
        if earlier.contains(items.last()) {
            earlier
        } else {
            earlier.push(items.last())
        }
    }
}

/// A list of names folded for matching: every name lowercased, and of names
/// that fold to the same text only the first kept.
pub open spec fn folded(names: Seq<Seq<char>>) -> Seq<Seq<char>> {
    first_occurrences(lowered(names))
}

/// Calls `str::to_lowercase`. Trusted: the result is the standard library's
/// lowercase form of the argument, which `lowercase` names.
#[verifier::external_body]
pub(crate) fn to_lowercase(s: &str) -> (lowered: String)
    ensures
        lowered@ == lowercase(s@),
{
    s.to_lowercase()
}

/// Calls `str::contains` with a string pattern. Trusted: it answers whether the
/// pattern matches a sub-slice of the text, that is whether `needle` occurs in
/// `hay`.
#[verifier::external_body]
pub(crate) fn contains(hay: &str, needle: &str) -> (found: bool)
    ensures
        found == occurs_in(needle@, hay@),
{
    hay.contains(needle)
}

/// Calls `str::strip_suffix` with a string pattern. Trusted: when the text ends
/// with the suffix it returns what stands before it, and otherwise nothing.
#[verifier::external_body]
pub(crate) fn strip_suffix<'a>(s: &'a str, suffix: &str) -> (stem: Option<&'a str>)
    ensures
        stem is Some <==> ends_with(s@, suffix@),
        stem matches Some(rest) ==> rest@ == s@.subrange(0, s@.len() - suffix@.len()),
{
    s.strip_suffix(suffix)
}

/// Calls `str::starts_with` with a string pattern. Trusted: it answers whether
/// the pattern matches a prefix of the text.
#[verifier::external_body]
pub(crate) fn has_prefix(s: &str, prefix: &str) -> (found: bool)
    ensures
        found == starts_with(s@, prefix@),
{
    s.starts_with(prefix)
}

/// Calls `str::split_once` with a character pattern. Trusted: it splits at the
/// first occurrence of the delimiter into what stands before and after it, and
/// returns nothing when the delimiter does not occur.
#[verifier::external_body]
pub(crate) fn split_once<'a>(s: &'a str, delimiter: char) -> (parts: Option<(&'a str, &'a str)>)
    ensures
        match parts {
            Some((head, tail)) => s@ == head@ + seq![delimiter] + tail@ && !head@.contains(
                delimiter,
            ),
            None => !s@.contains(delimiter),
        },
{
    s.split_once(delimiter)
}

/// A text that holds no `mark` stands wholly before the first one.
pub proof fn lemma_before_first_absent(s: Seq<char>, mark: char)
    requires
        !s.contains(mark),
    ensures
        before_first(s, mark) == s,
    decreases s.len(),
{
    if s.len() > 0 {
        assert(s[0] != mark);
        assert forall|i: int| 0 <= i < s.drop_first().len() implies s.drop_first()[i] != mark by {
            assert(s.drop_first()[i] == s[i + 1]);
        }
        lemma_before_first_absent(s.drop_first(), mark);
        assert(seq![s[0]] + s.drop_first() =~= s);
    } else {
        assert(s =~= Seq::empty());
    }
}

/// Splitting at the first `mark` leaves before it exactly `before_first`.
pub proof fn lemma_before_first_split(head: Seq<char>, tail: Seq<char>, mark: char)
    requires
        !head.contains(mark),
    ensures
        before_first(head + seq![mark] + tail, mark) == head,
    decreases head.len(),
{
    let s = head + seq![mark] + tail;
    if head.len() == 0 {
        assert(s[0] == mark);
        assert(head =~= Seq::empty());
    } else {
        assert(s[0] == head[0]);
        assert(head[0] != mark);
        assert forall|i: int| 0 <= i < head.drop_first().len() implies head.drop_first()[i]
            != mark by {
            assert(head.drop_first()[i] == head[i + 1]);
        }
        assert(s.drop_first() =~= head.drop_first() + seq![mark] + tail);
        lemma_before_first_split(head.drop_first(), tail, mark);
        assert(seq![head[0]] + head.drop_first() =~= head);
    }
}

/// What stands before the first `.` of a name; the whole name when it has none.
pub fn first_label(name: &str) -> (label: &str)
    ensures
        label@ == before_first(name@, '.'),
{
    match split_once(name, '.') {
        Some((head, tail)) => {
            proof {
                lemma_before_first_split(head@, tail@, '.');
            }
            head
        },
        None => {
            proof {
                lemma_before_first_absent(name@, '.');
            }
            name
        },
    }
}

/// Whether `wanted` is one of the strings of `list`.
pub fn holds_text(list: &Vec<String>, wanted: &str) -> (found: bool)
    ensures
        found == texts(list@).contains(wanted@),
{
    let key = wanted.to_owned();
    let mut i: usize = 0;
    while i < list.len()
        invariant
            i <= list.len(),
            key@ == wanted@,
            forall|j: int| 0 <= j < i ==> texts(list@)[j] != wanted@,
        decreases list.len() - i,
    {
        if list[i] == key {
            assert(texts(list@)[i as int] == wanted@);
            return true;
        }
        i += 1;
    }
    false
}

/// A list without its repetitions holds the same texts as the list.
pub proof fn lemma_first_occurrences_members(items: Seq<Seq<char>>, wanted: Seq<char>)
    ensures
        first_occurrences(items).contains(wanted) <==> items.contains(wanted),
    decreases items.len(),
{
    if items.len() > 0 {
        let earlier = first_occurrences(items.drop_last());
        let kept = first_occurrences(items);
        lemma_first_occurrences_members(items.drop_last(), wanted);
        if kept.contains(wanted) {
            if earlier.contains(wanted) {
                let i = choose|i: int|
                    0 <= i < items.drop_last().len() && items.drop_last()[i] == wanted;
                assert(items[i] == wanted);
            } else {
                let k = choose|k: int| 0 <= k < kept.len() && kept[k] == wanted;
                if k < earlier.len() {
                    assert(earlier[k] == wanted);
                }
                assert(items[items.len() - 1] == wanted);
            }
        }
        if items.contains(wanted) {
            let i = choose|i: int| 0 <= i < items.len() && items[i] == wanted;
            if i < items.len() - 1 {
                assert(items.drop_last()[i] == wanted);
                let k = choose|k: int| 0 <= k < earlier.len() && earlier[k] == wanted;
                assert(kept[k] == wanted);
            } else if !earlier.contains(wanted) {
                assert(kept[earlier.len() as int] == wanted);
            } else {
                let k = choose|k: int| 0 <= k < earlier.len() && earlier[k] == wanted;
                assert(kept[k] == wanted);
            }
        }
    }
}

/// No text stands twice in a list without its repetitions.
pub proof fn lemma_first_occurrences_distinct(items: Seq<Seq<char>>)
    ensures
        first_occurrences(items).no_duplicates(),
    decreases items.len(),
{
    if items.len() > 0 {
        lemma_first_occurrences_distinct(items.drop_last());
    }
}

/// Every folded name is the lowercase form of one of the names, and the
/// lowercase form of every name is among the folded ones.
pub proof fn lemma_folded_members(names: Seq<Seq<char>>, wanted: Seq<char>)
    ensures
        folded(names).contains(wanted) <==> exists|i: int|
            0 <= i < names.len() && wanted == lowercase(#[trigger] names[i]),
{
    lemma_first_occurrences_members(lowered(names), wanted);
    if lowered(names).contains(wanted) {
        let i = choose|i: int| 0 <= i < lowered(names).len() && lowered(names)[i] == wanted;
        assert(wanted == lowercase(names[i]));
    }
    if exists|i: int| 0 <= i < names.len() && wanted == lowercase(#[trigger] names[i]) {
        let i = choose|i: int| 0 <= i < names.len() && wanted == lowercase(#[trigger] names[i]);
        assert(lowered(names)[i] == wanted);
    }
}

/// No text stands twice among folded names.
pub proof fn lemma_folded_distinct(names: Seq<Seq<char>>)
    ensures
        folded(names).no_duplicates(),
{
    lemma_first_occurrences_distinct(lowered(names));
}

/// Lowercases every name of a list.
pub fn lowercase_all(names: &Vec<String>) -> (out: Vec<String>)
    ensures
        texts(out@) == lowered(texts(names@)),
{
    let mut out: Vec<String> = Vec::new();
    let mut i: usize = 0;
    while i < names.len()
        invariant
            i <= names.len(),
            out@.len() == i,
            forall|j: int| 0 <= j < i ==> (#[trigger] out@[j])@ == lowercase(names@[j]@),
        decreases names.len() - i,
    {
        out.push(to_lowercase(names[i].as_str()));
        i += 1;
    }
    assert(texts(out@) =~= lowered(texts(names@)));
    out
}

/// Drops the repetitions of a list: keeps the first of equal strings.
pub fn keep_first(items: &Vec<String>) -> (out: Vec<String>)
    ensures
        texts(out@) == first_occurrences(texts(items@)),
{
    let mut out: Vec<String> = Vec::new();
    let mut i: usize = 0;
    assert(texts(items@).take(0) =~= Seq::empty());
    assert(texts(out@) =~= Seq::empty());
    while i < items.len()
        invariant
            i <= items.len(),
            texts(out@) == first_occurrences(texts(items@).take(i as int)),
        decreases items.len() - i,
    {
        let ghost before = texts(out@);
        let ghost upto = texts(items@).take(i as int + 1);
        proof {
            assert(upto.drop_last() =~= texts(items@).take(i as int));
            assert(upto.last() == items@[i as int]@);
        }
        if !holds_text(&out, items[i].as_str()) {
            let item = items[i].clone();
            out.push(item);
            assert(texts(out@) =~= before.push(item@));
        }
        i += 1;
    }
    assert(texts(items@).take(items.len() as int) =~= texts(items@));
    out
}

/// Folds a list of names for matching: lowercases each and keeps the first of
/// those that fold to the same text.
pub fn fold_names(names: &Vec<String>) -> (out: Vec<String>)
    ensures
        texts(out@) == folded(texts(names@)),
{
    keep_first(&lowercase_all(names))
}

/// The character of a decimal digit.
pub open spec fn digit(d: int) -> char {
    if d == 0 {
        '0'
    } else if d == 1 {
        '1'
    } else if d == 2 {
        '2'
    } else if d == 3 {
        '3'
    } else if d == 4 {
        '4'
    } else if d == 5 {
        '5'
    } else if d == 6 {
        '6'
    } else if d == 7 {
        '7'
    } else if d == 8 {
        '8'
    } else {
        '9'
    }
}

/// A number in decimal digits, without leading zeros.
pub open spec fn decimal_text(n: nat) -> Seq<char>
    decreases n,
{
    if n < 10 {
        seq![digit(n as int)]
    } else {
        decimal_text(n / 10).push(digit((n % 10) as int))
    }
}

fn digit_text(d: u64) -> (text: &'static str)
    requires
        d < 10,
    ensures
        text@ == seq![digit(d as int)],
{
    proof {
        reveal_strlit("0");
        reveal_strlit("1");
        reveal_strlit("2");
        reveal_strlit("3");
        reveal_strlit("4");
        reveal_strlit("5");
        reveal_strlit("6");
        reveal_strlit("7");
        reveal_strlit("8");
        reveal_strlit("9");
    }
    let text = if d == 0 {
        "0"
    } else if d == 1 {
        "1"
    } else if d == 2 {
        "2"
    } else if d == 3 {
        "3"
    } else if d == 4 {
        "4"
    } else if d == 5 {
        "5"
    } else if d == 6 {
        "6"
    } else if d == 7 {
        "7"
    } else if d == 8 {
        "8"
    } else {
        "9"
    };
    assert(text@ =~= seq![digit(d as int)]);
    text
}

/// Writes a number in decimal digits.
pub fn decimal(n: u64) -> (text: String)
    ensures
        text@ == decimal_text(n as nat),
    decreases n,
{
    if n < 10 {
        digit_text(n).to_owned()
    } else {
        let mut text = decimal(n / 10);
        text.append(digit_text(n % 10));
        assert(text@ =~= decimal_text((n / 10) as nat).push(digit((n % 10) as int)));
        text
    }
}

} // verus!
