//! Lists of names, and names with identifiers.

use vstd::prelude::*;
use crate::text::same_text;

verus! {

/// The texts of a list.
pub open spec fn texts(list: Seq<String>) -> Seq<Seq<char>> {
    list.map_values(|s: String| s@)
}

/// The view of an optional text.
pub open spec fn text_or_none(s: Option<String>) -> Option<Seq<char>> {
    match s {
        Some(t) => Some(t@),
        None => None,
    }
}

/// A sequence without the items that stand in it before.
pub open spec fn without_repeats<T>(s: Seq<T>) -> Seq<T>
    decreases s.len(),
{
    if s.len() == 0 {
        s
    } else {
        let rest = without_repeats(s.drop_last());
        if rest.contains(s.last()) {
            rest
        } else {
            rest.push(s.last())
        }
    }
}

/// Texts with a separator between each two.
pub open spec fn joined(parts: Seq<Seq<char>>, separator: Seq<char>) -> Seq<char>
    decreases parts.len(),
{
    if parts.len() == 0 {
        Seq::empty()
    } else if parts.len() == 1 {
        parts[0]
    } else {
        joined(parts.drop_last(), separator) + separator + parts.last()
    }
}

/// The view of an optional borrowed text.
pub open spec fn str_or_none(s: Option<&str>) -> Option<Seq<char>> {
    match s {
        Some(t) => Some(t@),
        None => None,
    }
}

/// Borrows an optional text.
pub fn borrowed<'a>(s: &'a Option<String>) -> (r: Option<&'a str>)
    ensures
        str_or_none(r) == text_or_none(*s),
{
    match s {
        Some(t) => Some(t.as_str()),
        None => None,
    }
}

/// Whether two optional texts are the same.
pub fn same_optional_text(a: &Option<String>, b: &Option<String>) -> (r: bool)
    ensures
        r == (text_or_none(*a) == text_or_none(*b)),
{
    match (a, b) {
        (Some(x), Some(y)) => same_text(x.as_str(), y.as_str()),
        (None, None) => true,
        _ => false,
    }
}

/// Whether a text is in a list.
pub fn list_contains(list: &Vec<String>, name: &str) -> (r: bool)
    ensures
        r == texts(list@).contains(name@),
{
    let mut i: usize = 0;
    while i < list.len()
        invariant
            i <= list@.len(),
            forall|j: int| 0 <= j < i ==> list@[j]@ != name@,
        decreases list@.len() - i,
    {
        if same_text(list[i].as_str(), name) {
            assert(texts(list@)[i as int] == name@);
            return true;
        }
        i = i + 1;
    }
    assert(!texts(list@).contains(name@)) by {
        assert forall|j: int| 0 <= j < texts(list@).len() implies texts(list@)[j] != name@ by {
            assert(list@[j]@ != name@);
        }
    }
    false
}

/// Copies a list of texts.
pub fn copy_list(list: &Vec<String>) -> (r: Vec<String>)
    ensures
        texts(r@) == texts(list@),
{
    let mut out: Vec<String> = Vec::new();
    let mut i: usize = 0;
    while i < list.len()
        invariant
            i <= list@.len(),
            out@.len() == i,
            forall|j: int| 0 <= j < i ==> out@[j]@ == list@[j]@,
        decreases list@.len() - i,
    {
        out.push(list[i].clone());
        i = i + 1;
    }
    assert(texts(out@) =~= texts(list@));
    out
}

/// A list without its repeats, each name where it stood first.
pub fn distinct(list: &Vec<String>) -> (r: Vec<String>)
    ensures
        texts(r@) == without_repeats(texts(list@)),
{
    let mut out: Vec<String> = Vec::new();
    let mut i: usize = 0;
    assert(texts(out@) =~= without_repeats(texts(list@).take(0)));
    while i < list.len()
        invariant
            i <= list@.len(),
            texts(out@) == without_repeats(texts(list@).take(i as int)),
        decreases list@.len() - i,
    {
        let ghost before = out@;
        assert(texts(list@).take(i + 1).drop_last() =~= texts(list@).take(i as int));
        assert(texts(list@).take(i + 1).last() == list@[i as int]@);
        if !list_contains(&out, list[i].as_str()) {
            out.push(list[i].clone());
            assert(texts(out@) =~= texts(before).push(list@[i as int]@));
        }
        i = i + 1;
    }
    assert(texts(list@).take(list@.len() as int) =~= texts(list@));
    out
}

/// The names of a list that are not in another, in order.
pub open spec fn not_among(list: Seq<Seq<char>>, known: Set<Seq<char>>) -> Seq<Seq<char>> {
    list.filter(|name: Seq<char>| !known.contains(name))
}

/// Joins texts with a separator.
pub fn join(parts: &Vec<String>, separator: &str) -> (r: String)
    ensures
        r@ == joined(texts(parts@), separator@),
{
    if parts.len() == 0 {
        return String::new();
    }
    let mut out = parts[0].clone();
    let mut i: usize = 1;
    assert(texts(parts@).take(1) =~= seq![parts@[0]@]);
    while i < parts.len()
        invariant
            1 <= i <= parts@.len(),
            out@ == joined(texts(parts@).take(i as int), separator@),
        decreases parts@.len() - i,
    {
        out.append(separator);
        out.append(parts[i].as_str());
        assert(texts(parts@).take(i + 1).drop_last() =~= texts(parts@).take(i as int));
        i = i + 1;
    }
    assert(texts(parts@).take(parts@.len() as int) =~= texts(parts@));
    out
}

/// Identifiers by name; a later entry of a name stands for it.
#[derive(Debug)]
pub struct NameIds {
    entries: Vec<(String, u128)>,
}

/// The map that a list of entries makes, later ones over earlier ones.
pub open spec fn entries_map(entries: Seq<(String, u128)>) -> Map<Seq<char>, u128>
    decreases entries.len(),
{
    if entries.len() == 0 {
        Map::empty()
    } else {
        entries_map(entries.drop_last()).insert(entries.last().0@, entries.last().1)
    }
}

impl View for NameIds {
    type V = Map<Seq<char>, u128>;

    closed spec fn view(&self) -> Map<Seq<char>, u128> {
        entries_map(self.entries@)
    }
}

impl NameIds {
    /// No names.
    pub fn new() -> (r: NameIds)
        ensures
            r@ == Map::<Seq<char>, u128>::empty(),
    {
        NameIds { entries: Vec::new() }
    }

    /// The names of a list of entries, later ones over earlier ones.
    pub fn of_entries(entries: Vec<(String, u128)>) -> (r: NameIds)
        ensures
            r@ == entries_map(entries@),
    {
        NameIds { entries }
    }

    /// Gives a name its identifier.
    pub fn insert(&mut self, name: String, id: u128)
        ensures
            final(self)@ == old(self)@.insert(name@, id),
    {
        let ghost before = self.entries@;
        self.entries.push((name, id));
        assert(self.entries@.drop_last() =~= before);
    }

    /// The identifier of a name.
    pub fn get(&self, name: &str) -> (r: Option<u128>)
        ensures
            r == (if self@.contains_key(name@) {
                Some(self@[name@])
            } else {
                None
            }),
    {
        let mut i: usize = self.entries.len();
        assert(self.entries@.take(i as int) =~= self.entries@);
        while i > 0
            invariant
                i <= self.entries@.len(),
                self@.contains_key(name@) == entries_map(
                    self.entries@.take(i as int),
                ).contains_key(name@),
                self@.contains_key(name@) ==> self@[name@] == entries_map(
                    self.entries@.take(i as int),
                )[name@],
            decreases i,
        {
            let ghost here = self.entries@.take(i as int);
            assert(here.drop_last() =~= self.entries@.take(i - 1));
            assert(here.last() == self.entries@[i - 1]);
            i = i - 1;
            if same_text(self.entries[i].0.as_str(), name) {
                return Some(self.entries[i].1);
            }
        }
        None
    }
}

/// The names of a list that have no identifier, in order.
pub fn missing_names(list: &Vec<String>, known: &NameIds) -> (r: Vec<String>)
    ensures
        texts(r@) == not_among(texts(list@), known@.dom()),
{
    let mut out: Vec<String> = Vec::new();
    let mut i: usize = 0;
    let ghost keep = |name: Seq<char>| !known@.dom().contains(name);
    assert(texts(out@) =~= texts(list@).take(0).filter(keep)) by {
        reveal(Seq::filter);
    }
    while i < list.len()
        invariant
            i <= list@.len(),
            keep == (|name: Seq<char>| !known@.dom().contains(name)),
            texts(out@) == texts(list@).take(i as int).filter(keep),
        decreases list@.len() - i,
    {
        let ghost before = out@;
        let ghost here = texts(list@).take(i + 1);
        assert(here.drop_last() =~= texts(list@).take(i as int));
        assert(here.last() == list@[i as int]@);
        proof {
            reveal(Seq::filter);
        }
        if known.get(list[i].as_str()).is_none() {
            out.push(list[i].clone());
            assert(texts(out@) =~= texts(before).push(list@[i as int]@));
        }
        i = i + 1;
    }
    assert(texts(list@).take(list@.len() as int) =~= texts(list@));
    out
}

/// A list without repeats holds what the list held, each name once.
pub proof fn law_without_repeats<T>(s: Seq<T>)
    ensures
        without_repeats(s).no_duplicates(),
        forall|x: T| without_repeats(s).contains(x) <==> s.contains(x),
    decreases s.len(),
{
    if s.len() > 0 {
        law_without_repeats(s.drop_last());
        let rest = without_repeats(s.drop_last());
        assert(s =~= s.drop_last().push(s.last()));
        assert forall|x: T| without_repeats(s).contains(x) <==> s.contains(x) by {
            assert(s.contains(x) <==> (s.drop_last().contains(x) || x == s.last())) by {
                if s.contains(x) {
                    let i = choose|i: int| 0 <= i < s.len() && s[i] == x;
                    if i < s.len() - 1 {
                        assert(s.drop_last()[i] == x);
                    }
                }
                if s.drop_last().contains(x) {
                    let i = choose|i: int| 0 <= i < s.len() - 1 && s.drop_last()[i] == x;
                    assert(s[i] == x);
                }
                assert(s[s.len() - 1] == s.last());
            }
            if !rest.contains(s.last()) {
                let longer = rest.push(s.last());
                assert(longer[rest.len() as int] == s.last());
                if rest.contains(x) {
                    let i = choose|i: int| 0 <= i < rest.len() && rest[i] == x;
                    assert(longer[i] == x);
                }
            }
        }
    }
}

/// An optional text is seen as its characters where it is there, and as nothing
/// where it is not; a list is seen item by item.
pub proof fn law_texts_are_seen_as_they_are(s: String, list: Seq<String>, i: int)
    requires
        0 <= i < list.len(),
    ensures
        text_or_none(Some(s)) == Some(s@),
        text_or_none(None) is None,
        texts(list).len() == list.len(),
        texts(list)[i] == list[i]@,
{
}

/// An optional borrowed text is seen as its characters.
pub proof fn law_borrowed_texts_are_seen_as_they_are(s: &str)
    ensures
        str_or_none(Some(s)) == Some(s@),
        str_or_none(None) is None,
{
}

/// Joining nothing gives nothing, one text is itself, and every further text
/// comes behind a separator.
pub proof fn law_joining_one_more(parts: Seq<Seq<char>>, separator: Seq<char>, part: Seq<char>)
    ensures
        joined(Seq::empty(), separator).len() == 0,
        parts.len() == 0 ==> joined(parts.push(part), separator) == part,
        parts.len() > 0 ==> joined(parts.push(part), separator) == joined(parts, separator)
            + separator + part,
{
    assert(parts.push(part).drop_last() =~= parts);
}

/// What is not among the known names is in the list and is not known, and every
/// such name of the list is given.
pub proof fn law_missing_names_are_unknown(
    list: Seq<Seq<char>>,
    known: Set<Seq<char>>,
    name: Seq<char>,
)
    ensures
        not_among(list, known).contains(name) <==> list.contains(name) && !known.contains(name),
{
    let keep = |n: Seq<char>| !known.contains(n);
    if list.filter(keep).contains(name) {
        list.lemma_filter_contains_rev(keep, name);
        let i = choose|i: int| 0 <= i < list.filter(keep).len() && list.filter(keep)[i] == name;
        list.lemma_filter_pred(keep, i);
    }
    if list.contains(name) && !known.contains(name) {
        let i = choose|i: int| 0 <= i < list.len() && list[i] == name;
        list.lemma_filter_contains(keep, i);
    }
}

/// Of several entries of a name the last gives its identifier, and a name without
/// an entry has none.
pub proof fn law_last_entry_gives_the_identifier(entries: Seq<(String, u128)>, i: int)
    requires
        0 <= i < entries.len(),
        forall|j: int| i < j < entries.len() ==> (#[trigger] entries[j]).0@ != entries[i].0@,
    ensures
        entries_map(entries).contains_key(entries[i].0@),
        entries_map(entries)[entries[i].0@] == entries[i].1,
    decreases entries.len(),
{
    if i < entries.len() - 1 {
        let rest = entries.drop_last();
        assert forall|j: int| i < j < rest.len() implies (#[trigger] rest[j]).0@ != rest[i].0@ by {
            assert(entries[j].0@ != entries[i].0@);
        }
        law_last_entry_gives_the_identifier(rest, i);
        assert(entries[entries.len() - 1].0@ != entries[i].0@);
    }
}

/// A name that no entry has is not given an identifier.
pub proof fn law_unknown_names_have_no_identifier(entries: Seq<(String, u128)>, name: Seq<char>)
    requires
        forall|j: int| 0 <= j < entries.len() ==> (#[trigger] entries[j]).0@ != name,
    ensures
        !entries_map(entries).contains_key(name),
    decreases entries.len(),
{
    if entries.len() > 0 {
        let rest = entries.drop_last();
        assert forall|j: int| 0 <= j < rest.len() implies (#[trigger] rest[j]).0@ != name by {
            assert(entries[j].0@ != name);
        }
        law_unknown_names_have_no_identifier(rest, name);
        assert(entries[entries.len() - 1].0@ != name);
    }
}

/// One name more is added to a list without repeats exactly where it is new, and
/// then at the end.
pub proof fn law_only_new_names_are_added<T>(s: Seq<T>, x: T)
    ensures
        s.contains(x) ==> without_repeats(s.push(x)) == without_repeats(s),
        !s.contains(x) ==> without_repeats(s.push(x)) == without_repeats(s).push(x),
        without_repeats(Seq::<T>::empty()).len() == 0,
{
    law_without_repeats(s);
    assert(s.push(x).drop_last() =~= s);
}

}
