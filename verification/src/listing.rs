use crate::text::chars_of;
use vstd::prelude::*;

verus! {

/// One entry of the workspace directory, as the caller found it on disk.
#[derive(Debug)]
pub struct WorkspaceEntry {
    /// The entry's name, or nothing where the name is not valid text.
    pub name: Option<String>,
    /// Whether the entry is a regular file.
    pub is_file: bool,
}

/// A [`WorkspaceEntry`] with its name as a character sequence.
pub struct WorkspaceEntryView {
    pub name: Option<Seq<char>>,
    pub is_file: bool,
}

impl View for WorkspaceEntry {
    type V = WorkspaceEntryView;

    open spec fn view(&self) -> WorkspaceEntryView {
        WorkspaceEntryView {
            name: match self.name {
                Some(name) => Some(name@),
                None => None,
            },
            is_file: self.is_file,
        }
    }
}

/// `name` is visible, that is it does not start with a dot, and ends in `.md`.
pub open spec fn is_markdown_name(name: Seq<char>) -> bool {
    &&& name.len() >= 3
    &&& name[0] != '.'
    &&& name[name.len() - 3] == '.'
    &&& name[name.len() - 2] == 'm'
    &&& name[name.len() - 1] == 'd'
}

/// The entry is a regular file with a markdown name.
pub open spec fn is_listed(entry: WorkspaceEntryView) -> bool {
    entry.is_file && entry.name is Some && is_markdown_name(entry.name->0)
}

/// The names of the listed entries, in the order of the entries.
pub open spec fn listed_names(entries: Seq<WorkspaceEntryView>) -> Seq<Seq<char>> {
    entries.filter(|entry: WorkspaceEntryView| is_listed(entry)).map_values(
        |entry: WorkspaceEntryView| entry.name->0,
    )
}

/// `a` comes before `b`, or equals it, when both are compared from position `from` on:
/// the first position at which they differ decides, by the characters' code points, and a
/// text that ends first comes first.
pub open spec fn precedes_from(a: Seq<char>, b: Seq<char>, from: int) -> bool
    decreases a.len() - from,
{
    if from < 0 || from >= a.len() {
        true
    } else if from >= b.len() {
        false
    } else if (a[from] as u32) != (b[from] as u32) {
        (a[from] as u32) < (b[from] as u32)
    } else {
        precedes_from(a, b, from + 1)
    }
}

/// `a` comes before `b`, or equals it, in lexicographic order.
pub open spec fn precedes(a: Seq<char>, b: Seq<char>) -> bool {
    precedes_from(a, b, 0)
}

/// Every text in `names` precedes all that follow it.
pub open spec fn is_ascending(names: Seq<Seq<char>>) -> bool {
    forall|i: int, j: int| 0 <= i < j < names.len() ==> precedes(names[i], names[j])
}

/// The texts of a list of strings, in order.
pub open spec fn name_texts(names: Seq<String>) -> Seq<Seq<char>> {
    names.map_values(|name: String| name@)
}

/// Of two texts, one precedes the other.
pub proof fn lemma_precedes_total(a: Seq<char>, b: Seq<char>, from: int)
    requires
        0 <= from,
    ensures
        precedes_from(a, b, from) || precedes_from(b, a, from),
    decreases a.len() - from,
{
    if from < a.len() && from < b.len() && (a[from] as u32) == (b[from] as u32) {
        lemma_precedes_total(a, b, from + 1);
    }
}

/// If `a` precedes `b` and `b` precedes `c`, then `a` precedes `c`.
pub proof fn lemma_precedes_transitive(a: Seq<char>, b: Seq<char>, c: Seq<char>, from: int)
    requires
        0 <= from,
        precedes_from(a, b, from),
        precedes_from(b, c, from),
    ensures
        precedes_from(a, c, from),
    decreases a.len() - from,
{
    if from < a.len() && from < b.len() && from < c.len() && (a[from] as u32) == (b[from] as u32)
        && (b[from] as u32) == (c[from] as u32) {
        lemma_precedes_transitive(a, b, c, from + 1);
    }
}

/// Two texts that precede each other are equal.
pub proof fn lemma_precedes_antisymmetric(a: Seq<char>, b: Seq<char>, from: int)
    requires
        0 <= from,
        from <= a.len(),
        from <= b.len(),
        precedes_from(a, b, from),
        precedes_from(b, a, from),
        a.take(from) == b.take(from),
    ensures
        a == b,
    decreases a.len() - from,
{
    if from < a.len() && from < b.len() {
        assert(a[from] == b[from]) by {
            vstd::utf8::char_u32_cast(a[from], a[from] as u32);
            vstd::utf8::char_u32_cast(b[from], b[from] as u32);
        }
        assert(a.take(from + 1) =~= a.take(from).push(a[from]));
        assert(b.take(from + 1) =~= b.take(from).push(b[from]));
        lemma_precedes_antisymmetric(a, b, from + 1);
    } else {
        assert(a.take(from) =~= a);
        assert(b.take(from) =~= b);
    }
}

/// Every text precedes itself.
pub proof fn lemma_precedes_reflexive(a: Seq<char>, from: int)
    requires
        0 <= from,
    ensures
        precedes_from(a, a, from),
    decreases a.len() - from,
{
    if from < a.len() {
        lemma_precedes_reflexive(a, from + 1);
    }
}

/// An ascending listing is determined by what it holds: two ascending sequences with the
/// same texts, each as often in one as in the other, are the same sequence.
pub proof fn lemma_ascending_is_unique(first: Seq<Seq<char>>, second: Seq<Seq<char>>)
    requires
        is_ascending(first),
        is_ascending(second),
        first.to_multiset() == second.to_multiset(),
    ensures
        first == second,
{
    let order = |a: Seq<char>, b: Seq<char>| precedes(a, b);
    assert forall|a: Seq<char>| #[trigger] order(a, a) by {
        lemma_precedes_reflexive(a, 0);
    }
    assert forall|a: Seq<char>, b: Seq<char>| #[trigger]
        order(a, b) && #[trigger] order(b, a) implies a == b by {
        assert(a.take(0) =~= b.take(0));
        lemma_precedes_antisymmetric(a, b, 0);
    }
    assert forall|a: Seq<char>, b: Seq<char>, c: Seq<char>| #[trigger]
        order(a, b) && #[trigger] order(b, c) implies order(a, c) by {
        lemma_precedes_transitive(a, b, c, 0);
    }
    assert forall|a: Seq<char>, b: Seq<char>| #[trigger] order(a, b) || #[trigger] order(b, a) by {
        lemma_precedes_total(a, b, 0);
    }
    assert(vstd::relations::total_ordering(order));
    assert(vstd::relations::sorted_by(first, order));
    assert(vstd::relations::sorted_by(second, order));
    vstd::seq_lib::lemma_sorted_unique(first, second, order);
}

/// Decides whether `name` is a visible markdown name.
fn has_markdown_name(name: &Vec<char>) -> (listed: bool)
    ensures
        listed == is_markdown_name(name@),
{
    let n = name.len();
    n >= 3 && name[0] != '.' && name[n - 3] == '.' && name[n - 2] == 'm' && name[n - 1] == 'd'
}

/// Decides whether `a` precedes `b` in lexicographic order.
fn comes_first(a: &Vec<char>, b: &Vec<char>) -> (first: bool)
    ensures
        first == precedes(a@, b@),
{
    let mut k: usize = 0;
    while k < a.len() && k < b.len()
        invariant
            k <= a.len(),
            k <= b.len(),
            precedes(a@, b@) == precedes_from(a@, b@, k as int),
        decreases a.len() - k,
    {
        let x = a[k] as u32;
        let y = b[k] as u32;
        if x != y {
            return x < y;
        }
        k = k + 1;
    }
    k >= a.len()
}

/// The entries of a directory as their views, in order.
pub open spec fn entry_views(entries: Seq<WorkspaceEntry>) -> Seq<WorkspaceEntryView> {
    entries.map_values(|entry: WorkspaceEntry| entry@)
}

/// The names to list for the outcome of reading a directory: those of the listed entries,
/// and none where the directory could not be read.
pub open spec fn found_names(entries: Option<Vec<WorkspaceEntry>>) -> Seq<Seq<char>> {
    match entries {
        Some(list) => listed_names(entry_views(list@)),
        None => Seq::empty(),
    }
}

/// Looking at one more entry adds its name to the listed names if the entry is listed, and
/// nothing otherwise.
proof fn lemma_listed_names_step(entries: Seq<WorkspaceEntryView>, i: int)
    requires
        0 <= i < entries.len(),
    ensures
        listed_names(entries.take(i + 1)) == if is_listed(entries[i]) {
            listed_names(entries.take(i)).push(entries[i].name->0)
        } else {
            listed_names(entries.take(i))
        },
{
    let seen = entries.take(i);
    let listed = |entry: WorkspaceEntryView| is_listed(entry);
    let name = |entry: WorkspaceEntryView| entry.name->0;
    entries.lemma_take_succ_push(i);
    seen.lemma_filter_push(entries[i], listed);
    seen.filter(listed).lemma_push_map_commute(name, entries[i]);
}

/// Putting `name` into an ascending sequence behind everything that precedes it and
/// before everything that it precedes leaves the sequence ascending.
proof fn lemma_insert_keeps_ascending(names: Seq<Seq<char>>, at: int, name: Seq<char>)
    requires
        is_ascending(names),
        0 <= at <= names.len(),
        forall|k: int| 0 <= k < at ==> precedes(#[trigger] names[k], name),
        forall|k: int| at <= k < names.len() ==> precedes(name, #[trigger] names[k]),
    ensures
        is_ascending(names.insert(at, name)),
{
    let grown = names.insert(at, name);
    assert forall|i: int, j: int| 0 <= i < j < grown.len() implies precedes(
        grown[i],
        grown[j],
    ) by {
        if i < at && j > at {
            assert(grown[i] == names[i] && grown[j] == names[j - 1]);
        } else if i < at && j < at {
            assert(grown[i] == names[i] && grown[j] == names[j]);
        } else if i > at {
            assert(grown[i] == names[i - 1] && grown[j] == names[j - 1]);
        } else if i == at {
            assert(grown[j] == names[j - 1]);
        } else {
            assert(grown[i] == names[i]);
        }
    }
}

/// The markdown files of the workspace directory, by name, in ascending order.
///
/// `entries` is what reading the directory gave: its direct entries, or nothing where it
/// could not be read, which lists no file and is no failure. Kept are the regular files
/// whose name is valid text, does not start with a dot and ends in `.md`; directories and
/// all other files are left out. The names come back in lexicographic order of their code
/// points, each as often as it was found.
pub fn list_markdown_files(entries: Option<Vec<WorkspaceEntry>>) -> (names: Vec<String>)
    ensures
        is_ascending(name_texts(names@)),
        name_texts(names@).to_multiset() == found_names(entries).to_multiset(),
        forall|k: int| 0 <= k < names@.len() ==> is_markdown_name(#[trigger] names@[k]@),
{
    let mut names: Vec<String> = Vec::new();
    let mut keys: Vec<Vec<char>> = Vec::new();
    assert(name_texts(names@) =~= Seq::<Seq<char>>::empty());
    match &entries {
        None => {},
        Some(list) => {
            let ghost found = entry_views(list@);
            proof {
                found.take(0).lemma_filter_len(|entry: WorkspaceEntryView| is_listed(entry));
                assert(listed_names(found.take(0)) =~= Seq::<Seq<char>>::empty());
            }
            let mut i: usize = 0;
            while i < list.len()
                invariant
                    i <= list.len(),
                    found == entry_views(list@),
                    keys@.len() == names@.len(),
                    forall|k: int| 0 <= k < names@.len() ==> #[trigger] keys@[k]@ == names@[k]@,
                    forall|k: int|
                        0 <= k < names@.len() ==> is_markdown_name(#[trigger] names@[k]@),
                    is_ascending(name_texts(names@)),
                    name_texts(names@).to_multiset() == listed_names(
                        found.take(i as int),
                    ).to_multiset(),
                decreases list.len() - i,
            {
                let entry = &list[i];
                proof {
                    lemma_listed_names_step(found, i as int);
                    assert(found[i as int] == entry@);
                }
                if entry.is_file {
                    match &entry.name {
                        None => {},
                        Some(name) => {
                            let key = chars_of(name.as_str());
                            if has_markdown_name(&key) {
                                let ghost before = name_texts(names@);
                                proof {
                                    assert forall|i: int, j: int|
                                        0 <= i < j < keys@.len() implies precedes(
                                        keys@[i]@,
                                        keys@[j]@,
                                    ) by {
                                        assert(before[i] == keys@[i]@ && before[j] == keys@[j]@);
                                    }
                                }
                                let at = insertion_point(&keys, &key);
                                proof {
                                    assert forall|k: int| 0 <= k < at implies precedes(
                                        #[trigger] before[k],
                                        key@,
                                    ) by {
                                        assert(before[k] == keys@[k]@);
                                    }
                                    assert forall|k: int| at <= k < before.len() implies precedes(
                                        key@,
                                        #[trigger] before[k],
                                    ) by {
                                        assert(before[k] == keys@[k]@);
                                    }
                                    lemma_insert_keeps_ascending(before, at as int, key@);
                                    vstd::seq_lib::to_multiset_insert(before, at as int, key@);
                                    vstd::seq_lib::to_multiset_build(
                                        listed_names(found.take(i as int)),
                                        key@,
                                    );
                                }
                                names.insert(at, name.clone());
                                keys.insert(at, key);
                                assert(name_texts(names@) =~= before.insert(at as int, key@));
                            }
                        },
                    }
                }
                i = i + 1;
            }
            assert(found.take(list.len() as int) =~= found);
        },
    }
    names
}

/// The place in the ascending `keys` at which `key` belongs: behind every key that
/// precedes it, so that equal keys keep the order in which they came.
fn insertion_point(keys: &Vec<Vec<char>>, key: &Vec<char>) -> (at: usize)
    requires
        forall|i: int, j: int| 0 <= i < j < keys@.len() ==> precedes(keys@[i]@, keys@[j]@),
    ensures
        at <= keys@.len(),
        forall|k: int| 0 <= k < at ==> precedes(#[trigger] keys@[k]@, key@),
        forall|k: int| at <= k < keys@.len() ==> precedes(key@, #[trigger] keys@[k]@),
{
    let mut at = keys.len();
    while at > 0 && !comes_first(&keys[at - 1], key)
        invariant
            at <= keys@.len(),
            forall|i: int, j: int| 0 <= i < j < keys@.len() ==> precedes(keys@[i]@, keys@[j]@),
            forall|k: int| at <= k < keys@.len() ==> precedes(key@, #[trigger] keys@[k]@),
        decreases at,
    {
        proof {
            lemma_precedes_total(keys@[at - 1]@, key@, 0);
        }
        at = at - 1;
    }
    proof {
        if at > 0 {
            assert forall|k: int| 0 <= k < at implies precedes(#[trigger] keys@[k]@, key@) by {
                if k < at - 1 {
                    assert(precedes(keys@[k]@, keys@[at - 1]@));
                    lemma_precedes_transitive(keys@[k]@, keys@[at - 1]@, key@, 0);
                }
            }
        }
    }
    at
}

} // verus!
