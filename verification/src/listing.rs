use crate::batch::{item_views, BatchItem, ItemView};
use vstd::prelude::*;
use vstd::string::StrSliceExecFns;
use vstd::string::StringExecFns;

verus! {

broadcast use vstd::seq_lib::group_to_multiset_ensures;

/// A regular file found in the source directory: its path, and its file name
/// and extension where they could be read as text.
#[derive(Clone, Debug, PartialEq, Eq)]
pub struct FoundFile {
    pub path: String,
    pub name: Option<String>,
    pub extension: Option<String>,
}

/// The text of a found file.
pub struct FoundView {
    pub path: Seq<char>,
    pub name: Option<Seq<char>>,
    pub extension: Option<Seq<char>>,
}

impl View for FoundFile {
    type V = FoundView;

    open spec fn view(&self) -> FoundView {
        FoundView {
            path: self.path@,
            name: match self.name {
                Some(name) => Some(name@),
                None => None,
            },
            extension: match self.extension {
                Some(extension) => Some(extension@),
                None => None,
            },
        }
    }
}

/// The views of the found files, in their order.
pub open spec fn found_views(found: Seq<FoundFile>) -> Seq<FoundView> {
    Seq::new(found.len(), |i: int| found[i]@)
}

/// The text in lower case, as `str::to_lowercase` gives it.
pub uninterp spec fn lowercased(text: Seq<char>) -> Seq<char>;

/// Calls `str::to_lowercase`. Believed of it: the result depends on the text
/// alone.
#[verifier::external_body]
fn to_lowercase(text: &str) -> (lower: String)
    ensures
        lower@ == lowercased(text@),
{
    text.to_lowercase()
}

/// The order of texts: character by character from the front, by code
/// point; a text comes before every longer text that begins with it.
pub open spec fn text_le(a: Seq<char>, b: Seq<char>) -> bool
    decreases a.len(),
{
    if a.len() == 0 {
        true
    } else if b.len() == 0 {
        false
    } else if a[0] != b[0] {
        (a[0] as int) < (b[0] as int)
    } else {
        text_le(a.drop_first(), b.drop_first())
    }
}

/// Decides the order of two strings, character by character.
fn str_le(a: &str, b: &str) -> (le: bool)
    ensures
        le == text_le(a@, b@),
{
    let a_len: usize = a.unicode_len();
    let b_len: usize = b.unicode_len();
    let mut at: usize = 0;
    assert(a@.subrange(0, a_len as int) =~= a@);
    assert(b@.subrange(0, b_len as int) =~= b@);
    while at < a_len && at < b_len
        invariant
            at <= a_len,
            at <= b_len,
            a_len == a@.len(),
            b_len == b@.len(),
            text_le(a@, b@) == text_le(
                a@.subrange(at as int, a_len as int),
                b@.subrange(at as int, b_len as int),
            ),
        decreases a_len - at,
    {
        let x = a.get_char(at);
        let y = b.get_char(at);
        proof {
            let rest_a = a@.subrange(at as int, a_len as int);
            let rest_b = b@.subrange(at as int, b_len as int);
            assert(rest_a[0] == x && rest_b[0] == y);
            assert(rest_a.drop_first() =~= a@.subrange(at + 1, a_len as int));
            assert(rest_b.drop_first() =~= b@.subrange(at + 1, b_len as int));
        }
        if x != y {
            return (x as u32) < (y as u32);
        }
        at = at + 1;
    }
    at == a_len
}

/// Whether files with this extension, given in lower case, are taken.
pub open spec fn is_supported(extension: Seq<char>) -> bool {
    extension == "png"@ || extension == "jpg"@ || extension == "jpeg"@ || extension == "webp"@
}

/// Tells whether files with this extension, given in lower case, are taken.
pub fn is_supported_extension(extension: &str) -> (supported: bool)
    ensures
        supported == is_supported(extension@),
{
    let given = String::from_str(extension);
    given == String::from_str("png") || given == String::from_str("jpg") || given
        == String::from_str("jpeg") || given == String::from_str("webp")
}

/// The batch item that a found file makes, if it makes one: its extension,
/// brought to lower case, must be a supported one. A file whose name could
/// not be read is shown as `image`.
pub open spec fn item_of(file: FoundView) -> Option<ItemView> {
    match file.extension {
        None => None,
        Some(extension) => if is_supported(lowercased(extension)) {
            Some(
                ItemView {
                    path: file.path,
                    name: match file.name {
                        Some(name) => name,
                        None => "image"@,
                    },
                    ext: lowercased(extension),
                },
            )
        } else {
            None
        },
    }
}

/// The items that the found files make, in the order of the files.
pub open spec fn selected(found: Seq<FoundView>) -> Seq<ItemView>
    decreases found.len(),
{
    if found.len() == 0 {
        Seq::empty()
    } else {
        match item_of(found.last()) {
            Some(item) => selected(found.drop_last()).push(item),
            None => selected(found.drop_last()),
        }
    }
}

/// An item together with the text that it is ordered by.
#[derive(Clone, Debug, PartialEq, Eq)]
pub struct Keyed {
    pub key: String,
    pub item: BatchItem,
}

/// The text of a keyed item.
pub struct KeyedView {
    pub key: Seq<char>,
    pub item: ItemView,
}

impl View for Keyed {
    type V = KeyedView;

    open spec fn view(&self) -> KeyedView {
        KeyedView { key: self.key@, item: self.item@ }
    }
}

/// The views of the keyed items, in their order.
pub open spec fn keyed_views(entries: Seq<Keyed>) -> Seq<KeyedView> {
    Seq::new(entries.len(), |i: int| entries[i]@)
}

/// Whether the entries stand in ascending order of their keys.
pub open spec fn is_sorted(entries: Seq<KeyedView>) -> bool {
    forall|i: int, j: int|
        0 <= i < j < entries.len() ==> text_le((#[trigger] entries[i]).key, (#[trigger] entries[j]).key)
}

/// Where a new entry with `key` goes into `entries`: behind the last entry
/// whose key is not greater.
pub open spec fn insert_point(entries: Seq<KeyedView>, key: Seq<char>) -> nat
    decreases entries.len(),
{
    if entries.len() == 0 {
        0
    } else if text_le(entries.last().key, key) {
        entries.len()
    } else {
        insert_point(entries.drop_last(), key)
    }
}

/// The entries in ascending order of their keys; entries with the same key
/// keep the order they came in.
pub open spec fn sorted_by_key(entries: Seq<KeyedView>) -> Seq<KeyedView>
    decreases entries.len(),
{
    if entries.len() == 0 {
        Seq::empty()
    } else {
        let front = sorted_by_key(entries.drop_last());
        front.insert(insert_point(front, entries.last().key) as int, entries.last())
    }
}

/// Each item with its name in lower case as its key.
pub open spec fn with_name_keys(items: Seq<ItemView>) -> Seq<KeyedView> {
    Seq::new(items.len(), |i: int| KeyedView { key: lowercased(items[i].name), item: items[i] })
}

/// The items of the entries, without their keys.
pub open spec fn items_of(entries: Seq<KeyedView>) -> Seq<ItemView> {
    Seq::new(entries.len(), |i: int| entries[i].item)
}

/// The items in ascending order of their names in lower case; items whose
/// names differ in case only keep the order they came in.
pub open spec fn sorted_by_name(items: Seq<ItemView>) -> Seq<ItemView> {
    items_of(sorted_by_key(with_name_keys(items)))
}

/// Any two texts are ordered one way or the other.
pub proof fn lemma_text_le_total(a: Seq<char>, b: Seq<char>)
    ensures
        text_le(a, b) || text_le(b, a),
    decreases a.len(),
{
    if a.len() > 0 && b.len() > 0 {
        if a[0] == b[0] {
            lemma_text_le_total(a.drop_first(), b.drop_first());
        }
    }
}

/// The order of texts is transitive.
pub proof fn lemma_text_le_transitive(a: Seq<char>, b: Seq<char>, c: Seq<char>)
    requires
        text_le(a, b),
        text_le(b, c),
    ensures
        text_le(a, c),
    decreases a.len(),
{
    if a.len() > 0 && b.len() > 0 && c.len() > 0 && a[0] == b[0] && b[0] == c[0] {
        lemma_text_le_transitive(a.drop_first(), b.drop_first(), c.drop_first());
    }
}

/// The insert point lies within the entries; the entry before it, if there
/// is one, has a key that is not greater, and every entry from it on has a
/// greater key.
pub proof fn lemma_insert_point(entries: Seq<KeyedView>, key: Seq<char>)
    ensures
        insert_point(entries, key) <= entries.len(),
        insert_point(entries, key) > 0 ==> text_le(
            entries[insert_point(entries, key) - 1].key,
            key,
        ),
        forall|i: int|
            insert_point(entries, key) <= i < entries.len() ==> !text_le(
                (#[trigger] entries[i]).key,
                key,
            ),
    decreases entries.len(),
{
    if entries.len() > 0 && !text_le(entries.last().key, key) {
        let rest = entries.drop_last();
        lemma_insert_point(rest, key);
        assert forall|i: int| insert_point(entries, key) <= i < entries.len() implies !text_le(
            (#[trigger] entries[i]).key,
            key,
        ) by {
            if i < rest.len() {
                assert(rest[i] == entries[i]);
            }
        }
        if insert_point(entries, key) > 0 {
            assert(rest[insert_point(entries, key) - 1] == entries[insert_point(entries, key) - 1]);
        }
    }
}

/// Sorting gives the same entries, each as often as before, in ascending
/// order of their keys.
pub proof fn lemma_sorted_by_key(entries: Seq<KeyedView>)
    ensures
        is_sorted(sorted_by_key(entries)),
        sorted_by_key(entries).len() == entries.len(),
        sorted_by_key(entries).to_multiset() == entries.to_multiset(),
    decreases entries.len(),
{
    if entries.len() == 0 {
        assert(sorted_by_key(entries).to_multiset() =~= entries.to_multiset());
    } else {
        let rest = entries.drop_last();
        let entry = entries.last();
        let key = entry.key;
        lemma_sorted_by_key(rest);
        let front = sorted_by_key(rest);
        let at = insert_point(front, key) as int;
        lemma_insert_point(front, key);
        let all = front.insert(at, entry);
        assert forall|i: int, j: int| 0 <= i < j < all.len() implies text_le(
            (#[trigger] all[i]).key,
            (#[trigger] all[j]).key,
        ) by {
            if j == at {
                if at > 0 {
                    if i < at - 1 {
                        assert(text_le(front[i].key, front[at - 1].key));
                        lemma_text_le_transitive(front[i].key, front[at - 1].key, key);
                    }
                }
            } else if i == at {
                assert(all[j] == front[j - 1]);
                lemma_text_le_total(front[j - 1].key, key);
            } else if i < at && j > at {
                assert(all[i] == front[i]);
                assert(all[j] == front[j - 1]);
            } else if j < at {
                assert(all[i] == front[i]);
                assert(all[j] == front[j]);
            } else {
                assert(all[i] == front[i - 1]);
                assert(all[j] == front[j - 1]);
            }
        }
        assert(all.remove(at) =~= front);
        assert(all[at] == entry);
        assert(all.to_multiset() =~= front.to_multiset().insert(entry)) by {
            assert(all.remove(at).to_multiset() == all.to_multiset().remove(all[at]));
            assert(all.contains(entry));
            assert(all.to_multiset().count(entry) > 0);
        }
        assert(rest.push(entry) =~= entries);
        assert(entries.to_multiset() =~= rest.to_multiset().insert(entry));
    }
}

/// Sorting by name gives as many items as before, each of them one of the
/// items given, in ascending order of their names in lower case.
pub proof fn lemma_sorted_by_name(items: Seq<ItemView>)
    ensures
        sorted_by_name(items).len() == items.len(),
        forall|i: int|
            0 <= i < items.len() ==> items.contains(#[trigger] sorted_by_name(items)[i]),
        forall|i: int|
            0 <= i < items.len() ==> sorted_by_name(items).contains(#[trigger] items[i]),
        forall|i: int, j: int|
            0 <= i < j < items.len() ==> text_le(
                lowercased((#[trigger] sorted_by_name(items)[i]).name),
                lowercased((#[trigger] sorted_by_name(items)[j]).name),
            ),
{
    let keyed = with_name_keys(items);
    let sorted = sorted_by_key(keyed);
    lemma_sorted_by_key(keyed);
    assert forall|i: int| 0 <= i < sorted.len() implies keyed.contains(#[trigger] sorted[i]) by {
        assert(sorted.contains(sorted[i]));
        assert(sorted.to_multiset().count(sorted[i]) > 0);
    }
    assert forall|i: int| 0 <= i < items.len() implies items.contains(
        #[trigger] sorted_by_name(items)[i],
    ) by {
        assert(keyed.contains(sorted[i]));
        let k = choose|k: int| 0 <= k < keyed.len() && keyed[k] == sorted[i];
        assert(items[k] == sorted[i].item);
    }
    assert forall|i: int| 0 <= i < items.len() implies sorted_by_name(items).contains(
        #[trigger] items[i],
    ) by {
        assert(keyed.contains(keyed[i]));
        assert(keyed.to_multiset().count(keyed[i]) > 0);
        assert(sorted.contains(keyed[i]));
        let k = choose|k: int| 0 <= k < sorted.len() && sorted[k] == keyed[i];
        assert(sorted_by_name(items)[k] == items[i]);
    }
    assert forall|i: int, j: int| 0 <= i < j < items.len() implies text_le(
        lowercased((#[trigger] sorted_by_name(items)[i]).name),
        lowercased((#[trigger] sorted_by_name(items)[j]).name),
    ) by {
        assert(keyed.contains(sorted[i]));
        assert(keyed.contains(sorted[j]));
        let a = choose|k: int| 0 <= k < keyed.len() && keyed[k] == sorted[i];
        let b = choose|k: int| 0 <= k < keyed.len() && keyed[k] == sorted[j];
        assert(sorted[i].key == lowercased(sorted[i].item.name));
        assert(sorted[j].key == lowercased(sorted[j].item.name));
    }
}

/// Puts `entry` into `sorted` behind the last entry whose key is not greater.
fn insert_sorted(sorted: &mut Vec<Keyed>, entry: Keyed)
    ensures
        keyed_views(final(sorted)@) == keyed_views(old(sorted)@).insert(
            insert_point(keyed_views(old(sorted)@), entry@.key) as int,
            entry@,
        ),
{
    let ghost before = keyed_views(sorted@);
    let mut at: usize = sorted.len();
    assert(before.subrange(0, at as int) =~= before);
    while at > 0 && !str_le(sorted[at - 1].key.as_str(), entry.key.as_str())
        invariant
            at <= sorted.len(),
            before == keyed_views(sorted@),
            insert_point(before, entry@.key) == insert_point(
                before.subrange(0, at as int),
                entry@.key,
            ),
        decreases at,
    {
        proof {
            let head = before.subrange(0, at as int);
            assert(head.last() == before[at - 1]);
            assert(head.drop_last() =~= before.subrange(0, at - 1));
        }
        at = at - 1;
    }
    proof {
        let head = before.subrange(0, at as int);
        if at > 0 {
            assert(head.last() == before[at - 1]);
        }
        assert(insert_point(head, entry@.key) == at);
    }
    sorted.insert(at, entry);
    assert(keyed_views(sorted@) =~= before.insert(at as int, entry@));
}

/// Orders the entries by their keys, ascending; entries with the same key
/// keep the order they came in.
pub fn sort_by_key(entries: &Vec<Keyed>) -> (sorted: Vec<Keyed>)
    ensures
        keyed_views(sorted@) == sorted_by_key(keyed_views(entries@)),
{
    let mut sorted: Vec<Keyed> = Vec::new();
    let mut done: usize = 0;
    assert(keyed_views(entries@).subrange(0, 0) =~= Seq::<KeyedView>::empty());
    assert(keyed_views(sorted@) =~= Seq::<KeyedView>::empty());
    while done < entries.len()
        invariant
            done <= entries.len(),
            keyed_views(sorted@) == sorted_by_key(keyed_views(entries@).subrange(0, done as int)),
        decreases entries.len() - done,
    {
        let entry = Keyed { key: entries[done].key.clone(), item: copy_of(&entries[done].item) };
        proof {
            let next = keyed_views(entries@).subrange(0, done + 1);
            assert(next.drop_last() =~= keyed_views(entries@).subrange(0, done as int));
            assert(next.last() == entry@);
        }
        insert_sorted(&mut sorted, entry);
        done = done + 1;
    }
    assert(keyed_views(entries@).subrange(0, done as int) =~= keyed_views(entries@));
    sorted
}

/// A copy of the item.
fn copy_of(item: &BatchItem) -> (copy: BatchItem)
    ensures
        copy@ == item@,
{
    BatchItem { path: item.path.clone(), name: item.name.clone(), ext: item.ext.clone() }
}

/// Orders the items by their names in lower case, ascending; items whose
/// names differ in case only keep the order they came in.
pub fn sort_by_name(items: &Vec<BatchItem>) -> (sorted: Vec<BatchItem>)
    ensures
        item_views(sorted@) == sorted_by_name(item_views(items@)),
{
    let mut entries: Vec<Keyed> = Vec::new();
    let mut done: usize = 0;
    while done < items.len()
        invariant
            done <= items.len(),
            entries@.len() == done,
            forall|i: int|
                0 <= i < done ==> (#[trigger] entries@[i])@ == (KeyedView {
                    key: lowercased(items@[i]@.name),
                    item: items@[i]@,
                }),
        decreases items.len() - done,
    {
        let key = to_lowercase(items[done].name.as_str());
        entries.push(Keyed { key, item: copy_of(&items[done]) });
        done = done + 1;
    }
    assert(keyed_views(entries@) =~= with_name_keys(item_views(items@)));
    let ordered = sort_by_key(&entries);
    let mut sorted: Vec<BatchItem> = Vec::new();
    let mut taken: usize = 0;
    while taken < ordered.len()
        invariant
            taken <= ordered.len(),
            sorted@.len() == taken,
            forall|i: int| 0 <= i < taken ==> (#[trigger] sorted@[i])@ == ordered@[i]@.item,
        decreases ordered.len() - taken,
    {
        sorted.push(copy_of(&ordered[taken].item));
        taken = taken + 1;
    }
    assert(item_views(sorted@) =~= items_of(keyed_views(ordered@)));
    sorted
}

/// Picks the images among the found files, in the order of the files.
pub fn select_images(found: &Vec<FoundFile>) -> (items: Vec<BatchItem>)
    ensures
        item_views(items@) == selected(found_views(found@)),
{
    let mut items: Vec<BatchItem> = Vec::new();
    let mut done: usize = 0;
    assert(found_views(found@).subrange(0, 0) =~= Seq::<FoundView>::empty());
    assert(item_views(items@) =~= Seq::<ItemView>::empty());
    while done < found.len()
        invariant
            done <= found.len(),
            item_views(items@) == selected(found_views(found@).subrange(0, done as int)),
        decreases found.len() - done,
    {
        let file = &found[done];
        proof {
            let next = found_views(found@).subrange(0, done + 1);
            assert(next.drop_last() =~= found_views(found@).subrange(0, done as int));
            assert(next.last() == file@);
        }
        match &file.extension {
            None => {},
            Some(extension) => {
                let ext = to_lowercase(extension.as_str());
                if is_supported_extension(ext.as_str()) {
                    let name = match &file.name {
                        Some(name) => name.clone(),
                        None => String::from_str("image"),
                    };
                    let ghost before = item_views(items@);
                    let item = BatchItem { path: file.path.clone(), name, ext };
                    items.push(item);
                    assert(item_views(items@) =~= before.push(item@));
                }
            },
        }
        done = done + 1;
    }
    assert(found_views(found@).subrange(0, done as int) =~= found_views(found@));
    items
}

/// Makes the list of a batch from the regular files of a directory: the
/// files with a supported extension, ordered by their names in lower case.
pub fn list_images(found: &Vec<FoundFile>) -> (items: Vec<BatchItem>)
    ensures
        item_views(items@) == sorted_by_name(selected(found_views(found@))),
{
    let picked = select_images(found);
    sort_by_name(&picked)
}

} // verus!
