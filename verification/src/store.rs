//! The note store: a flat name-to-content map kept in enumeration order,
//! modelling the configured note directory. Listing filters by substring,
//! reading auto-creates missing notes, writing overwrites.

use vstd::prelude::*;
use vstd::string::StringSliceAdditionalSpecFns;
use vstd::utf8::encode_utf8;

use crate::item::{Item, ItemType};
use crate::text::{contains_sub, contains_subslice, valid_name_bytes, validate_name};

verus! {

/// Errors a store operation can surface. A read never fails with a
/// "not found" condition: absent notes are created empty instead, so no such
/// variant exists.
#[derive(Clone, Copy, PartialEq, Eq, Structural, Debug)]
pub enum StoreError {
    /// The note name failed validation.
    InvalidName,
    /// The backing directory could not be used.
    StoreUnavailable,
}

/// One stored note.
pub struct Note {
    pub name: String,
    pub content: String,
}

/// All note names in `s` are pairwise distinct.
pub open spec fn unique_names(s: Seq<(Seq<char>, Seq<char>)>) -> bool {
    forall|i: int, j: int|
        0 <= i < s.len() && 0 <= j < s.len() && i != j ==> (#[trigger] s[i]).0 != (
        #[trigger] s[j]).0
}

/// `name` is present in the store state `s`.
pub open spec fn store_contains(s: Seq<(Seq<char>, Seq<char>)>, name: Seq<char>) -> bool {
    exists|i: int| 0 <= i < s.len() && (#[trigger] s[i]).0 == name
}

/// The content stored under `name`, if any (first occurrence).
pub open spec fn store_lookup(s: Seq<(Seq<char>, Seq<char>)>, name: Seq<char>) -> Option<
    Seq<char>,
>
    decreases s.len(),
{
    if s.len() == 0 {
        None
    } else if s[0].0 == name {
        Some(s[0].1)
    } else {
        store_lookup(s.drop_first(), name)
    }
}

/// The store state after overwriting `name` with `content`: the first entry
/// named `name` is replaced in place, or a new entry is appended.
pub open spec fn store_write(
    s: Seq<(Seq<char>, Seq<char>)>,
    name: Seq<char>,
    content: Seq<char>,
) -> Seq<(Seq<char>, Seq<char>)>
    decreases s.len(),
{
    if s.len() == 0 {
        seq![(name, content)]
    } else if s[0].0 == name {
        seq![(name, content)] + s.drop_first()
    } else {
        seq![s[0]] + store_write(s.drop_first(), name, content)
    }
}

/// The store state and returned content after reading `name`: an absent note
/// is created empty.
pub open spec fn store_read(s: Seq<(Seq<char>, Seq<char>)>, name: Seq<char>) -> (
    Seq<(Seq<char>, Seq<char>)>,
    Seq<char>,
) {
    match store_lookup(s, name) {
        Some(c) => (s, c),
        None => (s.push((name, Seq::empty())), Seq::empty()),
    }
}

/// An entry's name matches the filter `key` (substring over UTF-8 bytes).
pub open spec fn name_matches(name: Seq<char>, key: Seq<u8>) -> bool {
    contains_sub(encode_utf8(name), key)
}

/// The names of `s` whose UTF-8 encoding contains `key`, in store order.
pub open spec fn list_spec(s: Seq<(Seq<char>, Seq<char>)>, key: Seq<u8>) -> Seq<Seq<char>>
    decreases s.len(),
{
    if s.len() == 0 {
        Seq::empty()
    } else if name_matches(s.last().0, key) {
        list_spec(s.drop_last(), key).push(s.last().0)
    } else {
        list_spec(s.drop_last(), key)
    }
}

/// Every name `list_spec` keeps contains the key: the general form of the
/// law that listing returns only matching items.
pub proof fn lemma_list_only_matching(s: Seq<(Seq<char>, Seq<char>)>, key: Seq<u8>)
    ensures
        forall|i: int|
            0 <= i < list_spec(s, key).len() ==> name_matches(
                #[trigger] list_spec(s, key)[i],
                key,
            ),
    decreases s.len(),
{
    if s.len() > 0 {
        lemma_list_only_matching(s.drop_last(), key);
        assert forall|i: int| 0 <= i < list_spec(s, key).len() implies name_matches(
            #[trigger] list_spec(s, key)[i],
            key,
        ) by {
            if name_matches(s.last().0, key) {
                if i < list_spec(s.drop_last(), key).len() {
                    assert(list_spec(s, key)[i] == list_spec(s.drop_last(), key)[i]);
                } else {
                    assert(list_spec(s, key)[i] == s.last().0);
                }
            } else {
                assert(list_spec(s, key)[i] == list_spec(s.drop_last(), key)[i]);
            }
        }
    }
}

/// A lookup succeeds exactly when the name is present.
pub proof fn lemma_lookup_iff_contains(s: Seq<(Seq<char>, Seq<char>)>, name: Seq<char>)
    ensures
        store_lookup(s, name) is Some <==> store_contains(s, name),
    decreases s.len(),
{
    if s.len() > 0 {
        if s[0].0 == name {
            assert(store_contains(s, name));
        } else {
            lemma_lookup_iff_contains(s.drop_first(), name);
            assert forall|i: int| 0 <= i < s.len() && (#[trigger] s[i]).0 == name implies
                store_contains(s.drop_first(), name) by {
                assert(s.drop_first()[i - 1] == s[i]);
            }
            assert forall|i: int|
                0 <= i < s.drop_first().len() && (#[trigger] s.drop_first()[i]).0
                    == name implies store_contains(s, name) by {
                assert(s[i + 1] == s.drop_first()[i]);
            }
        }
    }
}

/// With unique names, the entry at a matching index is what lookup returns.
pub proof fn lemma_lookup_at_index(s: Seq<(Seq<char>, Seq<char>)>, i: int, name: Seq<char>)
    requires
        unique_names(s),
        0 <= i < s.len(),
        s[i].0 == name,
    ensures
        store_lookup(s, name) == Some(s[i].1),
    decreases s.len(),
{
    if i == 0 {
    } else {
        assert(s[0].0 != name);
        assert(unique_names(s.drop_first())) by {
            assert forall|p: int, q: int|
                0 <= p < s.drop_first().len() && 0 <= q < s.drop_first().len() && p
                    != q implies (#[trigger] s.drop_first()[p]).0 != (
            #[trigger] s.drop_first()[q]).0 by {
                assert(s.drop_first()[p] == s[p + 1]);
                assert(s.drop_first()[q] == s[q + 1]);
            }
        }
        assert(s.drop_first()[i - 1] == s[i]);
        lemma_lookup_at_index(s.drop_first(), i - 1, name);
    }
}

/// Writing over an existing entry replaces it in place.
pub proof fn lemma_store_write_at(
    s: Seq<(Seq<char>, Seq<char>)>,
    i: int,
    name: Seq<char>,
    content: Seq<char>,
)
    requires
        unique_names(s),
        0 <= i < s.len(),
        s[i].0 == name,
    ensures
        store_write(s, name, content) =~= s.update(i, (name, content)),
    decreases s.len(),
{
    if i == 0 {
        assert(store_write(s, name, content) =~= s.update(0, (name, content)));
    } else {
        assert(s[0].0 != name);
        assert(unique_names(s.drop_first())) by {
            assert forall|p: int, q: int|
                0 <= p < s.drop_first().len() && 0 <= q < s.drop_first().len() && p
                    != q implies (#[trigger] s.drop_first()[p]).0 != (
            #[trigger] s.drop_first()[q]).0 by {
                assert(s.drop_first()[p] == s[p + 1]);
                assert(s.drop_first()[q] == s[q + 1]);
            }
        }
        assert(s.drop_first()[i - 1] == s[i]);
        lemma_store_write_at(s.drop_first(), i - 1, name, content);
    }
}

/// Writing a fresh name appends it.
pub proof fn lemma_store_write_absent(
    s: Seq<(Seq<char>, Seq<char>)>,
    name: Seq<char>,
    content: Seq<char>,
)
    requires
        !store_contains(s, name),
    ensures
        store_write(s, name, content) =~= s.push((name, content)),
    decreases s.len(),
{
    if s.len() > 0 {
        assert(s[0].0 != name);
        assert(!store_contains(s.drop_first(), name)) by {
            assert forall|i: int|
                0 <= i < s.drop_first().len() implies (#[trigger] s.drop_first()[i]).0
                != name by {
                assert(s.drop_first()[i] == s[i + 1]);
            }
        }
        lemma_store_write_absent(s.drop_first(), name, content);
    }
}

/// Reading a name right after writing it returns exactly the written
/// content: the round-trip law of the store.
pub proof fn lemma_write_then_read(
    s: Seq<(Seq<char>, Seq<char>)>,
    name: Seq<char>,
    content: Seq<char>,
)
    ensures
        store_lookup(store_write(s, name, content), name) == Some(content),
        store_read(store_write(s, name, content), name).0 == store_write(s, name, content),
        store_read(store_write(s, name, content), name).1 == content,
    decreases s.len(),
{
    if s.len() == 0 {
        assert(store_write(s, name, content)[0] == (name, content));
    } else if s[0].0 == name {
        assert(store_write(s, name, content)[0] == (name, content));
    } else {
        lemma_write_then_read(s.drop_first(), name, content);
        let w = store_write(s, name, content);
        assert(w[0] == s[0]);
        assert(w.drop_first() =~= store_write(s.drop_first(), name, content));
    }
}

/// A read is total: it never reports the name missing, and afterwards the
/// store always contains the name.
pub proof fn lemma_read_total(s: Seq<(Seq<char>, Seq<char>)>, name: Seq<char>)
    ensures
        store_contains(store_read(s, name).0, name),
{
    lemma_lookup_iff_contains(s, name);
    if store_lookup(s, name) is None {
        let t = store_read(s, name).0;
        assert(t[s.len() as int].0 == name);
    }
}

/// The names among `names` whose UTF-8 encoding contains `key`, in order.
pub open spec fn filter_names_spec(names: Seq<Seq<char>>, key: Seq<u8>) -> Seq<Seq<char>>
    decreases names.len(),
{
    if names.len() == 0 {
        Seq::empty()
    } else if name_matches(names.last(), key) {
        filter_names_spec(names.drop_last(), key).push(names.last())
    } else {
        filter_names_spec(names.drop_last(), key)
    }
}

/// Every name the filter keeps contains the key.
pub proof fn lemma_filter_names_only_matching(names: Seq<Seq<char>>, key: Seq<u8>)
    ensures
        forall|i: int|
            0 <= i < filter_names_spec(names, key).len() ==> name_matches(
                #[trigger] filter_names_spec(names, key)[i],
                key,
            ),
    decreases names.len(),
{
    if names.len() > 0 {
        lemma_filter_names_only_matching(names.drop_last(), key);
        assert forall|i: int| 0 <= i < filter_names_spec(names, key).len() implies name_matches(
            #[trigger] filter_names_spec(names, key)[i],
            key,
        ) by {
            if name_matches(names.last(), key) {
                if i < filter_names_spec(names.drop_last(), key).len() {
                    assert(filter_names_spec(names, key)[i] == filter_names_spec(
                        names.drop_last(),
                        key,
                    )[i]);
                } else {
                    assert(filter_names_spec(names, key)[i] == names.last());
                }
            } else {
                assert(filter_names_spec(names, key)[i] == filter_names_spec(
                    names.drop_last(),
                    key,
                )[i]);
            }
        }
    }
}

/// Filters an enumerated name list by substring, keeping the enumeration
/// order, and wraps each kept name as a `File` item: the computation behind
/// a directory listing.
pub fn filter_names(names: &Vec<String>, key: &[u8]) -> (r: Vec<Item>)
    ensures
        r@.len() == filter_names_spec(names.deep_view(), key@).len(),
        forall|i: int|
            0 <= i < r@.len() ==> (#[trigger] r@[i]).name@ == filter_names_spec(
                names.deep_view(),
                key@,
            )[i] && r@[i].item_type == ItemType::File,
        forall|i: int| 0 <= i < r@.len() ==> name_matches((#[trigger] r@[i]).name@, key@),
{
    let n = names.len();
    let mut out: Vec<Item> = Vec::new();
    let mut i: usize = 0;
    proof {
        assert(names.deep_view().len() == n) by {
            assert(names.deep_view() =~= names@.map(|j: int, s: String| s@));
        }
    }
    while i < n
        invariant
            n == names@.len(),
            names.deep_view().len() == n,
            forall|k: int| 0 <= k < n ==> names.deep_view()[k] == names@[k]@,
            0 <= i <= n,
            out@.len() == filter_names_spec(names.deep_view().take(i as int), key@).len(),
            forall|k: int|
                0 <= k < out@.len() ==> (#[trigger] out@[k]).name@ == filter_names_spec(
                    names.deep_view().take(i as int),
                    key@,
                )[k] && out@[k].item_type == ItemType::File,
        decreases n - i,
    {
        let ghost pre = names.deep_view().take(i as int);
        let ghost post = names.deep_view().take(i + 1);
        proof {
            assert(post.drop_last() =~= pre);
            assert(post.last() == names.deep_view()[i as int]);
        }
        let matched = contains_subslice(names[i].as_str().as_bytes(), key);
        if matched {
            let it = Item { name: names[i].clone(), item_type: ItemType::File };
            out.push(it);
        }
        i += 1;
    }
    proof {
        assert(names.deep_view().take(n as int) =~= names.deep_view());
        lemma_filter_names_only_matching(names.deep_view(), key@);
    }
    out
}

/// The in-memory model of the note directory: entries in enumeration order,
/// names unique.
pub struct NoteStore {
    entries: Vec<Note>,
}

impl View for NoteStore {
    type V = Seq<(Seq<char>, Seq<char>)>;

    closed spec fn view(&self) -> Seq<(Seq<char>, Seq<char>)> {
        self.entries@.map(|i: int, n: Note| (n.name@, n.content@))
    }
}

impl NoteStore {
    /// The store is well formed: no two entries share a name.
    pub open spec fn wf(&self) -> bool {
        unique_names(self@)
    }

    /// An empty store.
    pub fn new() -> (r: NoteStore)
        ensures
            r@ =~= Seq::<(Seq<char>, Seq<char>)>::empty(),
            r.wf(),
    {
        let r = NoteStore { entries: Vec::new() };
        assert(r@ =~= Seq::<(Seq<char>, Seq<char>)>::empty());
        r
    }

    /// Index of the entry named `name`, if present.
    fn find_entry(&self, name: &String) -> (r: Option<usize>)
        ensures
            match r {
                Some(i) => i < self@.len() && self@[i as int].0 == name@,
                None => !store_contains(self@, name@),
            },
    {
        let n = self.entries.len();
        let mut i: usize = 0;
        while i < n
            invariant
                n == self.entries@.len(),
                0 <= i <= n,
                self@.len() == n,
                forall|k: int| 0 <= k < i ==> (#[trigger] self@[k]).0 != name@,
            decreases n - i,
        {
            if self.entries[i].name == *name {
                assert(self@[i as int].0 == name@);
                return Some(i);
            }
            i += 1;
        }
        None
    }

    /// Lists the notes whose name contains `key`, in store order, as `File`
    /// items. Every returned name matches the filter, and the returned names
    /// are exactly those of [`list_spec`].
    pub fn list(&self, key: &[u8]) -> (r: Vec<Item>)
        ensures
            r@.len() == list_spec(self@, key@).len(),
            forall|i: int|
                0 <= i < r@.len() ==> (#[trigger] r@[i]).name@ == list_spec(self@, key@)[i]
                    && r@[i].item_type == ItemType::File,
            forall|i: int| 0 <= i < r@.len() ==> name_matches((#[trigger] r@[i]).name@, key@),
    {
        let n = self.entries.len();
        let mut out: Vec<Item> = Vec::new();
        let mut i: usize = 0;
        while i < n
            invariant
                n == self.entries@.len(),
                self@.len() == n,
                0 <= i <= n,
                out@.len() == list_spec(self@.take(i as int), key@).len(),
                forall|k: int|
                    0 <= k < out@.len() ==> (#[trigger] out@[k]).name@ == list_spec(
                        self@.take(i as int),
                        key@,
                    )[k] && out@[k].item_type == ItemType::File,
            decreases n - i,
        {
            let ghost pre = self@.take(i as int);
            let ghost post = self@.take(i + 1);
            proof {
                assert(post.drop_last() =~= pre);
                assert(post.last() == self@[i as int]);
            }
            let matched = contains_subslice(self.entries[i].name.as_str().as_bytes(), key);
            if matched {
                let it = Item {
                    name: self.entries[i].name.clone(),
                    item_type: ItemType::File,
                };
                out.push(it);
            }
            i += 1;
        }
        proof {
            assert(self@.take(n as int) =~= self@);
            lemma_list_only_matching(self@, key@);
        }
        out
    }

    /// Reads a note. An invalid name is rejected; an absent note is created
    /// empty. A read never fails with a "not found" condition.
    pub fn read(&mut self, name: &String) -> (r: Result<String, StoreError>)
        requires
            old(self).wf(),
        ensures
            final(self).wf(),
            !valid_name_bytes(encode_utf8(name@)) ==> r == Err::<String, StoreError>(
                StoreError::InvalidName,
            ) && final(self)@ == old(self)@,
            valid_name_bytes(encode_utf8(name@)) ==> {
                &&& final(self)@ =~= store_read(old(self)@, name@).0
                &&& r matches Ok(c) && c@ == store_read(old(self)@, name@).1
                &&& store_contains(final(self)@, name@)
            },
            r matches Err(e) ==> e == StoreError::InvalidName,
    {
        if !validate_name(name.as_str()) {
            return Err(StoreError::InvalidName);
        }
        match self.find_entry(name) {
            Some(i) => {
                proof {
                    lemma_lookup_at_index(self@, i as int, name@);
                }
                Ok(self.entries[i].content.clone())
            },
            None => {
                proof {
                    lemma_lookup_iff_contains(self@, name@);
                }
                let note = Note { name: name.clone(), content: String::new() };
                self.entries.push(note);
                proof {
                    assert(self@ =~= store_read(old(self)@, name@).0);
                    assert(self@[old(self)@.len() as int].0 == name@);
                    assert(self.wf()) by {
                        assert forall|p: int, q: int|
                            0 <= p < self@.len() && 0 <= q < self@.len() && p != q implies (
                        #[trigger] self@[p]).0 != (#[trigger] self@[q]).0 by {
                            if p < old(self)@.len() && q < old(self)@.len() {
                                assert(old(self)@[p] == self@[p]);
                                assert(old(self)@[q] == self@[q]);
                            }
                        }
                    }
                }
                Ok(String::new())
            },
        }
    }

    /// Overwrites (or creates) a note. An invalid name is rejected.
    pub fn write(&mut self, name: &String, content: &String) -> (r: Result<(), StoreError>)
        requires
            old(self).wf(),
        ensures
            final(self).wf(),
            !valid_name_bytes(encode_utf8(name@)) ==> r == Err::<(), StoreError>(
                StoreError::InvalidName,
            ) && final(self)@ == old(self)@,
            valid_name_bytes(encode_utf8(name@)) ==> r == Ok::<(), StoreError>(()) && final(self)@
                =~= store_write(old(self)@, name@, content@),
            r matches Err(e) ==> e == StoreError::InvalidName,
    {
        if !validate_name(name.as_str()) {
            return Err(StoreError::InvalidName);
        }
        let note = Note { name: name.clone(), content: content.clone() };
        match self.find_entry(name) {
            Some(i) => {
                proof {
                    lemma_store_write_at(self@, i as int, name@, content@);
                }
                self.entries.remove(i);
                self.entries.insert(i, note);
                proof {
                    assert(self@ =~= old(self)@.update(i as int, (name@, content@)));
                    assert(self.wf()) by {
                        assert forall|p: int, q: int|
                            0 <= p < self@.len() && 0 <= q < self@.len() && p != q implies (
                        #[trigger] self@[p]).0 != (#[trigger] self@[q]).0 by {
                            assert(old(self)@[p].0 == self@[p].0 || p == i);
                            assert(old(self)@[q].0 == self@[q].0 || q == i);
                        }
                    }
                }
                Ok(())
            },
            None => {
                proof {
                    lemma_store_write_absent(self@, name@, content@);
                }
                self.entries.push(note);
                proof {
                    assert(self@ =~= old(self)@.push((name@, content@)));
                    assert(self.wf()) by {
                        assert forall|p: int, q: int|
                            0 <= p < self@.len() && 0 <= q < self@.len() && p != q implies (
                        #[trigger] self@[p]).0 != (#[trigger] self@[q]).0 by {
                            if p < old(self)@.len() && q < old(self)@.len() {
                                assert(old(self)@[p] == self@[p]);
                                assert(old(self)@[q] == self@[q]);
                            }
                        }
                    }
                }
                Ok(())
            },
        }
    }

    /// How many notes are stored.
    pub fn len(&self) -> (r: usize)
        ensures
            r == self@.len(),
    {
        self.entries.len()
    }
}

} // verus!
