//! The key map: which input each key of the keyboard stands for.
//!
//! The configuration names a key for each input. Ten keys are not for the
//! configuration to give away: the digits `0` to `9` always stand for the
//! inputs of the same names.

use vstd::prelude::*;
use vstd::string::*;
use crate::mode::Key;

verus! {

/// One entry of the key map.
#[derive(Clone, Debug, PartialEq, Eq)]
pub struct KeyEntry {
    pub key: Key,
    pub input: String,
}

/// The key that the configuration calls `name`: `Enter` is the line feed,
/// `Esc` the escape key, and any other name stands for its first character.
pub open spec fn key_named(name: Seq<char>) -> Key {
    if name == "Enter"@ {
        Key::Char('\n')
    } else if name == "Esc"@ {
        Key::Esc
    } else {
        Key::Char(name[0])
    }
}

/// The character of digit `d`.
pub open spec fn digit_char(d: int) -> char {
    if d <= 0 {
        '0'
    } else if d == 1 {
        '1'
    } else if d == 2 {
        '2'
    } else if d == 3 {
        '3'
    } else if d == 4 {
        '4'
    } else if d == 5 {
        '5'
    } else if d == 6 {
        '6'
    } else if d == 7 {
        '7'
    } else if d == 8 {
        '8'
    } else {
        '9'
    }
}

/// The name of the input of digit `d`: the digit itself, written out.
pub open spec fn digit_name(d: int) -> Seq<char> {
    seq![digit_char(d)]
}

/// The input of the first entry for `key` at or after position `from`.
pub open spec fn lookup(entries: Seq<KeyEntry>, key: Key, from: int) -> Option<Seq<char>>
    decreases entries.len() - from,
{
    if from < 0 || from >= entries.len() {
        None
    } else if entries[from].key == key {
        Some(entries[from].input@)
    } else {
        lookup(entries, key, from + 1)
    }
}

/// The map that a list of entries stands for.
pub open spec fn map_of(entries: Seq<KeyEntry>) -> Map<Key, Seq<char>> {
    Map::new(
        |key: Key| lookup(entries, key, 0).is_some(),
        |key: Key| lookup(entries, key, 0).unwrap(),
    )
}

/// The map after the first `k` pairs of the configuration are entered, each
/// pair giving an input and the name of its key. A key that is named twice
/// keeps the input entered last.
pub open spec fn configured(pairs: Seq<(String, String)>, k: int) -> Map<Key, Seq<char>>
    decreases k,
{
    if k <= 0 {
        Map::empty()
    } else {
        configured(pairs, k - 1).insert(key_named(pairs[k - 1].1@), pairs[k - 1].0@)
    }
}

/// The map after the first `d` digits are entered on top of `map`.
pub open spec fn with_digits(map: Map<Key, Seq<char>>, d: int) -> Map<Key, Seq<char>>
    decreases d,
{
    if d <= 0 {
        map
    } else {
        with_digits(map, d - 1).insert(Key::Char(digit_char(d - 1)), digit_name(d - 1))
    }
}

/// The name of the input that a key without an entry stands for.
pub open spec fn unmapped() -> Seq<char> {
    "unmapped"@
}

/// Whatever the configuration says, each digit stands for the input of its
/// own name.
pub proof fn law_digits_are_reserved(map: Map<Key, Seq<char>>, d: int)
    requires
        0 <= d <= 9,
    ensures
        with_digits(map, 10).dom().contains(Key::Char(digit_char(d))),
        with_digits(map, 10)[Key::Char(digit_char(d))] == digit_name(d),
{
    reveal_with_fuel(with_digits, 11);
}

/// Entries before the first one for `key` do not matter to what `key` stands
/// for.
proof fn lemma_lookup_skip(entries: Seq<KeyEntry>, key: Key, from: int, to: int)
    requires
        0 <= from <= to <= entries.len(),
        forall|j: int| from <= j < to ==> (#[trigger] entries[j]).key != key,
    ensures
        lookup(entries, key, from) == lookup(entries, key, to),
    decreases to - from,
{
    if from < to {
        lemma_lookup_skip(entries, key, from + 1, to);
    }
}

/// What a key stands for depends only on the keys of the entries and on the
/// inputs of the entries for that key.
proof fn lemma_lookup_same(a: Seq<KeyEntry>, b: Seq<KeyEntry>, key: Key, from: int)
    requires
        0 <= from,
        a.len() == b.len(),
        forall|j: int|
            from <= j < a.len() ==> (#[trigger] a[j]).key == b[j].key && (a[j].key == key
                ==> a[j].input@ == b[j].input@),
    ensures
        lookup(a, key, from) == lookup(b, key, from),
    decreases a.len() - from,
{
    if from < a.len() {
        lemma_lookup_same(a, b, key, from + 1);
    }
}

/// An entry appended at the end only matters to keys without an entry.
proof fn lemma_lookup_push(entries: Seq<KeyEntry>, entry: KeyEntry, key: Key, from: int)
    requires
        0 <= from <= entries.len(),
    ensures
        lookup(entries.push(entry), key, from) == match lookup(entries, key, from) {
            Some(input) => Some(input),
            None => if entry.key == key {
                Some(entry.input@)
            } else {
                None
            },
        },
    decreases entries.len() - from,
{
    if from < entries.len() {
        lemma_lookup_push(entries, entry, key, from + 1);
    } else {
        assert(lookup(entries.push(entry), key, from + 1).is_none());
    }
}

/// The keys of the keyboard and the inputs they stand for.
pub struct KeyMap {
    entries: Vec<KeyEntry>,
}

impl View for KeyMap {
    type V = Map<Key, Seq<char>>;

    closed spec fn view(&self) -> Map<Key, Seq<char>> {
        map_of(self.entries@)
    }
}

/// The key that the configuration calls `name`.
pub fn key_from_name(name: &str) -> (key: Key)
    requires
        name@.len() > 0,
    ensures
        key == key_named(name@),
{
    let given = String::from_str(name);
    if given == String::from_str("Enter") {
        Key::Char('\n')
    } else if given == String::from_str("Esc") {
        Key::Esc
    } else {
        Key::Char(name.get_char(0))
    }
}

/// The character and the name of digit `d`.
fn digit_entry(d: u8) -> (entry: (char, String))
    requires
        d <= 9,
    ensures
        entry.0 == digit_char(d as int),
        entry.1@ == digit_name(d as int),
{
    let (c, name) = if d == 0 {
        ('0', "0")
    } else if d == 1 {
        ('1', "1")
    } else if d == 2 {
        ('2', "2")
    } else if d == 3 {
        ('3', "3")
    } else if d == 4 {
        ('4', "4")
    } else if d == 5 {
        ('5', "5")
    } else if d == 6 {
        ('6', "6")
    } else if d == 7 {
        ('7', "7")
    } else if d == 8 {
        ('8', "8")
    } else {
        ('9', "9")
    };
    proof {
        reveal_strlit("0");
        reveal_strlit("1");
        reveal_strlit("2");
        reveal_strlit("3");
        reveal_strlit("4");
        reveal_strlit("5");
        reveal_strlit("6");
        reveal_strlit("7");
        reveal_strlit("8");
        reveal_strlit("9");
        assert(name@ =~= digit_name(d as int));
    }
    (c, String::from_str(name))
}

impl KeyMap {
    /// A key map without entries.
    pub fn new() -> (map: KeyMap)
        ensures
            map@ == Map::<Key, Seq<char>>::empty(),
    {
        let map = KeyMap { entries: Vec::new() };
        assert(map@ =~= Map::<Key, Seq<char>>::empty());
        map
    }

    /// Lets `key` stand for `input`, whatever it stood for before.
    pub fn insert(&mut self, key: Key, input: String)
        ensures
            final(self)@ == old(self)@.insert(key, input@),
    {
        let mut i: usize = 0;
        while i < self.entries.len()
            invariant
                self.entries == old(self).entries,
                i <= self.entries.len(),
                forall|j: int| 0 <= j < i ==> (#[trigger] self.entries@[j]).key != key,
            decreases self.entries.len() - i,
        {
            if self.entries[i].key == key {
                self.entries.set(i, KeyEntry { key, input });
                proof {
                    let before = old(self).entries@;
                    let after = self.entries@;
                    assert forall|k: Key|
                        #![trigger self@.dom().contains(k)]
                        #![trigger old(self)@.insert(key, input@).dom().contains(k)]
                        self@.dom().contains(k) == old(self)@.insert(key, input@).dom().contains(k)
                            && (self@.dom().contains(k) ==> self@[k] == old(self)@.insert(
                            key,
                            input@,
                        )[k]) by {
                        if k == key {
                            lemma_lookup_skip(before, k, 0, i as int);
                            lemma_lookup_skip(after, k, 0, i as int);
                        } else {
                            lemma_lookup_same(before, after, k, 0);
                        }
                    }
                    assert(self@ =~= old(self)@.insert(key, input@));
                }
                return ;
            }
            i = i + 1;
        }
        self.entries.push(KeyEntry { key, input });
        proof {
            let before = old(self).entries@;
            assert forall|k: Key|
                #![trigger self@.dom().contains(k)]
                #![trigger old(self)@.insert(key, input@).dom().contains(k)]
                self@.dom().contains(k) == old(self)@.insert(key, input@).dom().contains(k) && (
                self@.dom().contains(k) ==> self@[k] == old(self)@.insert(key, input@)[k]) by {
                lemma_lookup_push(before, KeyEntry { key, input }, k, 0);
                if k == key {
                    lemma_lookup_skip(before, k, 0, before.len() as int);
                }
            }
            assert(self@ =~= old(self)@.insert(key, input@));
        }
    }

    /// The key map of a configuration: every pair gives an input and the name
    /// of the key that stands for it; the digits `0` to `9` are entered last
    /// and stand for the inputs of their own names.
    pub fn from_config(pairs: &Vec<(String, String)>) -> (map: KeyMap)
        requires
            forall|i: int| 0 <= i < pairs.len() ==> (#[trigger] pairs[i]).1@.len() > 0,
        ensures
            map@ == with_digits(configured(pairs@, pairs.len() as int), 10),
    {
        let mut map = KeyMap::new();
        let mut i: usize = 0;
        while i < pairs.len()
            invariant
                i <= pairs.len(),
                forall|j: int| 0 <= j < pairs.len() ==> (#[trigger] pairs[j]).1@.len() > 0,
                map@ == configured(pairs@, i as int),
            decreases pairs.len() - i,
        {
            let key = key_from_name(pairs[i].1.as_str());
            map.insert(key, pairs[i].0.clone());
            i = i + 1;
        }
        let mut d: u8 = 0;
        while d < 10
            invariant
                d <= 10,
                map@ == with_digits(configured(pairs@, pairs.len() as int), d as int),
            decreases 10 - d,
        {
            let (c, name) = digit_entry(d);
            map.insert(Key::Char(c), name);
            d = d + 1;
        }
        map
    }

    /// The input that `key` stands for; a key without an entry stands for
    /// the input `unmapped`.
    pub fn input_for(&self, key: Key) -> (input: String)
        ensures
            input@ == if self@.dom().contains(key) {
                self@[key]
            } else {
                unmapped()
            },
    {
        let mut i: usize = 0;
        while i < self.entries.len()
            invariant
                i <= self.entries.len(),
                forall|j: int| 0 <= j < i ==> (#[trigger] self.entries@[j]).key != key,
            decreases self.entries.len() - i,
        {
            if self.entries[i].key == key {
                proof {
                    lemma_lookup_skip(self.entries@, key, 0, i as int);
                }
                return self.entries[i].input.clone();
            }
            i = i + 1;
        }
        proof {
            lemma_lookup_skip(self.entries@, key, 0, self.entries@.len() as int);
        }
        String::from_str("unmapped")
    }
}

} // verus!
