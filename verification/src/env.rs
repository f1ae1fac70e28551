//! A snapshot of the settings a process starts with.
//!
//! The snapshot is built once from the variables of the process and the
//! pairs of an optional settings file, and is only read afterwards. A name
//! that occurs more than once keeps the value of its first occurrence, and
//! the variables of the process come before those of the file.
//!
//! The text of a settings file is read by `dotenvy`. Which names it finds,
//! and at which line it stops, follows from the bytes of the file alone. The
//! value it gives a name does not: a `$NAME` in a value is filled from the
//! variables of the running process. So the contracts here fix the names
//! that a file adds and hold for whatever their values are.

use vstd::prelude::*;

verus! {

/// The value of the first pair in `entries` whose name is `key`.
pub open spec fn lookup(entries: Seq<(Seq<char>, Seq<char>)>, key: Seq<char>) -> Option<Seq<char>>
    decreases entries.len(),
{
    if entries.len() == 0 {
        None
    } else if entries[0].0 == key {
        Some(entries[0].1)
    } else {
        lookup(entries.drop_first(), key)
    }
}

/// The pairs of a list of owned strings, each string taken by its characters.
pub open spec fn entries_of(pairs: Seq<(String, String)>) -> Seq<(Seq<char>, Seq<char>)> {
    Seq::new(pairs.len(), |i: int| (pairs[i].0@, pairs[i].1@))
}

/// The settings that a list of pairs defines: every name that occurs in it,
/// with the value of its first occurrence.
pub open spec fn settings(pairs: Seq<(String, String)>) -> Map<Seq<char>, Seq<char>> {
    Map::new(
        |key: Seq<char>| lookup(entries_of(pairs), key) is Some,
        |key: Seq<char>| lookup(entries_of(pairs), key)->0,
    )
}

/// `base` completed by `extra`: a name of `base` keeps its value, a name
/// that only `extra` has is added.
pub open spec fn overlay(base: Map<Seq<char>, Seq<char>>, extra: Map<Seq<char>, Seq<char>>) -> Map<
    Seq<char>,
    Seq<char>,
> {
    extra.union_prefer_right(base)
}

/// `bytes` without the byte order mark that may lead it.
pub open spec fn without_bom(bytes: Seq<u8>) -> Seq<u8> {
    if bytes.len() >= 3 && bytes[0] == 0xEF && bytes[1] == 0xBB && bytes[2] == 0xBF {
        bytes.skip(3)
    } else {
        bytes
    }
}

/// The message of a lookup that found nothing under `key`.
pub open spec fn not_found_message(key: Seq<char>) -> Seq<char> {
    "Environment variable `"@ + key + "` not found"@
}

/// Looking a name up in two lists put end to end finds what the first list
/// has, and falls back to the second.
pub proof fn lemma_lookup_concat(
    front: Seq<(Seq<char>, Seq<char>)>,
    back: Seq<(Seq<char>, Seq<char>)>,
    key: Seq<char>,
)
    ensures
        lookup(front + back, key) == match lookup(front, key) {
            Some(value) => Some(value),
            None => lookup(back, key),
        },
    decreases front.len(),
{
    if front.len() == 0 {
        assert(front + back =~= back);
    } else {
        assert((front + back)[0] == front[0]);
        assert((front + back).drop_first() =~= front.drop_first() + back);
        if front[0].0 != key {
            lemma_lookup_concat(front.drop_first(), back, key);
        }
    }
}

/// A name is looked up with success exactly when some pair carries it.
pub proof fn lemma_lookup_finds(entries: Seq<(Seq<char>, Seq<char>)>, key: Seq<char>)
    ensures
        lookup(entries, key) is Some <==> exists|i: int|
            0 <= i < entries.len() && (#[trigger] entries[i]).0 == key,
    decreases entries.len(),
{
    if entries.len() > 0 && entries[0].0 != key {
        let rest = entries.drop_first();
        lemma_lookup_finds(rest, key);
        if exists|i: int| 0 <= i < rest.len() && (#[trigger] rest[i]).0 == key {
            let i = choose|i: int| 0 <= i < rest.len() && (#[trigger] rest[i]).0 == key;
            assert(entries[i + 1].0 == key);
        }
        if exists|i: int| 0 <= i < entries.len() && (#[trigger] entries[i]).0 == key {
            let i = choose|i: int| 0 <= i < entries.len() && (#[trigger] entries[i]).0 == key;
            assert(rest[i - 1].0 == key);
        }
    } else if entries.len() > 0 {
        assert(entries[0].0 == key);
    }
}

/// The names that a list of pairs sets are the names of its pairs.
pub proof fn lemma_settings_names(pairs: Seq<(String, String)>)
    ensures
        settings(pairs).dom() == names_of(pairs).to_set(),
{
    let entries = entries_of(pairs);
    let names = names_of(pairs);
    assert forall|key: Seq<char>| settings(pairs).dom().contains(key) <==> names.to_set().contains(
        key,
    ) by {
        lemma_lookup_finds(entries, key);
        if lookup(entries, key) is Some {
            let i = choose|i: int| 0 <= i < entries.len() && (#[trigger] entries[i]).0 == key;
            assert(names[i] == key);
        }
        if names.to_set().contains(key) {
            let i = choose|i: int| 0 <= i < names.len() && names[i] == key;
            assert(entries[i].0 == key);
        }
    }
    assert(settings(pairs).dom() =~= names.to_set());
}

/// Completing by `extra` a second time changes nothing: what the first
/// round set is kept, and nothing else is left to add.
pub proof fn lemma_overlay_idempotent(
    base: Map<Seq<char>, Seq<char>>,
    extra: Map<Seq<char>, Seq<char>>,
)
    ensures
        overlay(overlay(base, extra), extra) == overlay(base, extra),
{
    assert(overlay(overlay(base, extra), extra) =~= overlay(base, extra));
}

/// `dotenvy::Iter`, the reader of the pairs of a settings file. Opaque here.
#[verifier::external_type_specification]
#[verifier::external_body]
#[verifier::reject_recursive_types(R)]
pub struct ExIter<R>(dotenvy::Iter<R>);

/// `dotenvy::Error`, the reason a line could not be read. Opaque here.
#[verifier::external_type_specification]
#[verifier::external_body]
pub struct ExError(dotenvy::Error);

/// The names that `dotenvy` reads from the bytes of a settings file, in the
/// order of their lines, up to the end of the file or to the first line that
/// it cannot read.
pub uninterp spec fn file_names(file: Seq<u8>) -> Seq<Seq<char>>;

/// The names of the pairs that `reader` still has to give, up to the first
/// time that it gives no pair.
pub uninterp spec fn names_to_come(reader: dotenvy::Iter<&[u8]>) -> Seq<Seq<char>>;

/// The names of a list of pairs, in their order.
pub open spec fn names_of(pairs: Seq<(String, String)>) -> Seq<Seq<char>> {
    Seq::new(pairs.len(), |i: int| pairs[i].0@)
}

/// `dotenvy::from_read_iter` on the bytes of a settings file. It only wraps
/// the bytes; nothing is read yet. Not proved: that the names the reader
/// has to give are those of the file, and that there are no more of them
/// than the file has bytes. A line that gives a pair holds a name of one
/// character or more and an equals sign, so each takes two bytes at least.
#[verifier::external_body]
fn settings_reader<'a>(file: &'a [u8]) -> (reader: dotenvy::Iter<&'a [u8]>)
    ensures
        names_to_come(reader) == file_names(file@),
        names_to_come(reader).len() <= file@.len(),
{
    dotenvy::from_read_iter(file)
}

/// `Iterator::next` of `dotenvy::Iter`: the next pair of the file, the error
/// on which reading stopped, or `None` at the end of the file. Not proved:
/// that a pair carries the first of the names still to come and leaves the
/// rest of them to come, and that no pair comes only when no name was left.
/// Nothing is claimed of a pair's value, nor of the reader after it gave no
/// pair.
#[verifier::external_body]
fn next_setting(reader: &mut dotenvy::Iter<&[u8]>) -> (next: Option<
    Result<(String, String), dotenvy::Error>,
>)
    ensures
        match next {
            Some(Ok(pair)) => {
                &&& names_to_come(*old(reader)).len() > 0
                &&& pair.0@ == names_to_come(*old(reader))[0]
                &&& names_to_come(*final(reader)) == names_to_come(*old(reader)).drop_first()
            },
            _ => names_to_come(*old(reader)).len() == 0,
        },
{
    reader.next()
}

/// Drops the byte order mark that may lead the bytes of a file.
pub fn strip_bom(file: &[u8]) -> (rest: &[u8])
    ensures
        rest@ == without_bom(file@),
{
    if file.len() >= 3 && file[0] == 0xEF && file[1] == 0xBB && file[2] == 0xBF {
        let rest = vstd::slice::slice_subrange(file, 3, file.len());
        assert(rest@ =~= file@.skip(3));
        rest
    } else {
        file
    }
}

/// The pairs of a settings file, up to its end or to the first line that
/// cannot be read: their names are exactly the names of the file. The count
/// of rounds is there for the loop to end; as a file has no more names than
/// bytes, it never cuts the reading short.
fn read_settings(file: &[u8]) -> (pairs: Vec<(String, String)>)
    ensures
        names_of(pairs@) == file_names(without_bom(file@)),
        pairs@.len() <= without_bom(file@).len(),
{
    let text = strip_bom(file);
    let mut reader = settings_reader(text);
    let mut pairs: Vec<(String, String)> = Vec::new();
    let mut rounds: usize = text.len();
    let mut done = false;
    let ghost mut coming = names_to_come(reader);
    assert(names_of(pairs@) + coming =~= file_names(text@));
    while !done && rounds > 0
        invariant
            names_of(pairs@) + coming == file_names(text@),
            file_names(text@).len() <= text@.len(),
            !done ==> coming == names_to_come(reader),
            !done ==> pairs@.len() + rounds == text@.len(),
            done ==> coming.len() == 0,
        decreases
                (if done {
                    0
                } else {
                    rounds + 1
                }),
    {
        let ghost before = pairs@;
        match next_setting(&mut reader) {
            Some(Ok(pair)) => {
                pairs.push(pair);
                rounds -= 1;
                proof {
                    assert(names_of(pairs@) =~= names_of(before).push(coming[0]));
                    assert(names_of(pairs@) + coming.drop_first() =~= names_of(before) + coming);
                    coming = coming.drop_first();
                }
            },
            _ => {
                done = true;
            },
        }
    }
    assert(coming.len() == 0) by {
        assert((names_of(pairs@) + coming).len() == pairs@.len() + coming.len());
    }
    assert(names_of(pairs@) + coming =~= names_of(pairs@));
    pairs
}

/// The settings of a process, fixed when the process starts.
pub struct Dotenv {
    vars: Vec<(String, String)>,
}

impl View for Dotenv {
    type V = Map<Seq<char>, Seq<char>>;

    closed spec fn view(&self) -> Map<Seq<char>, Seq<char>> {
        settings(self.vars@)
    }
}

impl Dotenv {
    /// Builds the snapshot from the variables of the process and the pairs
    /// read from a settings file. A variable of the process is never
    /// overwritten by the file.
    pub fn new(process: Vec<(String, String)>, file: Vec<(String, String)>) -> (env: Dotenv)
        ensures
            env@ == overlay(settings(process@), settings(file@)),
    {
        let mut vars = process;
        let mut rest = file;
        vars.append(&mut rest);
        proof {
            assert(entries_of(vars@) =~= entries_of(process@) + entries_of(file@));
            assert forall|key: Seq<char>|
                lookup(entries_of(vars@), key) == match lookup(entries_of(process@), key) {
                    Some(value) => Some(value),
                    None => lookup(entries_of(file@), key),
                } by {
                lemma_lookup_concat(entries_of(process@), entries_of(file@), key);
            }
            assert(settings(vars@) =~= overlay(settings(process@), settings(file@)));
        }
        Dotenv { vars }
    }

    /// Builds the snapshot from the variables of the process and the bytes
    /// of a settings file; no file is an empty one. A line that cannot be
    /// read ends the reading without an error, and the pairs before it
    /// count. The file adds its names, each with a value, to the variables
    /// of the process, which all keep theirs; a file without bytes adds
    /// nothing.
    pub fn load(process: Vec<(String, String)>, file: &[u8]) -> (env: Dotenv)
        ensures
            exists|pairs: Seq<(String, String)>|
                names_of(pairs) == file_names(without_bom(file@)) && env@ == overlay(
                    settings(process@),
                    #[trigger] settings(pairs),
                ),
            settings(process@).submap_of(env@),
            env@.dom() == settings(process@).dom().union(
                file_names(without_bom(file@)).to_set(),
            ),
            without_bom(file@).len() == 0 ==> env@ == settings(process@),
    {
        let pairs = read_settings(file);
        proof {
            lemma_settings_names(pairs@);
            assert(overlay(settings(process@), settings(pairs@)).dom() =~= settings(
                process@,
            ).dom().union(names_of(pairs@).to_set()));
            if without_bom(file@).len() == 0 {
                assert(entries_of(pairs@) =~= Seq::<(Seq<char>, Seq<char>)>::empty());
                assert(overlay(settings(process@), settings(pairs@)) =~= settings(process@));
            }
        }
        Dotenv::new(process, pairs)
    }

    /// The value set for `key`, or the message that names the missing key.
    pub fn get(&self, key: &str) -> (found: Result<String, String>)
        ensures
            match found {
                Ok(value) => self@.contains_key(key@) && value@ == self@[key@],
                Err(message) => !self@.contains_key(key@) && message@ == not_found_message(key@),
            },
    {
        match self.find(key) {
            Some(value) => Ok(value),
            None => {
                let mut message = "Environment variable `".to_owned();
                message.append(key);
                message.append("` not found");
                Err(message)
            },
        }
    }

    /// The value set for `key`, or `default` where there is none.
    pub fn get_or_default(&self, key: &str, default: &str) -> (value: String)
        ensures
            value@ == if self@.contains_key(key@) {
                self@[key@]
            } else {
                default@
            },
    {
        match self.find(key) {
            Some(value) => value,
            None => default.to_owned(),
        }
    }

    /// A copy of the value of the first pair named `key`.
    fn find(&self, key: &str) -> (found: Option<String>)
        ensures
            match found {
                Some(value) => self@.contains_key(key@) && value@ == self@[key@],
                None => !self@.contains_key(key@),
            },
    {
        let wanted = key.to_owned();
        let ghost entries = entries_of(self.vars@);
        let mut i: usize = 0;
        assert(entries.skip(0) =~= entries);
        while i < self.vars.len()
            invariant
                i <= self.vars.len(),
                wanted@ == key@,
                entries == entries_of(self.vars@),
                lookup(entries, key@) == lookup(entries.skip(i as int), key@),
            decreases self.vars.len() - i,
        {
            let ghost tail = entries.skip(i as int);
            assert(tail[0] == entries[i as int]);
            assert(tail.drop_first() =~= entries.skip(i + 1));
            if self.vars[i].0 == wanted {
                return Some(self.vars[i].1.clone());
            }
            i += 1;
        }
        None
    }
}

} // verus!
