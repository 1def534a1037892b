//! Key names and key codes.

use vstd::prelude::*;

use crate::text::{same, texts};

verus! {

/// How many key codes there are.
pub const KEY_COUNT: u16 = 768;

/// The code of the key that `input_linux::Key` reads from a name.
pub uninterp spec fn named_key(name: Seq<char>) -> Option<u16>;

/// What `input_linux::Key` prints for the key of a code.
pub uninterp spec fn key_name(code: u16) -> Seq<char>;

/// `input_linux::Key::deserialize` on a name: the code of the key of that name,
/// and nothing where no key has the name. Codes are below [`KEY_COUNT`].
#[verifier::external_body]
fn key_code(name: &str) -> (r: Option<u16>)
    ensures
        r == named_key(name@),
        r matches Some(code) ==> code < KEY_COUNT,
{
    let d: serde::de::value::StrDeserializer<serde::de::value::Error> =
        serde::de::value::StrDeserializer::new(name);
    <input_linux::Key as serde::Deserialize>::deserialize(d).ok().map(|key| key.code())
}

/// `input_linux::Key::from_code` and the `Debug` text of its result. Every code
/// below [`KEY_COUNT`] is that of a key, and no other is.
#[verifier::external_body]
fn printed_key(code: u16) -> (r: Option<String>)
    ensures
        r is Some <==> code < KEY_COUNT,
        r matches Some(t) ==> t@ == key_name(code),
{
    input_linux::Key::from_code(code).ok().map(|key| format!("{:?}", key))
}

/// The keys of an action, as they are written down: one name, or a list.
pub enum KeySpec {
    One(String),
    Many(Vec<String>),
}

/// The codes of a list of key names, if all of them name keys.
pub open spec fn named_keys(names: Seq<Seq<char>>) -> Option<Seq<u16>>
    decreases names.len(),
{
    if names.len() == 0 {
        Some(Seq::empty())
    } else {
        match (named_keys(names.drop_last()), named_key(names.last())) {
            (Some(codes), Some(code)) => Some(codes.push(code)),
            _ => None,
        }
    }
}

/// The codes of an action: none for the single name `DnD`.
pub open spec fn action_codes(keys: KeySpec) -> Option<Seq<u16>> {
    match keys {
        KeySpec::One(name) => if name@ == "DnD"@ {
            Some(Seq::empty())
        } else {
            named_keys(seq![name@])
        },
        KeySpec::Many(names) => named_keys(texts(names@)),
    }
}

/// Codes that belong to keys.
pub open spec fn are_keys(codes: Seq<u16>) -> bool {
    forall|i: int| 0 <= i < codes.len() ==> (#[trigger] codes[i]) < KEY_COUNT
}

/// Whether codes belong to keys.
pub fn check_keys(codes: &Vec<u16>) -> (r: bool)
    ensures
        r == are_keys(codes@),
{
    let n = codes.len();
    let mut i: usize = 0;
    while i < n
        invariant
            i <= n,
            n == codes@.len(),
            forall|k: int| 0 <= k < i ==> (#[trigger] codes@[k]) < KEY_COUNT,
        decreases n - i,
    {
        if codes[i] >= KEY_COUNT {
            assert(codes@[i as int] >= KEY_COUNT);
            return false;
        }
        i += 1;
    }
    true
}

/// Reads a list of key names. The error is the first name that is none.
fn key_codes(names: &Vec<String>) -> (r: Result<Vec<u16>, String>)
    ensures
        match r {
            Ok(codes) => named_keys(texts(names@)) == Some(codes@) && are_keys(codes@),
            Err(name) => named_keys(texts(names@)) is None && named_key(name@) is None
                && exists|i: int|
                0 <= i < names@.len() && (#[trigger] names@[i])@ == name@ && forall|j: int|
                    0 <= j < i ==> named_key((#[trigger] names@[j])@) is Some,
        },
{
    let ghost all = texts(names@);
    let mut codes: Vec<u16> = Vec::new();
    let n = names.len();
    let mut i: usize = 0;
    assert(all.subrange(0, 0) =~= Seq::empty());
    assert(codes@ =~= Seq::empty());
    while i < n
        invariant
            i <= n,
            n == names@.len(),
            all == texts(names@),
            named_keys(all.subrange(0, i as int)) == Some(codes@),
            are_keys(codes@),
            forall|j: int| 0 <= j < i ==> named_key((#[trigger] names@[j])@) is Some,
        decreases n - i,
    {
        let ghost seen = all.subrange(0, i + 1);
        assert(seen.drop_last() =~= all.subrange(0, i as int));
        assert(seen.last() == names@[i as int]@);
        match key_code(names[i].as_str()) {
            Some(code) => {
                codes.push(code);
            },
            None => {
                proof {
                    lemma_unnamed_stays(all, i + 1);
                }
                return Err(names[i].clone());
            },
        }
        i += 1;
    }
    assert(all.subrange(0, n as int) =~= all);
    Ok(codes)
}

proof fn lemma_unnamed_stays(names: Seq<Seq<char>>, len: int)
    requires
        0 <= len <= names.len(),
        named_keys(names.subrange(0, len)) is None,
    ensures
        named_keys(names) is None,
    decreases names.len() - len,
{
    if len == names.len() {
        assert(names.subrange(0, len) =~= names);
    } else {
        assert(names.subrange(0, len + 1).drop_last() =~= names.subrange(0, len));
        lemma_unnamed_stays(names, len + 1);
    }
}

/// Reads the keys of an action. The error is a name that is that of no key.
pub fn array_or_single(keys: KeySpec) -> (r: Result<Vec<u16>, String>)
    ensures
        match r {
            Ok(codes) => action_codes(keys) == Some(codes@) && are_keys(codes@),
            Err(name) => action_codes(keys) is None && named_key(name@) is None,
        },
{
    match keys {
        KeySpec::One(name) => {
            if same(name.as_str(), "DnD") {
                return Ok(Vec::new());
            }
            let mut names: Vec<String> = Vec::new();
            names.push(name);
            assert(texts(names@) =~= seq![name@]);
            key_codes(&names)
        },
        KeySpec::Many(names) => key_codes(&names),
    }
}

/// Key names in a list.
pub open spec fn key_names(codes: Seq<u16>) -> Seq<Seq<char>> {
    Seq::new(codes.len(), |i: int| key_name(codes[i]))
}

/// Writes the names of keys.
pub fn print_keys(codes: &Vec<u16>) -> (r: Vec<String>)
    requires
        are_keys(codes@),
    ensures
        texts(r@) == key_names(codes@),
{
    let mut r: Vec<String> = Vec::new();
    let n = codes.len();
    let mut i: usize = 0;
    while i < n
        invariant
            i <= n,
            n == codes@.len(),
            are_keys(codes@),
            r@.len() == i,
            forall|k: int| 0 <= k < i ==> (#[trigger] r@[k])@ == key_name(codes@[k]),
        decreases n - i,
    {
        match printed_key(codes[i]) {
            Some(name) => {
                r.push(name);
            },
            None => {
                assert(false);
            },
        }
        i += 1;
    }
    assert(texts(r@) =~= key_names(codes@));
    r
}

/// A list of names gives the codes of its keys, one for each name and in their
/// order, and nothing exactly where one of them names no key.
pub proof fn each_name_gives_its_key(names: Seq<Seq<char>>)
    ensures
        match named_keys(names) {
            Some(codes) => codes.len() == names.len() && forall|i: int|
                0 <= i < names.len() ==> named_key(#[trigger] names[i]) == Some(codes[i]),
            None => exists|i: int| 0 <= i < names.len() && named_key(#[trigger] names[i]) is None,
        },
    decreases names.len(),
{
    if names.len() > 0 {
        let front = names.drop_last();
        each_name_gives_its_key(front);
        match named_keys(front) {
            Some(codes) => {
                if named_key(names.last()) is None {
                    assert(named_key(names[names.len() - 1]) is None);
                } else {
                    let all = named_keys(names)->0;
                    assert forall|i: int| 0 <= i < names.len() implies named_key(#[trigger] names[i])
                        == Some(all[i]) by {
                        if i < front.len() {
                            assert(front[i] == names[i]);
                        }
                    }
                }
            },
            None => {
                let i = choose|i: int| 0 <= i < front.len() && named_key(#[trigger] front[i]) is None;
                assert(named_key(names[i]) is None);
            },
        }
    }
}

/// One name stands for the one key of that name, and the name for not being
/// disturbed for no key at all.
pub proof fn one_name_gives_one_key(name: String)
    ensures
        name@ == "DnD"@ ==> action_codes(KeySpec::One(name)) == Some(Seq::<u16>::empty()),
        name@ != "DnD"@ ==> match named_key(name@) {
            Some(code) => action_codes(KeySpec::One(name)) == Some(seq![code]),
            None => action_codes(KeySpec::One(name)) is None,
        },
{
    let names = seq![name@];
    reveal_with_fuel(named_keys, 2);
    assert(names.drop_last() =~= Seq::<Seq<char>>::empty());
    if named_key(name@) is Some {
        assert(named_keys(names)->0 =~= seq![named_key(name@)->0]);
    }
}

} // verus!
