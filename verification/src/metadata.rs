//! The embedded metadata protocol: a magic prefix, pipe-separated
//! `KEY=VALUE` segments and a terminating NUL byte, parsed into a map of
//! textual values.

use vstd::prelude::*;
use vstd::utf8::{decode_utf8, valid_utf8};

use crate::assoc::Table;
use crate::error::Error;
use crate::strutil::{
    find_char, normalize_name, spec_find, spec_normalize_name, spec_split, split_char,
};

verus! {

/// The metadata map: key to textual value, later insertions replacing
/// earlier ones.
pub type Metadata = Table<Value>;

/// A wrapper for a metadata value with utility methods.
#[derive(Debug)]
pub struct Value(String);

impl View for Value {
    type V = Seq<char>;

    closed spec fn view(&self) -> Seq<char> {
        self.0@
    }
}

/// One `name=version` item of a `DEPS` list: the name up to the first `=`
/// (hyphens normalized), the version between the first and the second `=`.
/// Nothing when the item holds no `=` at all.
pub open spec fn spec_kv(item: Seq<char>) -> Option<(Seq<char>, Seq<char>)> {
    let pieces = spec_split(item, '=');
    if pieces.len() >= 2 {
        Some((spec_normalize_name(pieces[0]), pieces[1]))
    } else {
        None
    }
}

/// Whether every item of a `DEPS` list is well formed.
pub open spec fn spec_kv_list_ok(items: Seq<Seq<char>>) -> bool {
    forall|i: int| 0 <= i < items.len() ==> spec_kv(#[trigger] items[i]) is Some
}

/// The parsed pairs of a well-formed `DEPS` list.
pub open spec fn spec_kv_list(items: Seq<Seq<char>>) -> Seq<(Seq<char>, Seq<char>)> {
    Seq::new(items.len(), |i: int| spec_kv(items[i])->Some_0)
}

/// Parses one `name=version` item: the name before the first `=` with
/// hyphens normalized, the piece after it as version.
pub fn parse_kv(item: &str) -> (r: Option<(String, String)>)
    ensures
        match r {
            Some(p) => spec_kv(item@) == Some((p.0@, p.1@)),
            None => spec_kv(item@) is None,
        },
{
    let pieces = split_char(item, '=');
    if pieces.len() >= 2 {
        let name = normalize_name(pieces[0].as_str());
        let version = String::from_str(pieces[1].as_str());
        proof {
            assert(pieces@.map_values(|p: String| p@)[0] == pieces@[0]@);
            assert(pieces@.map_values(|p: String| p@)[1] == pieces@[1]@);
        }
        Some((name, version))
    } else {
        None
    }
}

impl Value {
    /// Creates a new instance of a metadata value.
    pub fn new(value: String) -> (r: Value)
        ensures
            r@ == value@,
    {
        Value(value)
    }

    /// Returns the underlying text.
    pub fn as_str(&self) -> (r: &str)
        ensures
            r@ == self@,
    {
        self.0.as_str()
    }

    /// Returns the length of this [Value], in encoded bytes.
    pub fn len(&self) -> (r: usize)
        ensures
            r == vstd::utf8::encode_utf8(self@).len(),
    {
        let text = self.0.as_str();
        let bytes = text.as_bytes();
        proof {
            assert(vstd::string::StringSliceAdditionalSpecFns::spec_bytes(text)
                == vstd::utf8::encode_utf8(self@));
        }
        bytes.len()
    }

    /// Returns true if this [Value] is empty.
    pub fn is_empty(&self) -> (r: bool)
        ensures
            r == (self@.len() == 0),
    {
        self.0.as_str().is_empty()
    }

    /// Treats this [Value] as a comma-separated list and returns its items;
    /// the empty text means no items at all, not one empty item.
    pub fn as_list(&self) -> (r: Option<Vec<String>>)
        ensures
            match r {
                Some(items) => self@.len() > 0 && items@.map_values(|p: String| p@) == spec_split(
                    self@,
                    ',',
                ),
                None => self@.len() == 0,
            },
    {
        if self.is_empty() {
            None
        } else {
            Some(split_char(self.0.as_str(), ','))
        }
    }

    /// Treats this [Value] as a comma-separated list of `name=version` pairs
    /// and parses every item; the first malformed item is the error. The
    /// empty text means there are no pairs.
    #[verifier::loop_isolation(false)]
    pub fn parse_key_value_pairs(&self) -> (r: Option<Result<Vec<(String, String)>, Error>>)
        ensures
            match r {
                Some(Ok(pairs)) => {
                    &&& self@.len() > 0
                    &&& spec_kv_list_ok(spec_split(self@, ','))
                    &&& pairs@.map_values(|p: (String, String)| (p.0@, p.1@)) == spec_kv_list(
                        spec_split(self@, ','),
                    )
                },
                Some(Err(e)) => {
                    &&& self@.len() > 0
                    &&& !spec_kv_list_ok(spec_split(self@, ','))
                    &&& e == Error::InvalidDepFormat
                },
                None => self@.len() == 0,
            },
    {
        let items = match self.as_list() {
            Some(items) => items,
            None => {
                return None;
            },
        };
        let ghost views = spec_split(self@, ',');
        let mut pairs: Vec<(String, String)> = Vec::new();
        let mut i: usize = 0;
        let n: usize = items.len();
        while i < n
            invariant
                0 <= i <= n,
                n == views.len(),
                items@.map_values(|p: String| p@) == views,
                pairs@.len() == i,
                forall|j: int| 0 <= j < i ==> spec_kv(#[trigger] views[j]) is Some,
                forall|j: int|
                    0 <= j < i ==> spec_kv(views[j]) == Some(
                        ((#[trigger] pairs@[j]).0@, pairs@[j].1@),
                    ),
            decreases n - i,
        {
            proof {
                assert(items@.map_values(|p: String| p@)[i as int] == items@[i as int]@);
            }
            match parse_kv(items[i].as_str()) {
                Some(pair) => {
                    proof {
                        assert(spec_kv(views[i as int]) == Some((pair.0@, pair.1@)));
                    }
                    pairs.push(pair);
                },
                None => {
                    proof {
                        if spec_kv_list_ok(views) {
                            assert(spec_kv(views[i as int]) is Some);
                        }
                    }
                    return Some(Result::Err(Error::InvalidDepFormat));
                },
            }
            i = i + 1;
        }
        proof {
            assert(pairs@.map_values(|p: (String, String)| (p.0@, p.1@)) =~~= spec_kv_list(views));
        }
        Some(Result::Ok(pairs))
    }
}

/// Relies on std's `str::from_utf8`: succeeds exactly on valid UTF-8 and
/// decodes the bytes to their characters.
#[verifier::external_body]
fn utf8_to_string(bytes: &[u8]) -> (r: Option<String>)
    ensures
        r is Some <==> valid_utf8(bytes@),
        r is Some ==> r->Some_0@ == decode_utf8(bytes@),
{
    std::str::from_utf8(bytes).ok().map(|s| s.to_owned())
}

/// The key of one `KEY=VALUE` segment: everything before the first `=`.
pub open spec fn spec_var_key(v: Seq<char>) -> Seq<char> {
    v.take(spec_find(v, '=')->Some_0)
}

/// The value of one `KEY=VALUE` segment: everything after the first `=`.
pub open spec fn spec_var_value(v: Seq<char>) -> Seq<char> {
    v.skip(spec_find(v, '=')->Some_0 + 1)
}

/// Whether every segment after the magic prefix holds an `=`.
pub open spec fn spec_vars_ok(vars: Seq<Seq<char>>) -> bool {
    forall|i: int| 0 <= i < vars.len() ==> spec_find(#[trigger] vars[i], '=') is Some
}

/// The map the segments denote, inserted first to last.
pub open spec fn spec_vars_map(vars: Seq<Seq<char>>) -> Map<Seq<char>, Seq<char>>
    decreases vars.len(),
{
    if vars.len() == 0 {
        Map::empty()
    } else {
        spec_vars_map(vars.drop_last()).insert(
            spec_var_key(vars.last()),
            spec_var_value(vars.last()),
        )
    }
}

/// The metadata a descriptor's decoded text denotes: the pipe-separated
/// segments after the first (the magic prefix), each split at its first `=`.
pub open spec fn spec_metadata_of(text: Seq<char>) -> Map<Seq<char>, Seq<char>> {
    spec_vars_map(spec_split(text, '|').skip(1))
}

/// Whether a descriptor's decoded text is well formed: every segment after
/// the magic prefix holds an `=`.
pub open spec fn spec_metadata_ok(text: Seq<char>) -> bool {
    spec_vars_ok(spec_split(text, '|').skip(1))
}

/// Parses a raw metadata descriptor: everything up to the final byte (the
/// NUL terminator) must be UTF-8 text of the form
/// `MAGIC|KEY=VALUE|KEY=VALUE...`; the magic prefix itself is skipped, and
/// each remaining segment is split at its first `=`.
#[verifier::loop_isolation(false)]
pub fn parse_metadata(bytes: &[u8]) -> (r: Result<Metadata, Error>)
    requires
        bytes@.len() >= 1,
    ensures
        match r {
            Ok(m) => {
                &&& valid_utf8(bytes@.take(bytes@.len() - 1))
                &&& spec_metadata_ok(decode_utf8(bytes@.take(bytes@.len() - 1)))
                &&& m@ == spec_metadata_of(decode_utf8(bytes@.take(bytes@.len() - 1)))
            },
            Err(Error::InvalidUtf8) => !valid_utf8(bytes@.take(bytes@.len() - 1)),
            Err(Error::InvalidMetadata) => {
                &&& valid_utf8(bytes@.take(bytes@.len() - 1))
                &&& !spec_metadata_ok(decode_utf8(bytes@.take(bytes@.len() - 1)))
            },
            Err(_) => false,
        },
{
    let body = vstd::slice::slice_subrange(bytes, 0, bytes.len() - 1);
    proof {
        assert(body@ =~= bytes@.take(bytes@.len() - 1));
    }
    let text = match utf8_to_string(body) {
        Some(t) => t,
        None => {
            return Result::Err(Error::InvalidUtf8);
        },
    };
    proof {
        assert(valid_utf8(body@));
        assert(valid_utf8(bytes@.take(bytes@.len() - 1)));
        assert(text@ == decode_utf8(bytes@.take(bytes@.len() - 1)));
    }
    let segments = split_char(text.as_str(), '|');
    let ghost all = spec_split(text@, '|');
    let ghost vars = all.skip(1);
    let mut map: Metadata = Table::new();
    let mut i: usize = 1;
    let n: usize = segments.len();
    proof {
        crate::strutil::lemma_split_len(text@, '|');
        assert(vars.take(0int) =~= Seq::<Seq<char>>::empty());
    }
    while i < n
        invariant
            1 <= i <= n,
            n == all.len(),
            vars == all.skip(1),
            segments@.map_values(|p: String| p@) == all,
            forall|j: int| 0 <= j < i - 1 ==> spec_find(#[trigger] vars[j], '=') is Some,
            map@ == spec_vars_map(vars.take(i - 1)),
        decreases n - i,
    {
        proof {
            assert(segments@.map_values(|p: String| p@)[i as int] == segments@[i as int]@);
            assert(vars[i - 1] == all[i as int]);
        }
        let seg = segments[i].as_str();
        let pos = match find_char(seg, '=') {
            Some(p) => p,
            None => {
                proof {
                    if spec_vars_ok(vars) {
                        assert(spec_find(vars[i - 1], '=') is Some);
                    }
                }
                return Result::Err(Error::InvalidMetadata);
            },
        };
        proof {
            crate::strutil::lemma_spec_find(seg@, '=');
        }
        let seg_len = seg.unicode_len();
        let key = seg.substring_char(0, pos);
        let val = seg.substring_char(pos + 1, seg_len);
        proof {
            assert(key@ =~= spec_var_key(vars[i - 1]));
            assert(val@ =~= spec_var_value(vars[i - 1]));
        }
        map.insert(String::from_str(key), Value::new(String::from_str(val)));
        proof {
            assert(vars.take(i as int).drop_last() =~= vars.take(i - 1));
            assert(vars.take(i as int).last() == vars[i - 1]);
        }
        i = i + 1;
    }
    proof {
        assert(vars.take(n - 1) =~= vars);
    }
    Result::Ok(map)
}

} // verus!
