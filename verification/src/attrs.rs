//! The ordered attribute store: key-value string pairs decoded from one
//! response frame. Keys may repeat and order is significant; repeated
//! occurrences of a delimiter key carve the store into per-record groups.

use vstd::prelude::*;
use crate::text::str_eq;

verus! {

/// One decoded `key: value` pair, as character sequences.
pub type AttrPair = (Seq<char>, Seq<char>);

/// Ordered key-value pairs decoded from one response frame.
#[derive(Debug)]
pub struct Attributes {
    attrs: Vec<(String, String)>,
}

impl View for Attributes {
    type V = Seq<AttrPair>;

    closed spec fn view(&self) -> Seq<AttrPair> {
        self.attrs.deep_view()
    }
}

/// The value of the first pair whose key is `name`, if any.
pub open spec fn first_value(s: Seq<AttrPair>, name: Seq<char>) -> Option<Seq<char>>
    decreases s.len(),
{
    if s.len() == 0 {
        None
    } else if s[0].0 == name {
        Some(s[0].1)
    } else {
        first_value(s.skip(1), name)
    }
}

/// The values of all pairs whose key is `name`, in order.
pub open spec fn all_values(s: Seq<AttrPair>, name: Seq<char>) -> Seq<Seq<char>>
    decreases s.len(),
{
    if s.len() == 0 {
        Seq::empty()
    } else {
        all_values(s.drop_last(), name) + (if s.last().0 == name {
            seq![s.last().1]
        } else {
            Seq::empty()
        })
    }
}

/// The grouping of `s` at each occurrence of the key `name`: each group
/// begins with an occurrence of `name` and holds all following pairs up to
/// the next occurrence; pairs before the first occurrence are dropped.
pub open spec fn split_at_spec(s: Seq<AttrPair>, name: Seq<char>) -> Seq<Seq<AttrPair>>
    decreases s.len(),
{
    if s.len() == 0 {
        Seq::empty()
    } else {
        let pre = split_at_spec(s.drop_last(), name);
        let p = s.last();
        if p.0 == name {
            pre.push(seq![p])
        } else if pre.len() > 0 {
            pre.update(pre.len() - 1, pre.last().push(p))
        } else {
            pre
        }
    }
}

proof fn lemma_first_value_at(s: Seq<AttrPair>, name: Seq<char>, i: int)
    requires
        0 <= i < s.len(),
        s[i].0 == name,
        forall|j: int| 0 <= j < i ==> (#[trigger] s[j]).0 != name,
    ensures
        first_value(s, name) == Some(s[i].1),
    decreases i,
{
    if i > 0 {
        let t = s.skip(1);
        assert(forall|j: int| 0 <= j < i - 1 ==> #[trigger] t[j] == s[j + 1]);
        lemma_first_value_at(t, name, i - 1);
    }
}

proof fn lemma_first_value_none(s: Seq<AttrPair>, name: Seq<char>)
    requires
        forall|j: int| 0 <= j < s.len() ==> (#[trigger] s[j]).0 != name,
    ensures
        first_value(s, name) is None,
    decreases s.len(),
{
    if s.len() > 0 {
        let t = s.skip(1);
        assert(forall|j: int| 0 <= j < t.len() ==> #[trigger] t[j] == s[j + 1]);
        lemma_first_value_none(t, name);
    }
}

/// An error looking a typed value up in an attribute store, named after
/// the attribute involved.
#[derive(Debug)]
pub enum AttrError {
    /// The attribute is absent.
    Missing { name: String },
    /// The attribute is present but does not parse as the requested type.
    Malformed { name: String },
}

impl AttrError {
    /// The name of the attribute the error is about.
    pub fn name(&self) -> (r: &String)
        ensures
            r@ == self.name_spec(),
    {
        match self {
            AttrError::Missing { name } => name,
            AttrError::Malformed { name } => name,
        }
    }

    pub open spec fn name_spec(&self) -> Seq<char> {
        match self {
            AttrError::Missing { name } => name@,
            AttrError::Malformed { name } => name@,
        }
    }
}

/// A value that can be parsed from an attribute's raw string.
pub trait AttrValue: View + Sized {
    /// Whether parsing the raw value `s` succeeds.
    spec fn parse_ok(s: Seq<char>) -> bool;

    /// The view of the value parsed from `s`, meaningful when
    /// `parse_ok(s)` holds.
    spec fn parse_view(s: Seq<char>) -> Self::V;

    /// Parses the raw attribute value.
    fn parse_attr(s: &str) -> (r: Option<Self>)
        ensures
            r is Some <==> Self::parse_ok(s@),
            r is Some ==> r.unwrap()@ == Self::parse_view(s@),
    ;
}

impl Attributes {
    /// An empty store.
    pub fn new() -> (r: Attributes)
        ensures
            r@ =~= Seq::<AttrPair>::empty(),
    {
        Attributes { attrs: Vec::new() }
    }

    /// Appends one pair at the end.
    pub fn push(&mut self, key: String, value: String)
        ensures
            final(self)@ =~= old(self)@.push((key@, value@)),
    {
        self.attrs.push((key, value));
    }

    /// All pairs, in order.
    pub fn iter(&self) -> (r: &Vec<(String, String)>)
        ensures
            r.deep_view() == self@,
    {
        &self.attrs
    }

    /// The raw value of the first pair named `name`.
    pub fn get_one(&self, name: &str) -> (r: Option<&str>)
        ensures
            match r {
                Some(v) => first_value(self@, name@) == Some(v@),
                None => first_value(self@, name@) is None,
            },
    {
        let n = self.attrs.len();
        let mut i: usize = 0;
        while i < n
            invariant
                i <= n,
                n == self.attrs.len(),
                self@ == self.attrs.deep_view(),
                self@.len() == n,
                forall|j: int| 0 <= j < i ==> (#[trigger] self@[j]).0 != name@,
            decreases n - i,
        {
            assert(self@[i as int] == (self.attrs[i as int].0@, self.attrs[i as int].1@));
            if str_eq(self.attrs[i].0.as_str(), name) {
                proof {
                    lemma_first_value_at(self@, name@, i as int);
                }
                return Some(self.attrs[i].1.as_str());
            }
            i += 1;
        }
        proof {
            lemma_first_value_none(self@, name@);
        }
        None
    }

    /// The raw values of every pair named `name`, in their original order.
    pub fn get_all(&self, name: &str) -> (r: Vec<String>)
        ensures
            r.deep_view() == all_values(self@, name@),
    {
        let n = self.attrs.len();
        let mut out: Vec<String> = Vec::new();
        let mut i: usize = 0;
        while i < n
            invariant
                i <= n,
                n == self.attrs.len(),
                self@ == self.attrs.deep_view(),
                self@.len() == n,
                out.deep_view() == all_values(self@.take(i as int), name@),
            decreases n - i,
        {
            let ghost pre = self@.take(i as int);
            proof {
                assert(self@.take(i + 1).drop_last() =~= pre);
                assert(self@.take(i + 1).last() == self@[i as int]);
                assert(self@[i as int] == (self.attrs[i as int].0@, self.attrs[i as int].1@));
            }
            if str_eq(self.attrs[i].0.as_str(), name) {
                out.push(self.attrs[i].1.clone());
                proof {
                    assert(out.deep_view() =~= all_values(self@.take(i + 1), name@));
                }
            } else {
                proof {
                    assert(out.deep_view() =~= all_values(self@.take(i + 1), name@));
                }
            }
            i += 1;
        }
        proof {
            assert(self@.take(n as int) =~= self@);
        }
        out
    }

    /// Looks the first value for `name` up and parses it as `T`; reports
    /// absence and malformed values as distinct errors naming `name`.
    pub fn get<T: AttrValue>(&self, name: &str) -> (r: Result<T, AttrError>)
        ensures
            match first_value(self@, name@) {
                None => r matches Err(e) && e is Missing && e.name_spec() == name@,
                Some(v) => {
                    if T::parse_ok(v) {
                        r matches Ok(t) && t@ == T::parse_view(v)
                    } else {
                        r matches Err(e) && e is Malformed && e.name_spec() == name@
                    }
                },
            },
    {
        match self.get_one(name) {
            None => Err(AttrError::Missing { name: name.to_owned() }),
            Some(raw) => match T::parse_attr(raw) {
                Some(t) => Ok(t),
                None => Err(AttrError::Malformed { name: name.to_owned() }),
            },
        }
    }

    /// Like `get`, but absence is `Ok(None)` rather than an error; a value
    /// that fails to parse is still an error.
    pub fn get_opt<T: AttrValue>(&self, name: &str) -> (r: Result<Option<T>, AttrError>)
        ensures
            match first_value(self@, name@) {
                None => r matches Ok(o) && o is None,
                Some(v) => {
                    if T::parse_ok(v) {
                        r matches Ok(o) && o matches Some(t) && t@ == T::parse_view(v)
                    } else {
                        r matches Err(e) && e is Malformed && e.name_spec() == name@
                    }
                },
            },
    {
        match self.get_one(name) {
            None => Ok(None),
            Some(raw) => match T::parse_attr(raw) {
                Some(t) => Ok(Some(t)),
                None => Err(AttrError::Malformed { name: name.to_owned() }),
            },
        }
    }

    /// Partitions the pairs into one store per occurrence of `name`, each
    /// beginning with that occurrence and holding all following pairs up
    /// to (not including) the next one.
    pub fn split_at(self, name: &str) -> (r: Vec<Attributes>)
        ensures
            r@.map_values(|a: Attributes| a@) == split_at_spec(self@, name@),
    {
        let ghost whole = self@;
        let n = self.attrs.len();
        let mut splits: Vec<Attributes> = Vec::new();
        let mut i: usize = 0;
        while i < n
            invariant
                i <= n,
                n == self.attrs.len(),
                whole == self.attrs.deep_view(),
                whole.len() == n,
                splits@.map_values(|a: Attributes| a@) == split_at_spec(
                    whole.take(i as int),
                    name@,
                ),
            decreases n - i,
        {
            let ghost pre = split_at_spec(whole.take(i as int), name@);
            proof {
                assert(whole.take(i + 1).drop_last() =~= whole.take(i as int));
                assert(whole.take(i + 1).last() == whole[i as int]);
                assert(whole[i as int] == (self.attrs[i as int].0@, self.attrs[i as int].1@));
            }
            let key = self.attrs[i].0.clone();
            let value = self.attrs[i].1.clone();
            if str_eq(key.as_str(), name) {
                let mut one = Attributes::new();
                one.push(key, value);
                splits.push(one);
                proof {
                    assert(splits@.map_values(|a: Attributes| a@) =~= split_at_spec(
                        whole.take(i + 1),
                        name@,
                    ));
                }
            } else if splits.len() > 0 {
                let mut last = splits.pop().unwrap();
                last.push(key, value);
                splits.push(last);
                proof {
                    assert(splits@.map_values(|a: Attributes| a@) =~= split_at_spec(
                        whole.take(i + 1),
                        name@,
                    ));
                }
            } else {
                proof {
                    assert(splits@.map_values(|a: Attributes| a@) =~= split_at_spec(
                        whole.take(i + 1),
                        name@,
                    ));
                }
            }
            i += 1;
        }
        proof {
            assert(whole.take(n as int) =~= whole);
        }
        splits
    }
}

} // verus!
