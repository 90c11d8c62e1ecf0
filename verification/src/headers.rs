//! The ordered-insertion, case-insensitive-keyed header multimap.
//!
//! A [`Headers`] value maps header names to ordered lists of header values.
//! Names are normalized to lower case when a [`HeaderName`] is built, so two
//! spellings of the same name reach the same entry.  Entries keep the order
//! in which their names were first inserted; inserting under an existing
//! name replaces that entry's values in place and hands the previous values
//! back.

use vstd::prelude::*;
use vstd::string::StrSliceExecFns;
use vstd::string::StringSliceAdditionalSpecFns;
use vstd::utf8::encode_utf8;

verus! {

/// The error a header operation raises on malformed input.
#[derive(Clone, Copy, PartialEq, Eq, Structural, Debug)]
pub enum HeaderError {
    /// A header name was empty or held a byte outside the printable ASCII
    /// range.
    InvalidName,
    /// A header value held a byte other than printable ASCII, space or tab.
    InvalidValue,
}

/// A byte a header name may hold before normalization: printable ASCII with
/// no blanks.
pub open spec fn name_byte_ok(b: u8) -> bool {
    33 <= b <= 126
}

/// The lower-case form of one ASCII byte.
pub open spec fn lower_byte(b: u8) -> u8 {
    if 65 <= b <= 90 {
        (b + 32) as u8
    } else {
        b
    }
}

/// The lower-case form of a byte sequence.
pub open spec fn lower_bytes(s: Seq<u8>) -> Seq<u8> {
    s.map_values(|b: u8| lower_byte(b))
}

/// Whether the UTF-8 bytes of a string are acceptable as a header name:
/// nonempty, printable ASCII, no blanks.
pub open spec fn valid_name_bytes(s: Seq<u8>) -> bool {
    s.len() > 0 && forall|i: int| 0 <= i < s.len() ==> name_byte_ok(#[trigger] s[i])
}

/// A byte a header value may hold: printable ASCII, space or tab.
pub open spec fn value_byte_ok(b: u8) -> bool {
    b == 9 || 32 <= b <= 126
}

/// Whether the UTF-8 bytes of a string are acceptable as a header value.
pub open spec fn valid_value_bytes(s: Seq<u8>) -> bool {
    forall|i: int| 0 <= i < s.len() ==> value_byte_ok(#[trigger] s[i])
}

/// Whether a string is acceptable as a header value.
pub open spec fn valid_value(s: Seq<char>) -> bool {
    valid_value_bytes(encode_utf8(s))
}

/// A header name, held in its normalized (lower-case ASCII) byte form.
#[derive(Debug)]
pub struct HeaderName {
    bytes: Vec<u8>,
}

impl View for HeaderName {
    type V = Seq<u8>;

    closed spec fn view(&self) -> Seq<u8> {
        self.bytes@
    }
}

impl HeaderName {
    /// Build a header name from its textual form, normalizing it to lower
    /// case.  Rejects a name whose bytes are not all printable ASCII, or an
    /// empty name.
    pub fn from_string(s: String) -> (r: Result<HeaderName, HeaderError>)
        ensures
            match r {
                Ok(n) => valid_name_bytes(encode_utf8(s@)) && n@ == lower_bytes(encode_utf8(s@)),
                Err(e) => !valid_name_bytes(encode_utf8(s@)) && e == HeaderError::InvalidName,
            },
    {
        let bytes = s.as_str().as_bytes_vec();
        if bytes.len() == 0 {
            return Err(HeaderError::InvalidName);
        }
        let mut lowered: Vec<u8> = Vec::new();
        let mut i: usize = 0;
        while i < bytes.len()
            invariant
                i <= bytes.len(),
                bytes@ == encode_utf8(s@),
                lowered@ == lower_bytes(bytes@.take(i as int)),
                forall|j: int| 0 <= j < i ==> name_byte_ok(#[trigger] bytes@[j]),
            decreases bytes.len() - i,
        {
            let b = bytes[i];
            if b < 33 || b > 126 {
                return Err(HeaderError::InvalidName);
            }
            let lb = if 65 <= b && b <= 90 {
                b + 32
            } else {
                b
            };
            lowered.push(lb);
            proof {
                assert(lowered@ =~= lower_bytes(bytes@.take(i + 1)));
            }
            i = i + 1;
        }
        proof {
            assert(bytes@.take(bytes@.len() as int) =~= bytes@);
        }
        Ok(HeaderName { bytes: lowered })
    }

    /// The normalized bytes of the name.
    pub fn as_bytes(&self) -> (r: &Vec<u8>)
        ensures
            r@ == self@,
    {
        &self.bytes
    }
}

impl Clone for HeaderName {
    fn clone(&self) -> (r: Self)
        ensures
            r@ == self@,
    {
        HeaderName { bytes: self.bytes.clone() }
    }
}

/// One value held under a header name.  Whether its text is acceptable is
/// checked when it is inserted, not when it is built.
#[derive(Debug)]
pub struct HeaderValue {
    value: String,
}

impl View for HeaderValue {
    type V = Seq<char>;

    closed spec fn view(&self) -> Seq<char> {
        self.value@
    }
}

impl HeaderValue {
    /// Wrap a string as a header value.
    pub fn new(value: String) -> (r: HeaderValue)
        ensures
            r@ == value@,
    {
        HeaderValue { value }
    }

    /// The textual form of the value.
    pub fn as_str(&self) -> (r: &str)
        ensures
            r@ == self@,
    {
        self.value.as_str()
    }

    /// Give the wrapped string back.
    pub fn into_string(self) -> (r: String)
        ensures
            r@ == self@,
    {
        self.value
    }

    /// Whether this value's bytes are acceptable in a header.
    pub fn is_valid(&self) -> (r: bool)
        ensures
            r == valid_value(self@),
    {
        let bytes = self.value.as_str().as_bytes_vec();
        let mut i: usize = 0;
        while i < bytes.len()
            invariant
                i <= bytes.len(),
                bytes@ == encode_utf8(self@),
                forall|j: int| 0 <= j < i ==> value_byte_ok(#[trigger] bytes@[j]),
            decreases bytes.len() - i,
        {
            let b = bytes[i];
            if !(b == 9 || (32 <= b && b <= 126)) {
                return false;
            }
            i = i + 1;
        }
        true
    }
}

impl Clone for HeaderValue {
    fn clone(&self) -> (r: Self)
        ensures
            r@ == self@,
    {
        HeaderValue { value: self.value.clone() }
    }
}

/// One entry of the multimap: a name and the ordered values held under it.
pub type HeaderEntry = (HeaderName, Vec<HeaderValue>);

/// The position of the entry whose name has the given normalized bytes, or
/// `-1` if no entry has that name.
pub open spec fn spec_index_of(s: Seq<HeaderEntry>, k: Seq<u8>) -> int
    decreases s.len(),
{
    if s.len() == 0 {
        -1
    } else if s[0].0@ == k {
        0
    } else {
        let r = spec_index_of(s.drop_first(), k);
        if r == -1 {
            -1
        } else {
            r + 1
        }
    }
}

/// `spec_index_of` returns the position of the first entry with the given
/// name, and `-1` exactly when no entry has it.
pub proof fn lemma_index_of_props(s: Seq<HeaderEntry>, k: Seq<u8>)
    ensures
        -1 <= spec_index_of(s, k) < s.len(),
        spec_index_of(s, k) >= 0 ==> s[spec_index_of(s, k)].0@ == k,
        forall|j: int|
            0 <= j < spec_index_of(s, k) ==> (#[trigger] s[j]).0@ != k,
        spec_index_of(s, k) == -1 ==> forall|j: int|
            0 <= j < s.len() ==> (#[trigger] s[j]).0@ != k,
    decreases s.len(),
{
    if s.len() == 0 {
    } else if s[0].0@ == k {
    } else {
        let ss = s.drop_first();
        lemma_index_of_props(ss, k);
        assert(spec_index_of(ss, k) >= 0 ==> s[spec_index_of(ss, k) + 1] == ss[spec_index_of(
            ss,
            k,
        )]);
        assert forall|j: int| 0 <= j < spec_index_of(s, k) implies (#[trigger] s[j]).0@ != k by {
            if j > 0 {
                assert(s[j] == ss[j - 1]);
            }
        }
        if spec_index_of(s, k) == -1 {
            assert forall|j: int| 0 <= j < s.len() implies (#[trigger] s[j]).0@ != k by {
                if j > 0 {
                    assert(s[j] == ss[j - 1]);
                }
            }
        }
    }
}

/// Replacing an entry with one of the same name moves no entry's position.
pub proof fn lemma_index_of_update(s: Seq<HeaderEntry>, i: int, e: HeaderEntry, k: Seq<u8>)
    requires
        0 <= i < s.len(),
        s[i].0@ == e.0@,
    ensures
        spec_index_of(s.update(i, e), k) == spec_index_of(s, k),
    decreases s.len(),
{
    let t = s.update(i, e);
    if i == 0 {
        if s[0].0@ == k {
        } else {
            assert(t.drop_first() =~= s.drop_first());
        }
    } else {
        assert(t[0] == s[0]);
        if s[0].0@ == k {
        } else {
            assert(t.drop_first() =~= s.drop_first().update(i - 1, e));
            lemma_index_of_update(s.drop_first(), i - 1, e, k);
        }
    }
}

/// Appending an entry leaves every present name where it was; a name that
/// was absent is found at the end exactly when the new entry carries it.
pub proof fn lemma_index_of_push(s: Seq<HeaderEntry>, e: HeaderEntry, k: Seq<u8>)
    ensures
        spec_index_of(s.push(e), k) == if spec_index_of(s, k) >= 0 {
            spec_index_of(s, k)
        } else if e.0@ == k {
            s.len() as int
        } else {
            -1
        },
    decreases s.len(),
{
    let t = s.push(e);
    if s.len() == 0 {
        assert(t[0] == e);
        if e.0@ == k {
            assert(spec_index_of(t, k) == 0);
        } else {
            assert(t.drop_first() =~= Seq::<HeaderEntry>::empty());
            assert(spec_index_of(Seq::<HeaderEntry>::empty(), k) == -1);
            assert(spec_index_of(t, k) == -1);
        }
    } else {
        assert(t[0] == s[0]);
        if s[0].0@ == k {
            assert(spec_index_of(t, k) == 0);
            assert(spec_index_of(s, k) == 0);
        } else {
            let ss = s.drop_first();
            assert(t.drop_first() =~= ss.push(e));
            lemma_index_of_push(ss, e, k);
            assert(spec_index_of(t.drop_first(), k) == spec_index_of(ss.push(e), k));
        }
    }
}

/// Whether every value in a list is acceptable in a header.
pub open spec fn values_all_valid(vs: Seq<HeaderValue>) -> bool {
    forall|i: int| 0 <= i < vs.len() ==> valid_value((#[trigger] vs[i])@)
}

/// The header multimap.
#[derive(Debug)]
pub struct Headers {
    entries: Vec<HeaderEntry>,
}

impl Headers {
    /// The entries, in insertion order of their names.
    pub closed spec fn entries_seq(self) -> Seq<HeaderEntry> {
        self.entries@
    }

    /// The values held under a name, by the name's normalized bytes.
    pub open spec fn spec_get(self, k: Seq<u8>) -> Option<Seq<HeaderValue>> {
        let i = spec_index_of(self.entries_seq(), k);
        if i >= 0 {
            Some(self.entries_seq()[i].1@)
        } else {
            None
        }
    }

    /// An empty collection.
    pub fn new() -> (r: Headers)
        ensures
            r.entries_seq() == Seq::<HeaderEntry>::empty(),
    {
        let r = Headers { entries: Vec::new() };
        proof {
            assert(r.entries_seq() =~= Seq::<HeaderEntry>::empty());
        }
        r
    }

    /// The position of the entry with the given name, if any.
    fn find_index(&self, name: &HeaderName) -> (r: Option<usize>)
        ensures
            match r {
                Some(i) => i < self.entries_seq().len() && spec_index_of(
                    self.entries_seq(),
                    name@,
                ) == i,
                None => spec_index_of(self.entries_seq(), name@) == -1,
            },
    {
        let ghost s = self.entries@;
        let n = self.entries.len();
        let mut i: usize = 0;
        while i < n
            invariant
                i <= n,
                n == s.len(),
                s == self.entries@,
                forall|j: int| 0 <= j < i ==> (#[trigger] s[j]).0@ != name@,
            decreases n - i,
        {
            if name_eq(&self.entries[i].0, name) {
                proof {
                    lemma_index_of_props(s, name@);
                }
                return Some(i);
            }
            i = i + 1;
        }
        proof {
            lemma_index_of_props(s, name@);
        }
        None
    }

    /// Look a name up; `None` when no entry has it.
    pub fn get(&self, name: &HeaderName) -> (r: Option<&Vec<HeaderValue>>)
        ensures
            match r {
                Some(v) => self.spec_get(name@) == Some(v@),
                None => self.spec_get(name@) is None,
            },
    {
        match self.find_index(name) {
            Some(i) => Some(&self.entries[i].1),
            None => None,
        }
    }

    /// Look a name up for mutation of its values; `None` when no entry has
    /// it.  The entry's name and position stay as they were.
    pub fn get_mut(&mut self, name: &HeaderName) -> (r: Option<&mut Vec<HeaderValue>>)
        ensures
            old(self).spec_get(name@) is None ==> r.is_none() && *final(self) == *old(self),
            old(self).spec_get(name@) is Some ==> r.is_some() && ({
                let i = spec_index_of(old(self).entries_seq(), name@);
                *r.unwrap() == old(self).entries_seq()[i].1 && final(self).entries_seq() == old(
                    self,
                ).entries_seq().update(i, (old(self).entries_seq()[i].0, *final(r.unwrap())))
            }),
    {
        match self.find_index(name) {
            Some(i) => {
                let slot = &mut self.entries[i];
                Some(&mut slot.1)
            },
            None => None,
        }
    }

    /// Insert values under a name, replacing and returning the values the
    /// name held before.  Fails, changing nothing, when some value is
    /// malformed.
    pub fn insert(&mut self, name: HeaderName, values: Vec<HeaderValue>) -> (r: Result<
        Option<Vec<HeaderValue>>,
        HeaderError,
    >)
        ensures
            match r {
                Ok(prev) => {
                    &&& values_all_valid(values@)
                    &&& match prev {
                        Some(pv) => old(self).spec_get(name@) == Some(pv@),
                        None => old(self).spec_get(name@) is None,
                    }
                    &&& final(self).spec_get(name@) == Some(values@)
                    &&& forall|k: Seq<u8>|
                        k != name@ ==> final(self).spec_get(k) == old(self).spec_get(k)
                    &&& final(self).entries_seq() == (if spec_index_of(
                        old(self).entries_seq(),
                        name@,
                    ) >= 0 {
                        old(self).entries_seq().update(
                            spec_index_of(old(self).entries_seq(), name@),
                            (name, values),
                        )
                    } else {
                        old(self).entries_seq().push((name, values))
                    })
                },
                Err(e) => {
                    &&& !values_all_valid(values@)
                    &&& e == HeaderError::InvalidValue
                    &&& *final(self) == *old(self)
                },
            },
    {
        let mut vi: usize = 0;
        while vi < values.len()
            invariant
                vi <= values.len(),
                forall|j: int| 0 <= j < vi ==> valid_value((#[trigger] values@[j])@),
            decreases values.len() - vi,
        {
            if !values[vi].is_valid() {
                return Err(HeaderError::InvalidValue);
            }
            vi = vi + 1;
        }
        let ghost olds = self.entries@;
        let ghost k = name@;
        match self.find_index(&name) {
            Some(i) => {
                proof {
                    lemma_index_of_props(olds, k);
                }
                let old_entry = self.entries.remove(i);
                self.entries.insert(i, (name, values));
                proof {
                    let news = self.entries@;
                    assert(news =~= olds.update(i as int, news[i as int]));
                    assert forall|k2: Seq<u8>| true implies spec_index_of(news, k2)
                        == spec_index_of(olds, k2) by {
                        lemma_index_of_update(olds, i as int, news[i as int], k2);
                    }
                    assert forall|k2: Seq<u8>| k2 != k && spec_index_of(olds, k2) >= 0 implies
                        news[spec_index_of(olds, k2)] == olds[spec_index_of(olds, k2)] by {
                        lemma_index_of_props(olds, k2);
                    }
                }
                Ok(Some(old_entry.1))
            },
            None => {
                proof {
                    lemma_index_of_props(olds, k);
                }
                self.entries.push((name, values));
                proof {
                    let news = self.entries@;
                    let e = news.last();
                    assert(news =~= olds.push(e));
                    assert forall|k2: Seq<u8>| true implies spec_index_of(news, k2) == (
                    if spec_index_of(olds, k2) >= 0 {
                        spec_index_of(olds, k2)
                    } else if e.0@ == k2 {
                        olds.len() as int
                    } else {
                        -1
                    }) by {
                        lemma_index_of_push(olds, e, k2);
                        assert(spec_index_of(news, k2) == spec_index_of(olds.push(e), k2));
                    }
                    assert forall|k2: Seq<u8>| spec_index_of(olds, k2) >= 0 implies news[
                        spec_index_of(olds, k2)
                    ] == olds[spec_index_of(olds, k2)] by {
                        lemma_index_of_props(olds, k2);
                    }
                }
                Ok(None)
            },
        }
    }

    /// Every entry, in order: a borrowed view for traversal.
    pub fn iter(&self) -> (r: &Vec<HeaderEntry>)
        ensures
            r@ == self.entries_seq(),
    {
        &self.entries
    }

    /// Mutable access to the values of the entry at a position; the entry's
    /// name stays as it was.
    pub fn iter_mut(&mut self, i: usize) -> (r: &mut Vec<HeaderValue>)
        requires
            i < old(self).entries_seq().len(),
        ensures
            *r == old(self).entries_seq()[i as int].1,
            final(self).entries_seq() == old(self).entries_seq().update(
                i as int,
                (old(self).entries_seq()[i as int].0, *final(r)),
            ),
    {
        let slot = &mut self.entries[i];
        &mut slot.1
    }

    /// Consume the collection, yielding its entries in order.
    pub fn into_entries(self) -> (r: Vec<HeaderEntry>)
        ensures
            r@ == self.entries_seq(),
    {
        self.entries
    }

    /// How many distinct names the collection holds.
    pub fn entry_count(&self) -> (r: usize)
        ensures
            r == self.entries_seq().len(),
    {
        self.entries.len()
    }
}

/// Whether two names have the same normalized bytes.
fn name_eq(a: &HeaderName, b: &HeaderName) -> (r: bool)
    ensures
        r == (a@ == b@),
{
    if a.bytes.len() != b.bytes.len() {
        return false;
    }
    let mut i: usize = 0;
    while i < a.bytes.len()
        invariant
            i <= a.bytes.len(),
            a.bytes.len() == b.bytes.len(),
            forall|j: int| 0 <= j < i ==> a@[j] == b@[j],
        decreases a.bytes.len() - i,
    {
        if a.bytes[i] != b.bytes[i] {
            return false;
        }
        i = i + 1;
    }
    proof {
        assert(a@ =~= b@);
    }
    true
}

} // verus!
