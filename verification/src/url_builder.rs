//! The query builder: a base address and an ordered set of parameters, put
//! together into a request address with the parameters percent-encoded.

use crate::text::{first_index, lemma_first_index, lemma_first_index_is, str_eq};
use vstd::prelude::*;
use vstd::utf8::encode_utf8;

verus! {

/// A parameter as the contracts see it: its name and its value.
pub type Pair = (Seq<char>, Seq<char>);

/// The names of the entries, in order.
pub open spec fn keys_of(entries: Seq<Pair>) -> Seq<Seq<char>> {
    entries.map_values(|p: Pair| p.0)
}

/// The position of the first entry named `key`, or the length of `entries`
/// where there is none.
pub open spec fn key_index(entries: Seq<Pair>, key: Seq<char>) -> int {
    first_index(keys_of(entries), key)
}

/// The value of the first entry named `key`, if there is one.
pub open spec fn lookup(entries: Seq<Pair>, key: Seq<char>) -> Option<Seq<char>> {
    let i = key_index(entries, key);
    if i < entries.len() {
        Some(entries[i].1)
    } else {
        None
    }
}

/// `entries` after `key` is set to `value`: an entry of that name gets the
/// new value and keeps its place, else the new entry goes to the end.
pub open spec fn with_entry(entries: Seq<Pair>, key: Seq<char>, value: Seq<char>) -> Seq<Pair> {
    let i = key_index(entries, key);
    if i < entries.len() {
        entries.update(i, (key, value))
    } else {
        entries.push((key, value))
    }
}

/// `entries` after each entry of `more` is set, in order.
pub open spec fn with_entries(entries: Seq<Pair>, more: Seq<Pair>) -> Seq<Pair>
    decreases more.len(),
{
    if more.len() == 0 {
        entries
    } else {
        with_entry(with_entries(entries, more.drop_last()), more.last().0, more.last().1)
    }
}

/// Whether no two entries have the same name.
pub open spec fn distinct_keys(entries: Seq<Pair>) -> bool {
    forall|i: int, j: int|
        0 <= i < j < entries.len() ==> (#[trigger] entries[i]).0 != (#[trigger] entries[j]).0
}

/// What a vector of owned entries stands for.
pub open spec fn pairs_view(entries: Seq<(String, String)>) -> Seq<Pair> {
    entries.map_values(|e: (String, String)| (e.0@, e.1@))
}

/// What a vector of borrowed entries stands for.
pub open spec fn args_view(args: Seq<(&str, &str)>) -> Seq<Pair> {
    args.map_values(|e: (&str, &str)| (e.0@, e.1@))
}

/// `key_index` is the first position that holds the key.
pub proof fn lemma_key_index(entries: Seq<Pair>, key: Seq<char>)
    ensures
        0 <= key_index(entries, key) <= entries.len(),
        key_index(entries, key) < entries.len() ==> entries[key_index(entries, key)].0 == key,
        forall|j: int| 0 <= j < key_index(entries, key) ==> (#[trigger] entries[j]).0 != key,
{
    let keys = keys_of(entries);
    lemma_first_index(keys, key);
    assert forall|j: int| 0 <= j < key_index(entries, key) implies (#[trigger] entries[j]).0
        != key by {
        assert(keys[j] == entries[j].0);
    }
}

/// A position before which the key does not occur, and at which it does or
/// where the entries end, is `key_index`.
pub proof fn lemma_key_index_is(entries: Seq<Pair>, key: Seq<char>, i: int)
    requires
        0 <= i <= entries.len(),
        forall|j: int| 0 <= j < i ==> (#[trigger] entries[j]).0 != key,
        i < entries.len() ==> entries[i].0 == key,
    ensures
        key_index(entries, key) == i,
{
    let keys = keys_of(entries);
    assert forall|j: int| 0 <= j < i implies #[trigger] keys[j] != key by {
        assert(keys[j] == entries[j].0);
    }
    lemma_first_index_is(keys, key, i);
}

/// Setting a key keeps the names distinct.
pub proof fn lemma_with_entry_distinct(entries: Seq<Pair>, key: Seq<char>, value: Seq<char>)
    requires
        distinct_keys(entries),
    ensures
        distinct_keys(with_entry(entries, key, value)),
{
    lemma_key_index(entries, key);
    let after = with_entry(entries, key, value);
    let k = key_index(entries, key);
    assert forall|i: int, j: int| 0 <= i < j < after.len() implies (#[trigger] after[i]).0 != (
    #[trigger] after[j]).0 by {
        if k < entries.len() {
            assert(after[i].0 == entries[i].0);
            assert(after[j].0 == entries[j].0);
        } else {
            if j < entries.len() {
                assert(after[i] == entries[i]);
                assert(after[j] == entries[j]);
            } else {
                assert(after[i] == entries[i]);
                assert(entries[i].0 != key);
            }
        }
    }
}

/// Last write wins: after a key is set, looking it up gives the value set,
/// and looking up any other key gives what it gave before.
pub proof fn lemma_with_entry_lookup(
    entries: Seq<Pair>,
    key: Seq<char>,
    value: Seq<char>,
    other: Seq<char>,
)
    ensures
        lookup(with_entry(entries, key, value), key) == Some(value),
        other != key ==> lookup(with_entry(entries, key, value), other) == lookup(entries, other),
{
    lemma_key_index(entries, key);
    lemma_key_index(entries, other);
    let after = with_entry(entries, key, value);
    let k = key_index(entries, key);
    let o = key_index(entries, other);
    assert forall|j: int| 0 <= j < k implies (#[trigger] after[j]).0 != key by {
        assert(after[j] == entries[j]);
    }
    lemma_key_index_is(after, key, k);
    if other != key {
        assert forall|j: int| 0 <= j < o implies (#[trigger] after[j]).0 != other by {
            if j < entries.len() {
                assert(after[j].0 == entries[j].0);
            }
        }
        if o < entries.len() {
            assert(after[o] == entries[o]);
            lemma_key_index_is(after, other, o);
        } else {
            assert forall|j: int| 0 <= j < after.len() implies (#[trigger] after[j]).0
                != other by {
                if j < entries.len() {
                    assert(after[j].0 == entries[j].0);
                }
            }
            lemma_key_index_is(after, other, after.len() as int);
        }
    }
}

/// An ordered set of named parameters. No name occurs twice; a name keeps
/// the place at which it was first set.
#[derive(Debug)]
pub struct QueryParams {
    entries: Vec<(String, String)>,
}

impl View for QueryParams {
    type V = Seq<Pair>;

    closed spec fn view(&self) -> Seq<Pair> {
        pairs_view(self.entries@)
    }
}

impl Clone for QueryParams {
    fn clone(&self) -> (r: QueryParams)
        ensures
            r@ == self@,
    {
        proof {
            use_type_invariant(self);
        }
        let mut entries: Vec<(String, String)> = Vec::new();
        let mut i: usize = 0;
        while i < self.entries.len()
            invariant
                i <= self.entries.len(),
                entries.len() == i,
                pairs_view(entries@) =~= pairs_view(self.entries@).take(i as int),
            decreases self.entries.len() - i,
        {
            let key = self.entries[i].0.clone();
            let value = self.entries[i].1.clone();
            entries.push((key, value));
            assert(pairs_view(entries@) =~= pairs_view(self.entries@).take(i + 1));
            i = i + 1;
        }
        assert(pairs_view(entries@) =~= pairs_view(self.entries@));
        QueryParams { entries }
    }
}

impl QueryParams {
    /// What holds of every parameter set: no name occurs twice.
    #[verifier::type_invariant]
    pub open spec fn well_formed(&self) -> bool {
        distinct_keys(self@)
    }

    /// The empty parameter set.
    pub fn new() -> (r: QueryParams)
        ensures
            r@ == Seq::<Pair>::empty(),
    {
        let entries: Vec<(String, String)> = Vec::new();
        assert(pairs_view(entries@) =~= Seq::<Pair>::empty());
        QueryParams { entries }
    }

    /// The number of parameters.
    pub fn len(&self) -> (n: usize)
        ensures
            n == self@.len(),
    {
        self.entries.len()
    }

    /// The name and value at position `index`.
    pub fn entry(&self, index: usize) -> (e: (&str, &str))
        requires
            index < self@.len(),
        ensures
            (e.0@, e.1@) == self@[index as int],
    {
        (self.entries[index].0.as_str(), self.entries[index].1.as_str())
    }

    /// The position of `key`, or the number of parameters if it is not set.
    fn position(&self, key: &str) -> (i: usize)
        ensures
            i == key_index(self@, key@),
    {
        let mut i: usize = 0;
        while i < self.entries.len()
            invariant
                i <= self.entries.len(),
                forall|j: int| 0 <= j < i ==> (#[trigger] pairs_view(self.entries@)[j]).0 != key@,
            decreases self.entries.len() - i,
        {
            if str_eq(self.entries[i].0.as_str(), key) {
                proof {
                    lemma_key_index_is(self@, key@, i as int);
                }
                return i;
            }
            i = i + 1;
        }
        proof {
            lemma_key_index_is(self@, key@, i as int);
        }
        i
    }

    /// The value of `key`, if it is set.
    pub fn get(&self, key: &str) -> (v: Option<&str>)
        ensures
            v.is_some() == lookup(self@, key@).is_some(),
            v.is_some() ==> v.unwrap()@ == lookup(self@, key@).unwrap(),
    {
        let i = self.position(key);
        if i < self.entries.len() {
            Some(self.entries[i].1.as_str())
        } else {
            None
        }
    }

    /// Sets `key` to `value`. A later value replaces an earlier one.
    pub fn insert(&mut self, key: &str, value: &str)
        ensures
            final(self)@ == with_entry(old(self)@, key@, value@),
    {
        proof {
            use_type_invariant(&*self);
            lemma_with_entry_distinct(self@, key@, value@);
        }
        let i = self.position(key);
        // The entries are taken out, changed and put back: the set is
        // well-formed at every step.
        let mut entries: Vec<(String, String)> = Vec::new();
        assert(pairs_view(entries@) =~= Seq::<Pair>::empty());
        core::mem::swap(&mut self.entries, &mut entries);
        if i < entries.len() {
            entries.set(i, (key.to_owned(), value.to_owned()));
        } else {
            entries.push((key.to_owned(), value.to_owned()));
        }
        assert(pairs_view(entries@) =~= with_entry(old(self)@, key@, value@));
        self.entries = entries;
    }

    /// Sets every parameter of `other`, in its order.
    pub fn extend(&mut self, other: &QueryParams)
        ensures
            final(self)@ == with_entries(old(self)@, other@),
    {
        let mut i: usize = 0;
        while i < other.entries.len()
            invariant
                i <= other.entries.len(),
                self@ == with_entries(old(self)@, other@.take(i as int)),
            decreases other.entries.len() - i,
        {
            let e = other.entry(i);
            self.insert(e.0, e.1);
            proof {
                assert(other@.take(i + 1).drop_last() =~= other@.take(i as int));
            }
            i = i + 1;
        }
        assert(other@.take(i as int) =~= other@);
    }
}

/// Whether the byte may stand in an address as it is: an ASCII letter or
/// digit, or one of `-`, `.`, `_` and `~`.
pub open spec fn is_unreserved(b: u8) -> bool {
    ||| 0x41 <= b <= 0x5a
    ||| 0x61 <= b <= 0x7a
    ||| 0x30 <= b <= 0x39
    ||| b == 0x2d
    ||| b == 0x2e
    ||| b == 0x5f
    ||| b == 0x7e
}

/// The upper-case hexadecimal digit for `n`, for `n` below sixteen.
pub open spec fn hex_char(n: nat) -> char {
    if n < 10 {
        ((48 + n) as u8) as char
    } else {
        ((55 + n) as u8) as char
    }
}

/// One byte as it stands in an address: itself, or a percent sign and its
/// two hexadecimal digits.
pub open spec fn encoded_byte(b: u8) -> Seq<char> {
    if is_unreserved(b) {
        seq![b as char]
    } else {
        seq!['%', hex_char((b / 16) as nat), hex_char((b % 16) as nat)]
    }
}

/// The bytes, each as it stands in an address.
pub open spec fn percent_encoded(bytes: Seq<u8>) -> Seq<char>
    decreases bytes.len(),
{
    if bytes.len() == 0 {
        Seq::empty()
    } else {
        percent_encoded(bytes.drop_last()) + encoded_byte(bytes.last())
    }
}

/// A text as it stands in an address: the bytes of its UTF-8 form,
/// percent-encoded.
pub open spec fn url_encoded(text: Seq<char>) -> Seq<char> {
    percent_encoded(encode_utf8(text))
}

/// One parameter as it stands in an address: name, `=`, value.
pub open spec fn encoded_pair(pair: Pair) -> Seq<char> {
    url_encoded(pair.0) + seq!['='] + url_encoded(pair.1)
}

/// The parameters as they stand in an address, joined by `&`.
pub open spec fn query_string(entries: Seq<Pair>) -> Seq<char>
    decreases entries.len(),
{
    if entries.len() == 0 {
        Seq::empty()
    } else if entries.len() == 1 {
        encoded_pair(entries[0])
    } else {
        query_string(entries.drop_last()) + seq!['&'] + encoded_pair(entries.last())
    }
}

/// The address for a base and its parameters: the base alone where there are
/// none, else the base, `?` and the query string.
pub open spec fn built(base: Seq<char>, entries: Seq<Pair>) -> Seq<char> {
    if entries.len() == 0 {
        base
    } else {
        base + seq!['?'] + query_string(entries)
    }
}

/// Whether the character may stand in an encoded text: an ASCII letter or
/// digit, one of `-`, `.`, `_` and `~`, or the percent sign.
pub open spec fn is_encoded_char(c: char) -> bool {
    ||| 'A' <= c <= 'Z'
    ||| 'a' <= c <= 'z'
    ||| '0' <= c <= '9'
    ||| c == '-'
    ||| c == '.'
    ||| c == '_'
    ||| c == '~'
    ||| c == '%'
}

/// Percent-encoded bytes hold no character that has a meaning of its own in
/// an address.
pub proof fn lemma_percent_encoded(bytes: Seq<u8>)
    ensures
        forall|i: int|
            0 <= i < percent_encoded(bytes).len() ==> is_encoded_char(
                #[trigger] percent_encoded(bytes)[i],
            ),
    decreases bytes.len(),
{
    if bytes.len() > 0 {
        let before = percent_encoded(bytes.drop_last());
        let last = encoded_byte(bytes.last());
        lemma_percent_encoded(bytes.drop_last());
        assert forall|i: int| 0 <= i < last.len() implies is_encoded_char(#[trigger] last[i]) by {
            let b = bytes.last();
            if !is_unreserved(b) {
                assert((b / 16) < 16 && (b % 16) < 16);
            }
        }
        assert forall|i: int| 0 <= i < percent_encoded(bytes).len() implies is_encoded_char(
            #[trigger] percent_encoded(bytes)[i],
        ) by {
            if i < before.len() {
                assert(percent_encoded(bytes)[i] == before[i]);
            } else {
                assert(percent_encoded(bytes)[i] == last[i - before.len()]);
            }
        }
    }
}

/// An encoded text holds no `&`, `=` or `?`: in a query string these stand
/// between the parameters, and between a name and its value, only.
pub proof fn lemma_url_encoded(text: Seq<char>)
    ensures
        forall|i: int|
            0 <= i < url_encoded(text).len() ==> {
                &&& is_encoded_char(#[trigger] url_encoded(text)[i])
                &&& url_encoded(text)[i] != '&'
                &&& url_encoded(text)[i] != '='
                &&& url_encoded(text)[i] != '?'
            },
{
    lemma_percent_encoded(encode_utf8(text));
}

fn hex_digit(n: u8) -> (c: char)
    requires
        n < 16,
    ensures
        c == hex_char(n as nat),
{
    if n < 10 {
        (48 + n) as char
    } else {
        (55 + n) as char
    }
}

fn unreserved(b: u8) -> (r: bool)
    ensures
        r == is_unreserved(b),
{
    (0x41 <= b && b <= 0x5a) || (0x61 <= b && b <= 0x7a) || (0x30 <= b && b <= 0x39) || b == 0x2d
        || b == 0x2e || b == 0x5f || b == 0x7e
}

/// Appends `text` to `out` as it stands in an address.
pub fn push_url_encoded(out: &mut String, text: &str)
    ensures
        final(out)@ == old(out)@ + url_encoded(text@),
{
    let bytes = text.as_bytes();
    let mut i: usize = 0;
    assert(bytes@.take(0) =~= Seq::<u8>::empty());
    assert(out@ =~= old(out)@ + percent_encoded(bytes@.take(0)));
    while i < bytes.len()
        invariant
            i <= bytes.len(),
            out@ == old(out)@ + percent_encoded(bytes@.take(i as int)),
        decreases bytes.len() - i,
    {
        let b = bytes[i];
        let ghost before = out@;
        if unreserved(b) {
            out.push(b as char);
        } else {
            out.push('%');
            out.push(hex_digit(b / 16));
            out.push(hex_digit(b % 16));
        }
        proof {
            assert(out@ =~= before + encoded_byte(b));
            assert(bytes@.take(i + 1).drop_last() =~= bytes@.take(i as int));
            assert(out@ =~= old(out)@ + percent_encoded(bytes@.take(i + 1)));
        }
        i = i + 1;
    }
    assert(bytes@.take(i as int) =~= bytes@);
}

/// A request address in the making: a base and the parameters set so far.
#[derive(Debug)]
pub struct Url {
    base: String,
    query_params: QueryParams,
}

impl Clone for Url {
    fn clone(&self) -> (r: Url)
        ensures
            r.base() == self.base(),
            r.params() == self.params(),
            distinct_keys(r.params()),
    {
        let r = Url { base: self.base.clone(), query_params: self.query_params.clone() };
        proof {
            use_type_invariant(&r.query_params);
        }
        r
    }
}

impl Url {
    /// The base address.
    pub closed spec fn base(&self) -> Seq<char> {
        self.base@
    }

    /// The parameters, in the order in which their names were first set. No
    /// name occurs twice among them.
    pub closed spec fn params(&self) -> Seq<Pair> {
        self.query_params@
    }

    /// An address with the given base and no parameters.
    pub fn new(base: &str) -> (url: Url)
        ensures
            url.base() == base@,
            url.params() == Seq::<Pair>::empty(),
            distinct_keys(url.params()),
    {
        Url { base: base.to_owned(), query_params: QueryParams::new() }
    }

    /// Sets each of `args`, in order. A later value for a name replaces an
    /// earlier one.
    pub fn add_args(self, args: Vec<(&str, &str)>) -> (url: Url)
        ensures
            url.base() == self.base(),
            url.params() == with_entries(self.params(), args_view(args@)),
            distinct_keys(url.params()),
    {
        let mut url = self;
        let mut i: usize = 0;
        assert(args_view(args@).take(0) =~= Seq::<Pair>::empty());
        while i < args.len()
            invariant
                i <= args.len(),
                url.base() == self.base(),
                url.params() == with_entries(self.params(), args_view(args@).take(i as int)),
            decreases args.len() - i,
        {
            let key = args[i].0;
            let value = args[i].1;
            url.query_params.insert(key, value);
            proof {
                assert(args_view(args@).take(i + 1).drop_last() =~= args_view(args@).take(
                    i as int,
                ));
            }
            i = i + 1;
        }
        assert(args_view(args@).take(i as int) =~= args_view(args@));
        proof {
            use_type_invariant(&url.query_params);
        }
        url
    }

    /// Sets each parameter of `params`, in its order.
    pub fn add_params(self, params: &QueryParams) -> (url: Url)
        ensures
            url.base() == self.base(),
            url.params() == with_entries(self.params(), params@),
            distinct_keys(url.params()),
    {
        let mut url = self;
        url.query_params.extend(params);
        proof {
            use_type_invariant(&url.query_params);
        }
        url
    }

    /// The request address: the base, and after a `?` the parameters as
    /// `name=value`, percent-encoded and joined by `&`.
    pub fn build(&self) -> (address: String)
        ensures
            address@ == built(self.base(), self.params()),
    {
        let mut address = self.base.clone();
        let n = self.query_params.len();
        let mut i: usize = 0;
        while i < n
            invariant
                i <= n,
                n == self.params().len(),
                address@ == built(self.base(), self.params().take(i as int)),
            decreases n - i,
        {
            let e = self.query_params.entry(i);
            if i == 0 {
                address.push('?');
            } else {
                address.push('&');
            }
            push_url_encoded(&mut address, e.0);
            address.push('=');
            push_url_encoded(&mut address, e.1);
            proof {
                let entries = self.params();
                assert(entries.take(i + 1).drop_last() =~= entries.take(i as int));
                assert(entries.take(i + 1).last() == entries[i as int]);
                assert(address@ =~= built(self.base(), entries.take(i + 1)));
            }
            i = i + 1;
        }
        assert(self.params().take(i as int) =~= self.params());
        address
    }
}

} // verus!
