//! The ordered list of entries, its chunks, and its TOML text.
use vstd::prelude::*;

verus! {

/// `toml::ser::Error`, carried as it is.
#[verifier::external_type_specification]
#[verifier::external_body]
pub struct ExTomlSerError(toml::ser::Error);

/// `toml::de::Error`, carried as it is.
#[verifier::external_type_specification]
#[verifier::external_body]
pub struct ExTomlDeError(toml::de::Error);

/// The TOML text of a table built from `entries` in order (a later
/// entry with an earlier entry's key replaces its value), or `None` where
/// the encoder refuses it.
pub uninterp spec fn toml_text_of(entries: Seq<(Seq<char>, Seq<char>)>) -> Option<Seq<char>>;

/// The top-level table of a TOML document, in document order, each value
/// kept where it is a string; `None` where the text is not TOML.
pub uninterp spec fn toml_table_of(text: Seq<char>) -> Option<Seq<(Seq<char>, Option<Seq<char>>)>>;

/// Relies on `toml::to_string` over the `toml::Table` collected from
/// `entries`, each value a string: its text depends on the entries alone.
#[verifier::external_body]
fn toml_text(entries: &Vec<(String, String)>) -> (r: Result<String, toml::ser::Error>)
    ensures
        r is Ok <==> toml_text_of(entries_view(entries@)) is Some,
        r is Ok ==> toml_text_of(entries_view(entries@)) == Some(r->Ok_0@),
{
    let table: toml::Table = entries.iter().map(
        |(k, v)| (k.clone(), toml::Value::String(v.clone())),
    ).collect();
    toml::to_string(&table)
}

/// Relies on `toml::from_str` into a `toml::Table`, which keeps document
/// order (feature `preserve_order`): its entries, each string value
/// moved out and any other value marked `None`.
#[verifier::external_body]
fn toml_table(text: &str) -> (r: Result<Vec<(String, Option<String>)>, toml::de::Error>)
    ensures
        r is Ok <==> toml_table_of(text@) is Some,
        r is Ok ==> toml_table_of(text@) == Some(table_view(r->Ok_0@)),
{
    toml::from_str::<toml::Table>(text).map(
        |t|
            t.into_iter().map(
                |(k, v)|
                    match v {
                        toml::Value::String(s) => (k, Some(s)),
                        _ => (k, None),
                    },
            ).collect(),
    )
}

/// An entry as text: its label and its secret.
pub open spec fn entry_view(e: (String, String)) -> (Seq<char>, Seq<char>) {
    (e.0@, e.1@)
}

pub open spec fn entries_view(s: Seq<(String, String)>) -> Seq<(Seq<char>, Seq<char>)> {
    s.map_values(|e: (String, String)| entry_view(e))
}

pub open spec fn table_view(s: Seq<(String, Option<String>)>) -> Seq<(Seq<char>, Option<Seq<char>>)> {
    s.map_values(
        |e: (String, Option<String>)|
            (
                e.0@,
                match e.1 {
                    Some(v) => Some(v@),
                    None => None,
                },
            ),
    )
}

/// Every value of the table is a string.
pub open spec fn all_text(t: Seq<(Seq<char>, Option<Seq<char>>)>) -> bool {
    forall|k: int| 0 <= k < t.len() ==> (#[trigger] t[k]).1 is Some
}

/// The entries of a table whose values are all strings.
pub open spec fn table_entries(t: Seq<(Seq<char>, Option<Seq<char>>)>) -> Seq<(Seq<char>, Seq<char>)> {
    t.map_values(|e: (Seq<char>, Option<Seq<char>>)| (e.0, e.1->Some_0))
}

/// `t[i]` is the first entry of the table whose value is not a string.
pub open spec fn first_non_text(t: Seq<(Seq<char>, Option<Seq<char>>)>, i: int) -> bool {
    &&& 0 <= i < t.len()
    &&& t[i].1 is None
    &&& forall|j: int| 0 <= j < i ==> (#[trigger] t[j]).1 is Some
}

/// Cutting `s` in order into chunks of `n` entries, the last one holding
/// what remains.
pub open spec fn chunked<A>(s: Seq<A>, n: nat) -> Seq<Seq<A>>
    decreases s.len(),
{
    if s.len() == 0 || n == 0 {
        Seq::empty()
    } else if s.len() <= n {
        seq![s]
    } else {
        seq![s.take(n as int)] + chunked(s.skip(n as int), n)
    }
}

/// Why a list of entries has no TOML text.
pub enum RecapError {
    /// The encoder refused an entry.
    Encode(toml::ser::Error),
}

/// Why a text gives no list of entries.
pub enum InputError {
    /// The text is not TOML.
    Parse(toml::de::Error),
    /// The value under this key is not a string.
    NotText(String),
}

/// An ordered list of label/secret entries. Order is kept; labels need
/// not be unique.
#[derive(Debug, PartialEq, Eq)]
pub struct Ordermap(Vec<(String, String)>);

impl View for Ordermap {
    type V = Seq<(Seq<char>, Seq<char>)>;

    closed spec fn view(&self) -> Seq<(Seq<char>, Seq<char>)> {
        entries_view(self.0@)
    }
}

pub open spec fn maps_view(s: Seq<Ordermap>) -> Seq<Seq<(Seq<char>, Seq<char>)>> {
    s.map_values(|m: Ordermap| m@)
}

impl Ordermap {
    pub fn new(data: Vec<(String, String)>) -> (r: Self)
        ensures
            r@ == entries_view(data@),
    {
        Ordermap(data)
    }

    /// The entries, in order.
    pub fn iter(&self) -> (r: &[(String, String)])
        ensures
            entries_view(r@) == self@,
    {
        self.0.as_slice()
    }

    pub fn len(&self) -> (r: usize)
        ensures
            r == self@.len(),
    {
        self.0.len()
    }

    /// The entries cut in order into chunks of `chunk_size`, the last one
    /// holding the rest; no chunk is empty.
    pub fn chunks(&self, chunk_size: usize) -> (r: Vec<Ordermap>)
        requires
            chunk_size > 0,
        ensures
            maps_view(r@) == chunked(self@, chunk_size as nat),
    {
        let n = self.0.len();
        let mut r: Vec<Ordermap> = Vec::new();
        let mut i: usize = 0;
        proof {
            assert(self@.skip(0) =~= self@);
            assert(maps_view(r@) =~= Seq::empty());
            assert(maps_view(r@) + chunked(self@, chunk_size as nat) =~= chunked(self@, chunk_size as nat));
        }
        while i < n
            invariant
                n == self.0@.len(),
                i <= n,
                chunk_size > 0,
                maps_view(r@) + chunked(self@.skip(i as int), chunk_size as nat) == chunked(
                    self@,
                    chunk_size as nat,
                ),
            decreases n - i,
        {
            let end: usize = if n - i <= chunk_size {
                n
            } else {
                i + chunk_size
            };
            let mut part: Vec<(String, String)> = Vec::new();
            let mut k: usize = i;
            while k < end
                invariant
                    n == self.0@.len(),
                    i <= k <= end <= n,
                    entries_view(part@) == self@.subrange(i as int, k as int),
                decreases end - k,
            {
                let e = &self.0[k];
                let ghost before = part@;
                part.push((e.0.clone(), e.1.clone()));
                assert(part@ == before.push(self.0@[k as int]));
                assert(entries_view(part@) =~= entries_view(before).push(self@[k as int]));
                assert(entries_view(part@) =~= self@.subrange(i as int, k + 1));
                k = k + 1;
            }
            let ghost rest = self@.skip(i as int);
            proof {
                if end == n {
                    assert(rest =~= self@.subrange(i as int, k as int));
                    assert(self@.skip(end as int).len() == 0);
                } else {
                    assert(rest.take(chunk_size as int) =~= self@.subrange(i as int, k as int));
                    assert(rest.skip(chunk_size as int) =~= self@.skip(end as int));
                }
            }
            let ghost before = maps_view(r@);
            r.push(Ordermap(part));
            proof {
                assert(maps_view(r@) =~= before.push(entries_view(part@)));
                if end == n {
                    assert(chunked(self@.skip(end as int), chunk_size as nat) =~= Seq::empty());
                }
                assert(maps_view(r@) + chunked(self@.skip(end as int), chunk_size as nat) =~= before
                    + chunked(rest, chunk_size as nat));
            }
            i = end;
        }
        proof {
            assert(chunked(self@.skip(i as int), chunk_size as nat) =~= Seq::empty());
            assert(maps_view(r@) =~= maps_view(r@) + Seq::<Seq<(Seq<char>, Seq<char>)>>::empty());
        }
        r
    }

    /// The entries as TOML text, one `key = value` line each, in order.
    pub fn to_toml(&self) -> (r: Result<String, RecapError>)
        ensures
            r is Ok <==> toml_text_of(self@) is Some,
            r is Ok ==> toml_text_of(self@) == Some(r->Ok_0@),
    {
        match toml_text(&self.0) {
            Ok(text) => Ok(text),
            Err(e) => Err(RecapError::Encode(e)),
        }
    }

    /// The entries of a parsed TOML table, in order; the first key whose
    /// value is not a string is an error.
    pub fn from_table(table: Vec<(String, Option<String>)>) -> (r: Result<Ordermap, InputError>)
        ensures
            all_text(table_view(table@)) <==> r is Ok,
            r is Ok ==> r->Ok_0@ == table_entries(table_view(table@)),
            r is Err ==> r->Err_0 is NotText,
            r matches Err(InputError::NotText(k)) ==> exists|i: int|
                first_non_text(table_view(table@), i) && k@ == #[trigger] table_view(table@)[i].0,
    {
        let mut out: Vec<(String, String)> = Vec::new();
        let mut i: usize = 0;
        let ghost t = table_view(table@);
        while i < table.len()
            invariant
                i <= table@.len(),
                t == table_view(table@),
                forall|k: int| 0 <= k < i ==> (#[trigger] t[k]).1 is Some,
                entries_view(out@) == table_entries(t.take(i as int)),
            decreases table@.len() - i,
        {
            let e = &table[i];
            match &e.1 {
                Some(v) => {
                    let ghost before = out@;
                    out.push((e.0.clone(), v.clone()));
                    assert(entries_view(before).len() == before.len());
                    assert(before.len() == i);
                    assert(table@[i as int].1 == Some(*v));
                    assert(t[i as int].1 == Some(v@));
                    assert(out@[i as int].1@ == t[i as int].1->Some_0);
                    assert(entries_view(out@) =~= entries_view(before).push(table_entries(t)[i as int]));
                    assert(entries_view(out@) =~= table_entries(t.take(i + 1)));
                },
                None => {
                    assert(!(t[i as int].1 is Some));
                    assert(first_non_text(t, i as int));
                    let key = e.0.clone();
                    assert(table_view(table@)[i as int].0 == key@);
                    return Err(InputError::NotText(key));
                },
            }
            i = i + 1;
        }
        assert(t.take(i as int) =~= t);
        Ok(Ordermap(out))
    }

    /// The entries of a TOML document, in document order.
    pub fn from_toml(text: &str) -> (r: Result<Ordermap, InputError>)
        ensures
            toml_table_of(text@) is None <==> r matches Err(InputError::Parse(_)),
            toml_table_of(text@) matches Some(t) && all_text(t) <==> r is Ok,
            r is Ok ==> r->Ok_0@ == table_entries(toml_table_of(text@)->Some_0),
            r matches Err(InputError::NotText(k)) ==> toml_table_of(text@) is Some && exists|i: int|
                first_non_text(toml_table_of(text@)->Some_0, i) && k@
                    == #[trigger] toml_table_of(text@)->Some_0[i].0,
    {
        match toml_table(text) {
            Ok(table) => Ordermap::from_table(table),
            Err(e) => Err(InputError::Parse(e)),
        }
    }
}

} // verus!
