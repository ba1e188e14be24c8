//! The response head handed to the web view, built from an HTTP response.

use crate::http_syntax::{header_value_to_str, visible_text};
use crate::message::{lemma_content_length_counts_bytes, version_text, ContentLength, HttpResponse};
use crate::text::{decimal, decimal_string, digits_value, is_digit, lemma_decimal_reads_back};
use vstd::prelude::*;

verus! {

/// The names of a list of header entries, in order.
pub open spec fn entry_names(s: Seq<(String, String)>) -> Seq<Seq<char>> {
    s.map_values(|e: (String, String)| e.0@)
}

/// Where `name` stands in a list of header entries.
pub open spec fn entry_position(s: Seq<(String, String)>, name: Seq<char>) -> int {
    choose|i: int| 0 <= i < s.len() && s[i].0@ == name
}

/// The dictionary a list of header entries with distinct names stands for.
pub open spec fn entry_map(s: Seq<(String, String)>) -> Map<Seq<char>, Seq<char>> {
    Map::new(
        |k: Seq<char>| entry_names(s).contains(k),
        |k: Seq<char>| s[entry_position(s, k)].1@,
    )
}

/// In a list of entries with distinct names, a name present stands at exactly
/// one place.
proof fn lemma_entry_position(s: Seq<(String, String)>, k: Seq<char>)
    requires
        entry_names(s).no_duplicates(),
        entry_names(s).contains(k),
    ensures
        0 <= entry_position(s, k) < s.len(),
        s[entry_position(s, k)].0@ == k,
        forall|j: int| 0 <= j < s.len() && #[trigger] s[j].0@ == k ==> j == entry_position(s, k),
{
    let w = choose|j: int| 0 <= j < entry_names(s).len() && entry_names(s)[j] == k;
    assert(s[w].0@ == k);
    let p = entry_position(s, k);
    assert forall|j: int| 0 <= j < s.len() && #[trigger] s[j].0@ == k implies j == p by {
        assert(entry_names(s)[j] == k);
        assert(entry_names(s)[p] == k);
    }
}

/// Setting `name` to `value` where an entry under `name` stands at `i`:
/// that entry is replaced.
proof fn lemma_entry_replace(s: Seq<(String, String)>, i: int, name: String, value: String)
    requires
        entry_names(s).no_duplicates(),
        0 <= i < s.len(),
        s[i].0@ == name@,
    ensures
        entry_names(s.update(i, (name, value))).no_duplicates(),
        entry_map(s.update(i, (name, value))) == entry_map(s).insert(name@, value@),
{
    let t = s.update(i, (name, value));
    assert(entry_names(t) =~= entry_names(s));
    assert(entry_names(s)[i] == name@);
    assert forall|k: Seq<char>| #![auto] entry_map(t).contains_key(k) == entry_map(s).insert(name@, value@).contains_key(k)
        && (entry_map(t).contains_key(k) ==> entry_map(t)[k] == entry_map(s).insert(name@, value@)[k]) by {
        if entry_names(t).contains(k) {
            lemma_entry_position(t, k);
            lemma_entry_position(s, k);
            let p = entry_position(t, k);
            let q = entry_position(s, k);
            assert(t[q].0@ == k);
            assert(p == q);
            if k == name@ {
                assert(t[i].0@ == k);
                assert(p == i);
            }
        }
    }
    assert(entry_map(t) =~= entry_map(s).insert(name@, value@));
}

/// Setting `name` to `value` where no entry is under `name`: an entry is appended.
proof fn lemma_entry_append(s: Seq<(String, String)>, name: String, value: String)
    requires
        entry_names(s).no_duplicates(),
        !entry_names(s).contains(name@),
    ensures
        entry_names(s.push((name, value))).no_duplicates(),
        entry_map(s.push((name, value))) == entry_map(s).insert(name@, value@),
{
    let t = s.push((name, value));
    assert(entry_names(t) =~= entry_names(s).push(name@));
    assert(entry_names(t).no_duplicates()) by {
        assert forall|a: int, b: int| 0 <= a < entry_names(t).len() && 0 <= b < entry_names(t).len() && a != b
            implies entry_names(t)[a] != entry_names(t)[b] by {
            if a < s.len() && b < s.len() {
            } else if a == s.len() {
                assert(entry_names(s)[b] == entry_names(t)[b]);
            } else {
                assert(entry_names(s)[a] == entry_names(t)[a]);
            }
        }
    }
    assert forall|k: Seq<char>| #![auto] entry_map(t).contains_key(k) == entry_map(s).insert(name@, value@).contains_key(k)
        && (entry_map(t).contains_key(k) ==> entry_map(t)[k] == entry_map(s).insert(name@, value@)[k]) by {
        assert(entry_names(t)[s.len() as int] == name@);
        if entry_names(t).contains(k) {
            lemma_entry_position(t, k);
            let p = entry_position(t, k);
            if k == name@ {
                assert(t[s.len() as int].0@ == k);
                assert(p == s.len());
            } else {
                let w = choose|j: int| 0 <= j < entry_names(t).len() && entry_names(t)[j] == k;
                assert(entry_names(s)[w] == k);
                lemma_entry_position(s, k);
                let q = entry_position(s, k);
                assert(t[q].0@ == k);
                assert(p == q);
            }
        } else if entry_names(s).contains(k) {
            let w = choose|j: int| 0 <= j < entry_names(s).len() && entry_names(s)[j] == k;
            assert(entry_names(t)[w] == k);
        }
    }
    assert forall|k: Seq<char>| entry_names(t).contains(k) <==> (entry_names(s).contains(k) || k == name@) by {
        if entry_names(t).contains(k) {
            let w = choose|j: int| 0 <= j < entry_names(t).len() && entry_names(t)[j] == k;
            if w < s.len() {
                assert(entry_names(s)[w] == k);
            }
        }
        if entry_names(s).contains(k) {
            let w = choose|j: int| 0 <= j < entry_names(s).len() && entry_names(s)[j] == k;
            assert(entry_names(t)[w] == k);
        }
        if k == name@ {
            assert(entry_names(t)[s.len() as int] == k);
        }
    }
    assert(entry_map(t).dom() =~= entry_map(s).insert(name@, value@).dom());
    assert(entry_map(t) =~= entry_map(s).insert(name@, value@));
}

/// Where an entry named `name` stands in a list of entries, if anywhere.
fn find_entry(entries: &Vec<(String, String)>, name: &String) -> (r: Option<usize>)
    ensures
        match r {
            Some(i) => i < entries@.len() && entries@[i as int].0@ == name@,
            None => !entry_names(entries@).contains(name@),
        },
{
    let mut i: usize = 0;
    while i < entries.len()
        invariant
            0 <= i <= entries@.len(),
            forall|j: int| 0 <= j < i ==> entries@[j].0@ != name@,
        decreases entries.len() - i,
    {
        if entries[i].0 == *name {
            return Some(i);
        }
        i = i + 1;
    }
    assert forall|j: int| 0 <= j < entry_names(entries@).len() implies entry_names(entries@)[j] != name@ by {
        assert(entries@[j].0@ != name@);
    }
    None
}

/// A header dictionary as the platform keeps it: each name at most once,
/// a later insertion under a name replacing the earlier value.
pub struct HeaderFields {
    entries: Vec<(String, String)>,
}

impl HeaderFields {
    #[verifier::type_invariant]
    closed spec fn names_unique(self) -> bool {
        entry_names(self.entries@).no_duplicates()
    }
}

impl View for HeaderFields {
    type V = Map<Seq<char>, Seq<char>>;

    closed spec fn view(&self) -> Map<Seq<char>, Seq<char>> {
        entry_map(self.entries@)
    }
}

impl HeaderFields {
    /// An empty dictionary.
    pub fn new() -> (f: Self)
        ensures
            f@ == Map::<Seq<char>, Seq<char>>::empty(),
    {
        let f = HeaderFields { entries: Vec::new() };
        assert(f@ =~= Map::<Seq<char>, Seq<char>>::empty());
        f
    }

    /// Sets `name` to `value`, replacing any earlier value under that name.
    pub fn insert(&mut self, name: String, value: String)
        ensures
            final(self)@ == old(self)@.insert(name@, value@),
    {
        proof { use_type_invariant(&*self); }
        let mut entries: Vec<(String, String)> = Vec::new();
        std::mem::swap(&mut entries, &mut self.entries);
        let ghost old_entries = entries@;
        match find_entry(&entries, &name) {
            Some(i) => {
                proof { lemma_entry_replace(old_entries, i as int, name, value); }
                entries.set(i, (name, value));
            },
            None => {
                proof { lemma_entry_append(old_entries, name, value); }
                entries.push((name, value));
            },
        }
        self.entries = entries;
    }

    /// The value under `name`, if there is one.
    pub fn get(&self, name: &str) -> (v: Option<&String>)
        ensures
            match v {
                Some(v) => self@.contains_key(name@) && self@[name@] == v@,
                None => !self@.contains_key(name@),
            },
    {
        proof { use_type_invariant(self); }
        let key = name.to_string();
        let mut i: usize = 0;
        while i < self.entries.len()
            invariant
                0 <= i <= self.entries@.len(),
                key@ == name@,
                entry_names(self.entries@).no_duplicates(),
                forall|j: int| 0 <= j < i ==> self.entries@[j].0@ != name@,
            decreases self.entries.len() - i,
        {
            if self.entries[i].0 == key {
                proof {
                    let s = self.entries@;
                    assert(entry_names(s)[i as int] == name@);
                    lemma_entry_position(s, name@);
                }
                return Some(&self.entries[i].1);
            }
            i = i + 1;
        }
        assert forall|j: int| 0 <= j < entry_names(self.entries@).len() implies entry_names(self.entries@)[j] != name@ by {
            assert(self.entries@[j].0@ != name@);
        }
        None
    }

    /// The entries, each name once.
    pub fn entries(&self) -> (e: &Vec<(String, String)>)
        ensures
            entry_names(e@).no_duplicates(),
            entry_map(e@) == self@,
    {
        proof { use_type_invariant(self); }
        &self.entries
    }

    /// The number of names in the dictionary.
    pub fn len(&self) -> (n: usize)
        ensures
            n == self@.dom().len(),
    {
        proof {
            use_type_invariant(self);
            entry_names(self.entries@).unique_seq_to_set();
            assert(self@.dom() =~= entry_names(self.entries@).to_set());
        }
        self.entries.len()
    }
}

/// The response head in the form the platform's `NSHTTPURLResponse` is made from.
pub struct ObjcResponse {
    pub status_code: isize,
    pub http_version: String,
    pub header_fields: HeaderFields,
}

/// The name the body length is announced under.
pub open spec fn content_length_name() -> Seq<char> {
    "content-length"@
}

/// The headers as name texts and value bytes.
pub open spec fn header_pairs(h: Seq<(String, Vec<u8>)>) -> Seq<(Seq<char>, Seq<u8>)> {
    h.map_values(|p: (String, Vec<u8>)| (p.0@, p.1@))
}

/// The dictionary made of the headers whose value is visible ASCII, inserted
/// in order, a later value replacing an earlier one under the same name.
pub open spec fn visible_fields(h: Seq<(Seq<char>, Seq<u8>)>) -> Map<Seq<char>, Seq<char>>
    decreases h.len(),
{
    if h.len() == 0 {
        Map::empty()
    } else {
        let m = visible_fields(h.drop_last());
        match visible_text(h.last().1) {
            Some(t) => m.insert(h.last().0, t),
            None => m,
        }
    }
}

/// The header dictionary of the platform response: the visible-ASCII headers,
/// then the body length in decimal under `content-length`.
pub open spec fn response_fields(h: Seq<(Seq<char>, Seq<u8>)>, body_len: nat) -> Map<Seq<char>, Seq<char>> {
    visible_fields(h).insert(content_length_name(), decimal(body_len))
}

/// The body length is always announced, in decimal, under `content-length`,
/// whatever the headers said under that name: a run of digits without a
/// leading zero that reads back as the length.
pub proof fn lemma_content_length_announced(h: Seq<(Seq<char>, Seq<u8>)>, body_len: nat)
    ensures
        response_fields(h, body_len).contains_key(content_length_name()),
        response_fields(h, body_len)[content_length_name()] == decimal(body_len),
        forall|i: int| 0 <= i < decimal(body_len).len() ==> is_digit(#[trigger] response_fields(h, body_len)[content_length_name()][i]),
        body_len > 0 ==> response_fields(h, body_len)[content_length_name()][0] != '0',
        digits_value(response_fields(h, body_len)[content_length_name()]) == body_len,
{
    lemma_decimal_reads_back(body_len);
}

/// The names of the headers that have a visible-ASCII value.
pub open spec fn visible_names(h: Seq<(Seq<char>, Seq<u8>)>) -> Set<Seq<char>> {
    Set::new(|n: Seq<char>| exists|i: int| 0 <= i < h.len() && #[trigger] h[i].0 == n && visible_text(h[i].1) is Some)
}

proof fn lemma_visible_fields_dom(h: Seq<(Seq<char>, Seq<u8>)>)
    ensures
        visible_fields(h).dom() == visible_names(h),
    decreases h.len(),
{
    if h.len() == 0 {
        assert(visible_fields(h).dom() =~= visible_names(h));
    } else {
        let rest = h.drop_last();
        lemma_visible_fields_dom(rest);
        assert forall|n: Seq<char>| visible_fields(h).dom().contains(n) <==> visible_names(h).contains(n) by {
            if visible_names(rest).contains(n) {
                let i = choose|i: int| 0 <= i < rest.len() && #[trigger] rest[i].0 == n && visible_text(rest[i].1) is Some;
                assert(h[i] == rest[i]);
            }
            if visible_names(h).contains(n) {
                let i = choose|i: int| 0 <= i < h.len() && #[trigger] h[i].0 == n && visible_text(h[i].1) is Some;
                if i < h.len() - 1 {
                    assert(rest[i] == h[i]);
                } else {
                    assert(h[i] == h.last());
                }
            }
            if visible_text(h.last().1) is Some {
                assert(h[h.len() - 1] == h.last());
            }
        }
        assert(visible_fields(h).dom() =~= visible_names(h));
    }
}

/// The platform's header names are exactly the names of the headers with a
/// visible-ASCII value, and `content-length`.
pub proof fn lemma_response_field_names(h: Seq<(Seq<char>, Seq<u8>)>, body_len: nat)
    ensures
        response_fields(h, body_len).dom() == visible_names(h).insert(content_length_name()),
{
    lemma_visible_fields_dom(h);
    assert(response_fields(h, body_len).dom() =~= visible_names(h).insert(content_length_name()));
}

/// For a body of bytes, the announced `content-length` reads back as the
/// number of bytes in the body.
pub proof fn lemma_byte_body_length_announced(h: Seq<(Seq<char>, Seq<u8>)>, body: Vec<u8>)
    ensures
        digits_value(response_fields(h, body.content_length())[content_length_name()]) == body@.len(),
{
    lemma_content_length_counts_bytes::<Vec<u8>>(body, &body);
    lemma_content_length_announced(h, body.content_length());
}

/// A header none of whose values is visible ASCII does not reach the
/// platform (unless it is `content-length`, which is always set).
pub proof fn lemma_invisible_header_dropped(h: Seq<(Seq<char>, Seq<u8>)>, body_len: nat, name: Seq<char>)
    requires
        name != content_length_name(),
        forall|i: int| 0 <= i < h.len() && #[trigger] h[i].0 == name ==> visible_text(h[i].1) is None,
    ensures
        !response_fields(h, body_len).contains_key(name),
{
    lemma_visible_fields_absent(h, name);
}

proof fn lemma_visible_fields_absent(h: Seq<(Seq<char>, Seq<u8>)>, name: Seq<char>)
    requires
        forall|i: int| 0 <= i < h.len() && #[trigger] h[i].0 == name ==> visible_text(h[i].1) is None,
    ensures
        !visible_fields(h).contains_key(name),
    decreases h.len(),
{
    if h.len() > 0 {
        let rest = h.drop_last();
        assert forall|i: int| 0 <= i < rest.len() && #[trigger] rest[i].0 == name implies visible_text(rest[i].1) is None by {
            assert(h[i] == rest[i]);
        }
        lemma_visible_fields_absent(rest, name);
        assert(h[h.len() - 1] == h.last());
    }
}

/// Where a name has several visible-ASCII values, the platform gets the last.
pub proof fn lemma_last_visible_value_wins(h: Seq<(Seq<char>, Seq<u8>)>, body_len: nat, i: int)
    requires
        0 <= i < h.len(),
        h[i].0 != content_length_name(),
        visible_text(h[i].1) is Some,
        forall|j: int| i < j < h.len() && #[trigger] h[j].0 == h[i].0 ==> visible_text(h[j].1) is None,
    ensures
        response_fields(h, body_len).contains_key(h[i].0),
        response_fields(h, body_len)[h[i].0] == visible_text(h[i].1).unwrap(),
{
    lemma_visible_fields_last(h, i);
}

proof fn lemma_visible_fields_last(h: Seq<(Seq<char>, Seq<u8>)>, i: int)
    requires
        0 <= i < h.len(),
        visible_text(h[i].1) is Some,
        forall|j: int| i < j < h.len() && #[trigger] h[j].0 == h[i].0 ==> visible_text(h[j].1) is None,
    ensures
        visible_fields(h).contains_key(h[i].0),
        visible_fields(h)[h[i].0] == visible_text(h[i].1).unwrap(),
    decreases h.len(),
{
    let rest = h.drop_last();
    if i < h.len() - 1 {
        assert(rest[i] == h[i]);
        assert forall|j: int| i < j < rest.len() && #[trigger] rest[j].0 == rest[i].0 implies visible_text(rest[j].1) is None by {
            assert(rest[j] == h[j]);
        }
        lemma_visible_fields_last(rest, i);
        assert(h[h.len() - 1] == h.last());
    }
}

impl<T: ContentLength> HttpResponse<T> {
    /// The platform response head for this response: its status code, its
    /// version text, and its header dictionary.
    pub fn into_objc(&self) -> (r: ObjcResponse)
        ensures
            r.status_code == self.head.status as int,
            r.http_version@ == version_text(self.head.version),
            r.header_fields@ == response_fields(header_pairs(self.head.headers@), self.body.content_length()),
    {
        let headers = &self.head.headers;
        let mut fields = HeaderFields::new();
        let mut i: usize = 0;
        while i < headers.len()
            invariant
                0 <= i <= headers@.len(),
                fields@ == visible_fields(header_pairs(headers@).take(i as int)),
            decreases headers.len() - i,
        {
            let ghost before = header_pairs(headers@).take(i as int);
            let ghost after = header_pairs(headers@).take(i + 1);
            assert(after.drop_last() =~= before);
            assert(after.last() == (headers@[i as int].0@, headers@[i as int].1@));
            match header_value_to_str(&headers[i].1) {
                Some(text) => {
                    fields.insert(headers[i].0.clone(), text);
                },
                None => {},
            }
            i = i + 1;
        }
        assert(header_pairs(headers@).take(headers@.len() as int) =~= header_pairs(headers@));
        let length = decimal_string(self.body.len());
        fields.insert("content-length".to_string(), length);
        ObjcResponse {
            status_code: self.head.status as isize,
            http_version: self.head.version.as_str().to_string(),
            header_fields: fields,
        }
    }
}

} // verus!
