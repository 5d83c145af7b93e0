//! One line of a hosts file: a managed entry or an opaque line, and the
//! conversion of each to and from text.

use vstd::prelude::*;
use vstd::string::StringExecFns;
use crate::instant::{Instant, in_range, parse_instant, timestamp_parse, timestamp_text};
use crate::text::chars_of;

verus! {

/// Text that marks a line as one this library manages.
pub open spec fn marker() -> Seq<char> {
    seq!['#', ' ', 'e', 'h', 'a', ' ']
}

/// Whether `p` occurs in `s` starting at `i`.
pub open spec fn occurs_at(s: Seq<char>, p: Seq<char>, i: int) -> bool {
    0 <= i && i + p.len() <= s.len() && s.subrange(i, i + p.len()) == p
}

/// The first index at or after `i` where `p` occurs in `s`.
pub open spec fn find_from(s: Seq<char>, p: Seq<char>, i: int) -> Option<int>
    decreases s.len() + 1 - i,
{
    if i < 0 || i + p.len() > s.len() {
        None
    } else if occurs_at(s, p, i) {
        Some(i)
    } else {
        find_from(s, p, i + 1)
    }
}

/// The Unicode `White_Space` characters, which `str::split_whitespace`
/// separates on.
pub open spec fn is_whitespace(c: char) -> bool {
    c == '\t' || c == '\n' || c == '\u{B}' || c == '\u{C}' || c == '\r' || c == ' ' || c
        == '\u{85}' || c == '\u{A0}' || c == '\u{1680}' || ('\u{2000}' <= c && c <= '\u{200A}')
        || c == '\u{2028}' || c == '\u{2029}' || c == '\u{202F}' || c == '\u{205F}' || c
        == '\u{3000}'
}

/// The longest suffix of `s` without whitespace.
pub open spec fn trailing_word(s: Seq<char>) -> Seq<char>
    decreases s.len(),
{
    if s.len() == 0 || is_whitespace(s.last()) {
        Seq::<char>::empty()
    } else {
        trailing_word(s.drop_last()).push(s.last())
    }
}

/// The last whitespace-separated word of `s`, if it has one.
pub open spec fn last_word(s: Seq<char>) -> Option<Seq<char>>
    decreases s.len(),
{
    if s.len() == 0 {
        None
    } else if is_whitespace(s.last()) {
        last_word(s.drop_last())
    } else {
        Some(trailing_word(s))
    }
}

/// The fields serde_json reads from `s` as a JSON object whose values are
/// strings or null, in key order; `None` when `s` is not such an object.
pub uninterp spec fn json_string_fields(s: Seq<char>) -> Option<Seq<(Seq<char>, Option<Seq<char>>)>>;

/// The JSON string literal serde_json writes for `s`, quotes included.
pub uninterp spec fn json_quoted(s: Seq<char>) -> Seq<char>;

pub open spec fn opt_view(o: Option<String>) -> Option<Seq<char>> {
    match o {
        Some(s) => Some(s@),
        None => None,
    }
}

/// Relies on `serde_json::from_str` into a `BTreeMap<String, Option<String>>`:
/// the result depends on the text alone, and the map hands its fields out in
/// key order.
#[verifier::external_body]
fn decode_fields(s: &str) -> (r: Option<Vec<(String, Option<String>)>>)
    ensures
        r is None <==> json_string_fields(s@) is None,
        r matches Some(v) ==> {
            let f = json_string_fields(s@)->Some_0;
            &&& v@.len() == f.len()
            &&& forall|k: int|
                0 <= k < v@.len() ==> (#[trigger] v@[k]).0@ == f[k].0 && opt_view(v@[k].1)
                    == f[k].1
        },
{
    serde_json::from_str::<std::collections::BTreeMap<String, Option<String>>>(s).ok().map(
        |m| m.into_iter().collect(),
    )
}

/// Relies on `serde_json::to_string` of a `str`, which writes it as a quoted
/// JSON string and cannot fail for a string.
#[verifier::external_body]
fn quote(s: &str) -> (r: String)
    ensures
        r@ == json_quoted(s@),
{
    serde_json::to_string(s).unwrap_or_default()
}

pub open spec fn expiry_key() -> Seq<char> {
    seq!['e', 'x', 'p', 'i', 'r', 'y']
}

pub open spec fn comment_key() -> Seq<char> {
    seq!['c', 'o', 'm', 'm', 'e', 'n', 't']
}

/// The value of the first field named `key`.
pub open spec fn field(fs: Seq<(Seq<char>, Option<Seq<char>>)>, key: Seq<char>) -> Option<Option<Seq<char>>>
    decreases fs.len(),
{
    if fs.len() == 0 {
        None
    } else if fs[0].0 == key {
        Some(fs[0].1)
    } else {
        field(fs.drop_first(), key)
    }
}

/// The metadata, as (expiry in nanoseconds, comment), that a payload decodes
/// to. A payload that is not a JSON object whose values are strings or null,
/// or whose `expiry` is not a string that jiff reads as a representable
/// instant, decodes to the epoch with no comment; a missing or null
/// `comment` is no comment.
pub open spec fn decoded_meta(p: Seq<char>) -> (int, Option<Seq<char>>) {
    match json_string_fields(p) {
        None => (0, None),
        Some(fs) => match field(fs, expiry_key()) {
            Some(Some(t)) => match timestamp_parse(t) {
                Some(n) => if in_range(n) {
                    (
                        n,
                        match field(fs, comment_key()) {
                            Some(c) => c,
                            None => None,
                        },
                    )
                } else {
                    (0, None)
                },
                None => (0, None),
            },
            _ => (0, None),
        },
    }
}

/// The model of an entry.
pub enum EntryView {
    Managed { name: Seq<char>, expiry: int, comment: Option<Seq<char>> },
    Opaque { raw: Seq<char> },
}

/// The entry a line parses to.
pub open spec fn parse_line(line: Seq<char>) -> EntryView {
    match find_from(line, marker(), 0) {
        None => EntryView::Opaque { raw: line },
        Some(i) => match last_word(line.subrange(0, i)) {
            None => EntryView::Opaque { raw: line },
            Some(w) => {
                let m = decoded_meta(line.subrange(i + marker().len(), line.len() as int));
                EntryView::Managed { name: w, expiry: m.0, comment: m.1 }
            },
        },
    }
}

pub open spec fn null_text() -> Seq<char> {
    seq!['n', 'u', 'l', 'l']
}

/// The JSON text of metadata: `{"expiry":<time>,"comment":<text or null>}`.
pub open spec fn meta_text(expiry: int, comment: Option<Seq<char>>) -> Seq<char> {
    seq!['{', '"'] + expiry_key() + seq!['"', ':'] + json_quoted(timestamp_text(expiry)) + seq![
        ',',
        '"',
    ] + comment_key() + seq!['"', ':'] + match comment {
        Some(c) => json_quoted(c),
        None => null_text(),
    } + seq!['}']
}

pub open spec fn loopback() -> Seq<char> {
    seq!['1', '2', '7', '.', '0', '.', '0', '.', '1']
}

/// The line an entry is written as.
pub open spec fn render_line(e: EntryView) -> Seq<char> {
    match e {
        EntryView::Opaque { raw } => raw,
        EntryView::Managed { name, expiry, comment } => loopback() + seq!['\t'] + name + seq!['\t']
            + marker() + meta_text(expiry, comment),
    }
}

/// When a managed entry stops being valid, and where it came from.
#[derive(Debug)]
pub struct Metadata {
    pub expiry: Instant,
    pub comment: Option<String>,
}

/// One line of a hosts file.
#[derive(Debug)]
pub enum Entry {
    /// A line this library wrote.
    Managed { name: String, meta: Metadata },
    /// Any other line, kept as it was read.
    Opaque(String),
}

impl Entry {
    pub open spec fn view(&self) -> EntryView {
        match self {
            Entry::Managed { name, meta } => EntryView::Managed {
                name: name@,
                expiry: meta.expiry.nanosecond as int,
                comment: opt_view(meta.comment),
            },
            Entry::Opaque(raw) => EntryView::Opaque { raw: raw@ },
        }
    }

    pub open spec fn wf(&self) -> bool {
        match self {
            Entry::Managed { meta, .. } => meta.expiry.wf(),
            Entry::Opaque(_) => true,
        }
    }

    /// Parses one line. A line without the marker, or without a word before
    /// it, is opaque; a managed line whose metadata cannot be decoded gets
    /// the epoch as expiry and no comment.
    pub fn from_line(line: &str) -> (r: Entry)
        ensures
            r.view() == parse_line(line@),
            r.wf(),
    {
        let s = chars_of(line);
        let found = find_marker(&s);
        match found {
            None => Entry::Opaque(line.to_owned()),
            Some(i) => {
                let n = s.len();
                assert(i + 6 <= n);
                match last_word_bounds(&s, i) {
                    None => Entry::Opaque(line.to_owned()),
                    Some((start, end)) => {
                        let name = line.substring_char(start, end).to_owned();
                        let payload = line.substring_char(i + 6, n);
                        let meta = decode_meta(payload);
                        Entry::Managed { name, meta }
                    },
                }
            },
        }
    }

    /// The line this entry is written as.
    pub fn to_line(&self) -> (r: String)
        requires
            self.wf(),
        ensures
            r@ == render_line(self.view()),
    {
        match self {
            Entry::Opaque(raw) => raw.clone(),
            Entry::Managed { name, meta } => {
                let mut out = String::new();
                out.append("127.0.0.1\t");
                out.append(name.as_str());
                out.append("\t# eha ");
                let m = encode_meta(meta);
                out.append(m.as_str());
                proof {
                    reveal_strlit("127.0.0.1\t");
                    reveal_strlit("\t# eha ");
                    assert(out@ =~= render_line(self.view()));
                }
                out
            },
        }
    }
}

/// Decodes a metadata payload, falling back to the epoch with no comment.
pub fn decode_meta(payload: &str) -> (r: Metadata)
    ensures
        (r.expiry.nanosecond as int, opt_view(r.comment)) == decoded_meta(payload@),
        r.expiry.wf(),
{
    let fallback = Metadata { expiry: Instant::epoch(), comment: None };
    match decode_fields(payload) {
        None => fallback,
        Some(fields) => {
            let ghost f = json_string_fields(payload@)->Some_0;
            assert(Seq::new(fields@.len(), |k: int| (fields@[k].0@, opt_view(fields@[k].1))) =~= f);
            let expiry_name = "expiry".to_owned();
            let comment_name = "comment".to_owned();
            proof {
                reveal_strlit("expiry");
                reveal_strlit("comment");
                assert(expiry_name@ =~= expiry_key());
                assert(comment_name@ =~= comment_key());
            }
            let expiry = lookup(&fields, &expiry_name);
            match expiry {
                Some(Some(t)) => match parse_instant(t.as_str()) {
                    Some(at) => {
                        let comment = match lookup(&fields, &comment_name) {
                            Some(c) => c,
                            None => None,
                        };
                        Metadata { expiry: at, comment }
                    },
                    None => fallback,
                },
                _ => fallback,
            }
        },
    }
}

/// The value of the first field named `key`, copied.
fn lookup(fields: &Vec<(String, Option<String>)>, key: &String) -> (r: Option<Option<String>>)
    ensures
        ({
            let fs = Seq::new(fields@.len(), |k: int| (fields@[k].0@, opt_view(fields@[k].1)));
            match (r, field(fs, key@)) {
                (Some(a), Some(b)) => opt_view(a) == b,
                (None, None) => true,
                _ => false,
            }
        }),
{
    let ghost fs = Seq::new(fields@.len(), |k: int| (fields@[k].0@, opt_view(fields@[k].1)));
    assert(fs.subrange(0, fs.len() as int) =~= fs);
    let mut i: usize = 0;
    while i < fields.len()
        invariant
            fs == Seq::new(fields@.len(), |k: int| (fields@[k].0@, opt_view(fields@[k].1))),
            i <= fields@.len(),
            field(fs, key@) == field(fs.subrange(i as int, fs.len() as int), key@),
        decreases fields@.len() - i,
    {
        let ghost rest = fs.subrange(i as int, fs.len() as int);
        assert(rest.drop_first() =~= fs.subrange(i + 1, fs.len() as int));
        assert(rest[0] == fs[i as int]);
        if fields[i].0 == *key {
            return Some(fields[i].1.clone());
        }
        i = i + 1;
    }
    None
}

/// The JSON text of metadata.
pub fn encode_meta(meta: &Metadata) -> (r: String)
    requires
        meta.expiry.wf(),
    ensures
        r@ == meta_text(meta.expiry.nanosecond as int, opt_view(meta.comment)),
{
    let mut out = String::new();
    out.append("{\"expiry\":");
    let t = meta.expiry.to_text();
    let q = quote(t.as_str());
    out.append(q.as_str());
    out.append(",\"comment\":");
    match &meta.comment {
        Some(c) => {
            let qc = quote(c.as_str());
            out.append(qc.as_str());
        },
        None => {
            out.append("null");
        },
    }
    out.append("}");
    proof {
        reveal_strlit("{\"expiry\":");
        reveal_strlit(",\"comment\":");
        reveal_strlit("null");
        reveal_strlit("}");
        assert(out@ =~= meta_text(meta.expiry.nanosecond as int, opt_view(meta.comment)));
    }
    out
}

/// The first index where the marker occurs in `s`.
fn find_marker(s: &Vec<char>) -> (r: Option<usize>)
    ensures
        r matches Some(i) ==> i + 6 <= s@.len(),
        r matches Some(i) ==> find_from(s@, marker(), 0) == Some(i as int),
        r is None ==> find_from(s@, marker(), 0) is None,
{
    let pat = vec!['#', ' ', 'e', 'h', 'a', ' '];
    assert(pat@ == marker());
    let n = s.len();
    if n < 6 {
        return None;
    }
    let mut i: usize = 0;
    while i <= n - 6
        invariant
            n == s@.len(),
            pat@ == marker(),
            n >= 6,
            i <= n - 5,
            i + 6 <= n + 1,
            find_from(s@, marker(), 0) == find_from(s@, marker(), i as int),
        decreases n - i,
    {
        let mut j: usize = 0;
        let mut same = true;
        while j < 6
            invariant
                i + 6 <= n,
                n == s@.len(),
                pat@ == marker(),
                j <= 6,
                same == forall|m: int| 0 <= m < j ==> s@[i + m] == pat@[m],
            decreases 6 - j,
        {
            if s[i + j] != pat[j] {
                same = false;
            }
            j = j + 1;
        }
        if same {
            assert(s@.subrange(i as int, i + 6) =~= marker());
            return Some(i);
        }
        assert(!occurs_at(s@, marker(), i as int)) by {
            if occurs_at(s@, marker(), i as int) {
                assert forall|m: int| 0 <= m < 6 implies s@[i + m] == pat@[m] by {
                    assert(s@.subrange(i as int, i + 6)[m] == s@[i + m]);
                }
            }
        }
        i = i + 1;
    }
    None
}

pub fn is_whitespace_char(c: char) -> (r: bool)
    ensures
        r == is_whitespace(c),
{
    c == '\t' || c == '\n' || c == '\u{B}' || c == '\u{C}' || c == '\r' || c == ' ' || c
        == '\u{85}' || c == '\u{A0}' || c == '\u{1680}' || ('\u{2000}' <= c && c <= '\u{200A}')
        || c == '\u{2028}' || c == '\u{2029}' || c == '\u{202F}' || c == '\u{205F}' || c
        == '\u{3000}'
}

/// Where the last word of `s[0..end]` lies.
fn last_word_bounds(s: &Vec<char>, end: usize) -> (r: Option<(usize, usize)>)
    requires
        end <= s@.len(),
    ensures
        r is None <==> last_word(s@.subrange(0, end as int)) is None,
        r matches Some((a, b)) ==> a <= b <= end && last_word(s@.subrange(0, end as int)) == Some(
            s@.subrange(a as int, b as int),
        ),
{
    let mut j: usize = end;
    while j > 0 && is_whitespace_char(s[j - 1])
        invariant
            j <= end <= s@.len(),
            last_word(s@.subrange(0, end as int)) == last_word(s@.subrange(0, j as int)),
        decreases j,
    {
        assert(s@.subrange(0, j as int).drop_last() == s@.subrange(0, j - 1));
        j = j - 1;
    }
    if j == 0 {
        assert(s@.subrange(0, 0).len() == 0);
        return None;
    }
    let mut k: usize = j;
    while k > 0 && !is_whitespace_char(s[k - 1])
        invariant
            0 < j <= end <= s@.len(),
            k <= j,
            trailing_word(s@.subrange(0, j as int)) == trailing_word(s@.subrange(0, k as int))
                + s@.subrange(k as int, j as int),
        decreases k,
    {
        assert(s@.subrange(0, k as int).drop_last() == s@.subrange(0, k - 1));
        assert(s@.subrange(k - 1, j as int) == seq![s@[k - 1]] + s@.subrange(k as int, j as int));
        assert(trailing_word(s@.subrange(0, k as int)) == trailing_word(s@.subrange(0, k - 1)).push(
            s@[k - 1],
        ));
        assert(trailing_word(s@.subrange(0, k - 1)).push(s@[k - 1]) + s@.subrange(k as int, j as int)
            =~= trailing_word(s@.subrange(0, k - 1)) + s@.subrange(k - 1, j as int));
        k = k - 1;
    }
    assert(trailing_word(s@.subrange(0, k as int)) =~= Seq::<char>::empty());
    assert(s@.subrange(0, j as int).last() == s@[j - 1]);
    Some((k, j))
}

} // verus!
