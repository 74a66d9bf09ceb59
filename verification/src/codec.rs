//! Serialized forms of tables of contents and of listings, built on the
//! encoders of `speedy`, `bincode` and `serde_json`.

use vstd::prelude::*;

use crate::error::ScandirError;
use crate::text::{byte_len, utf8_of};
use crate::toc::{texts, Toc, TocView};
use crate::walk::listing_views;

verus! {

/// The `n` low bytes of `v`, least significant first.
pub open spec fn le_bytes(v: nat, n: nat) -> Seq<u8>
    decreases n,
{
    if n == 0 {
        Seq::empty()
    } else {
        seq![(v % 256) as u8] + le_bytes(v / 256, (n - 1) as nat)
    }
}

/// All parts, one after the other.
pub open spec fn concat_all(parts: Seq<Seq<u8>>) -> Seq<u8>
    decreases parts.len(),
{
    if parts.len() == 0 {
        Seq::empty()
    } else {
        concat_all(parts.drop_last()) + parts.last()
    }
}

/// `speedy`'s form of a string: its byte length as a little-endian `u32`,
/// then its UTF-8 bytes.
pub open spec fn speedy_string(s: Seq<char>) -> Seq<u8> {
    le_bytes(byte_len(s), 4) + utf8_of(s)
}

/// `speedy`'s form of a list of strings: the count as a little-endian `u32`,
/// then each string.
pub open spec fn speedy_strings(items: Seq<Seq<char>>) -> Seq<u8> {
    le_bytes(items.len(), 4) + concat_all(items.map_values(|s: Seq<char>| speedy_string(s)))
}

/// Whether every length `speedy` writes fits its `u32` length fields.
pub open spec fn speedy_lengths_fit(items: Seq<Seq<char>>) -> bool {
    items.len() <= u32::MAX && forall|i: int| 0 <= i < items.len() ==> byte_len(#[trigger] items[i]) <= u32::MAX
}

/// `bincode`'s form of a string in its legacy configuration: its byte length
/// as a little-endian `u64`, then its UTF-8 bytes.
pub open spec fn bincode_string(s: Seq<char>) -> Seq<u8> {
    le_bytes(byte_len(s), 8) + utf8_of(s)
}

/// `bincode`'s legacy form of a list of strings: the count as a little-endian
/// `u64`, then each string.
pub open spec fn bincode_strings(items: Seq<Seq<char>>) -> Seq<u8> {
    le_bytes(items.len(), 8) + concat_all(items.map_values(|s: Seq<char>| bincode_string(s)))
}

/// A lowercase hexadecimal digit.
pub open spec fn hex_digit(n: int) -> char {
    if n < 10 {
        (48 + n) as char
    } else {
        (87 + n) as char
    }
}

/// How JSON writes one character inside a string: `"` and `\` after a
/// backslash, the control characters with a short escape where JSON has one
/// and as `\u00` and two hexadecimal digits otherwise, any other character as
/// itself.
#[verifier::opaque]
pub open spec fn json_escape(c: char) -> Seq<char> {
    if c == '"' {
        seq!['\\', '"']
    } else if c == '\\' {
        seq!['\\', '\\']
    } else if c == '\u{8}' {
        seq!['\\', 'b']
    } else if c == '\u{c}' {
        seq!['\\', 'f']
    } else if c == '\n' {
        seq!['\\', 'n']
    } else if c == '\r' {
        seq!['\\', 'r']
    } else if c == '\t' {
        seq!['\\', 't']
    } else if (c as int) < 32 {
        seq!['\\', 'u', '0', '0', hex_digit((c as int) / 16), hex_digit((c as int) % 16)]
    } else {
        seq![c]
    }
}

/// The characters of a text, each written as inside a JSON string.
pub open spec fn json_escaped(s: Seq<char>) -> Seq<char>
    decreases s.len(),
{
    if s.len() == 0 {
        Seq::empty()
    } else {
        json_escaped(s.drop_last()) + json_escape(s.last())
    }
}

/// What `serde_json::to_string` gives for one string: the escaped text
/// between double quotes.
#[verifier::opaque]
pub open spec fn json_string(s: Seq<char>) -> Seq<char> {
    seq!['"'] + json_escaped(s) + seq!['"']
}

/// What `serde_json::to_string` gives for a list of strings: the strings
/// between square brackets, separated by commas.
#[verifier::opaque]
pub open spec fn json_strings(items: Seq<Seq<char>>) -> Seq<char> {
    seq!['['] + join_commas(items.map_values(|s: Seq<char>| json_string(s))) + seq![']']
}

/// `speedy::Writable::write_to_vec` on a list of strings (little-endian
/// context). Claimed: it succeeds exactly when every length fits a `u32`, with
/// the bytes of `speedy_strings`; its error becomes its message.
#[verifier::external_body]
fn speedy_write_strings(v: &Vec<String>) -> (r: Result<Vec<u8>, String>)
    requires
        speedy_strings(texts(v@)).len() <= usize::MAX,
    ensures
        match r {
            Ok(b) => speedy_lengths_fit(texts(v@)) && b@ == speedy_strings(texts(v@)),
            Err(_) => !speedy_lengths_fit(texts(v@)),
        },
{
    match speedy::Writable::<speedy::LittleEndian>::write_to_vec(v) {
        Ok(b) => Ok(b),
        Err(e) => Err(e.to_string()),
    }
}

/// `bincode::serde::encode_to_vec` with `bincode::config::legacy()` on a list
/// of strings. Claimed: it succeeds (its writer is a `Vec`, with no size limit)
/// with the bytes of `bincode_strings`.
#[verifier::external_body]
fn bincode_encode_strings(v: &Vec<String>) -> (r: Result<Vec<u8>, String>)
    ensures
        match r {
            Ok(b) => b@ == bincode_strings(texts(v@)),
            Err(_) => false,
        },
{
    match bincode::serde::encode_to_vec(v, bincode::config::legacy()) {
        Ok(b) => Ok(b),
        Err(e) => Err(e.to_string()),
    }
}

/// `serde_json::to_string` on a list of strings. Claimed: it succeeds (strings
/// always serialize and its writer is a `Vec`), with the text of
/// `json_strings`.
#[verifier::external_body]
fn json_encode_strings(v: &Vec<String>) -> (r: Result<String, String>)
    ensures
        match r {
            Ok(s) => s@ == json_strings(texts(v@)),
            Err(_) => false,
        },
{
    match serde_json::to_string(v) {
        Ok(s) => Ok(s),
        Err(e) => Err(e.to_string()),
    }
}

/// `serde_json::to_string` on one string. Claimed as for a list.
#[verifier::external_body]
fn json_encode_string(v: &String) -> (r: Result<String, String>)
    ensures
        match r {
            Ok(s) => s@ == json_string(v@),
            Err(_) => false,
        },
{
    match serde_json::to_string(v) {
        Ok(s) => Ok(s),
        Err(e) => Err(e.to_string()),
    }
}

/// `speedy::Writable::write_to_vec` on one string (little-endian context).
/// Claimed: it succeeds exactly when the byte length fits a `u32`, with the
/// bytes of `speedy_string`; its error becomes its message.
#[verifier::external_body]
fn speedy_write_string(v: &String) -> (r: Result<Vec<u8>, String>)
    ensures
        match r {
            Ok(b) => byte_len(v@) <= u32::MAX && b@ == speedy_string(v@),
            Err(_) => byte_len(v@) > u32::MAX,
        },
{
    match speedy::Writable::<speedy::LittleEndian>::write_to_vec(v) {
        Ok(b) => Ok(b),
        Err(e) => Err(e.to_string()),
    }
}

/// `bincode::serde::encode_to_vec` with `bincode::config::legacy()` on one
/// string. Claimed: it succeeds with the bytes of `bincode_string`.
#[verifier::external_body]
fn bincode_encode_string(v: &String) -> (r: Result<Vec<u8>, String>)
    ensures
        match r {
            Ok(b) => b@ == bincode_string(v@),
            Err(_) => false,
        },
{
    match bincode::serde::encode_to_vec(v, bincode::config::legacy()) {
        Ok(b) => Ok(b),
        Err(e) => Err(e.to_string()),
    }
}

/// The `k` low bytes of `n`, least significant first.
fn le_bytes_of(n: u64, k: usize) -> (r: Vec<u8>)
    requires
        k <= 8,
    ensures
        r@ == le_bytes(n as nat, k as nat),
{
    let mut out: Vec<u8> = Vec::new();
    let mut x: u64 = n;
    let mut i: usize = 0;
    while i < k
        invariant
            i <= k,
            out@ + le_bytes(x as nat, (k - i) as nat) == le_bytes(n as nat, k as nat),
        decreases k - i,
    {
        let b = (x % 256) as u8;
        assert(le_bytes(x as nat, (k - i) as nat) == seq![b] + le_bytes((x / 256) as nat, (k - i - 1) as nat));
        assert(out@.push(b) + le_bytes((x / 256) as nat, (k - i - 1) as nat) =~= out@ + (seq![b] + le_bytes((x / 256) as nat, (k - i - 1) as nat)));
        out.push(b);
        x = x / 256;
        i = i + 1;
    }
    assert(le_bytes(x as nat, 0) =~= Seq::<u8>::empty());
    assert(out@ + Seq::<u8>::empty() =~= out@);
    out
}

/// `speedy`'s form of a table: its five lists one after the other.
pub open spec fn speedy_toc(t: TocView) -> Seq<u8> {
    speedy_strings(t.dirs) + speedy_strings(t.files) + speedy_strings(t.symlinks) + speedy_strings(
        t.other,
    ) + speedy_strings(t.errors)
}

/// `bincode`'s legacy form of a table: its five lists one after the other.
pub open spec fn bincode_toc(t: TocView) -> Seq<u8> {
    bincode_strings(t.dirs) + bincode_strings(t.files) + bincode_strings(t.symlinks)
        + bincode_strings(t.other) + bincode_strings(t.errors)
}

/// The JSON object of a table: one member per list, named after it.
pub open spec fn json_toc(t: TocView) -> Seq<char> {
    "{\"dirs\":"@ + json_strings(t.dirs) + ",\"files\":"@ + json_strings(t.files)
        + ",\"symlinks\":"@ + json_strings(t.symlinks) + ",\"other\":"@ + json_strings(t.other)
        + ",\"errors\":"@ + json_strings(t.errors) + "}"@
}

/// Whether every list of a table fits `speedy`'s length fields.
pub open spec fn speedy_toc_fits(t: TocView) -> bool {
    &&& speedy_lengths_fit(t.dirs)
    &&& speedy_lengths_fit(t.files)
    &&& speedy_lengths_fit(t.symlinks)
    &&& speedy_lengths_fit(t.other)
    &&& speedy_lengths_fit(t.errors)
}

fn append_bytes(dst: &mut Vec<u8>, src: Vec<u8>)
    ensures
        final(dst)@ == old(dst)@ + src@,
{
    let mut src = src;
    dst.append(&mut src);
}

fn append_json(dst: &mut String, v: &Vec<String>) -> (ok: bool)
    ensures
        ok,
        final(dst)@ == old(dst)@ + json_strings(texts(v@)),
{
    match json_encode_strings(v) {
        Ok(j) => {
            dst.append(j.as_str());
            true
        },
        Err(_) => false,
    }
}

impl Toc {
    /// The table as a JSON object with one member per list, in field order.
    pub fn to_json(&self) -> (r: Result<String, ScandirError>)
        ensures
            match r {
                Ok(s) => s@ == json_toc(self@),
                Err(_) => false,
            },
    {
        let mut out = String::new();
        out.append("{\"dirs\":");
        append_json(&mut out, &self.dirs);
        out.append(",\"files\":");
        append_json(&mut out, &self.files);
        out.append(",\"symlinks\":");
        append_json(&mut out, &self.symlinks);
        out.append(",\"other\":");
        append_json(&mut out, &self.other);
        out.append(",\"errors\":");
        append_json(&mut out, &self.errors);
        out.append("}");
        assert(out@ =~= json_toc(self@));
        Ok(out)
    }

    /// The table in `speedy`'s binary form. Fails, with `speedy`'s message,
    /// when a list or a name is too long for its `u32` length field.
    pub fn to_speedy(&self) -> (r: Result<Vec<u8>, ScandirError>)
        requires
            speedy_toc(self@).len() <= usize::MAX,
        ensures
            match r {
                Ok(b) => speedy_toc_fits(self@) && b@ == speedy_toc(self@),
                Err(e) => !speedy_toc_fits(self@),
            },
    {
        let mut out: Vec<u8> = Vec::new();
        assert(out@ =~= Seq::<u8>::empty());
        match speedy_write_strings(&self.dirs) {
            Ok(b) => append_bytes(&mut out, b),
            Err(m) => {
                return Err(ScandirError::other(m));
            },
        }
        match speedy_write_strings(&self.files) {
            Ok(b) => append_bytes(&mut out, b),
            Err(m) => {
                return Err(ScandirError::other(m));
            },
        }
        match speedy_write_strings(&self.symlinks) {
            Ok(b) => append_bytes(&mut out, b),
            Err(m) => {
                return Err(ScandirError::other(m));
            },
        }
        match speedy_write_strings(&self.other) {
            Ok(b) => append_bytes(&mut out, b),
            Err(m) => {
                return Err(ScandirError::other(m));
            },
        }
        match speedy_write_strings(&self.errors) {
            Ok(b) => append_bytes(&mut out, b),
            Err(m) => {
                return Err(ScandirError::other(m));
            },
        }
        Ok(out)
    }

    /// The table in `bincode`'s legacy binary form.
    pub fn to_bincode(&self) -> (r: Result<Vec<u8>, ScandirError>)
        ensures
            match r {
                Ok(b) => b@ == bincode_toc(self@),
                Err(_) => false,
            },
    {
        let mut out: Vec<u8> = Vec::new();
        assert(out@ =~= Seq::<u8>::empty());
        match bincode_encode_strings(&self.dirs) {
            Ok(b) => append_bytes(&mut out, b),
            Err(m) => {
                return Err(ScandirError::other(m));
            },
        }
        match bincode_encode_strings(&self.files) {
            Ok(b) => append_bytes(&mut out, b),
            Err(m) => {
                return Err(ScandirError::other(m));
            },
        }
        match bincode_encode_strings(&self.symlinks) {
            Ok(b) => append_bytes(&mut out, b),
            Err(m) => {
                return Err(ScandirError::other(m));
            },
        }
        match bincode_encode_strings(&self.other) {
            Ok(b) => append_bytes(&mut out, b),
            Err(m) => {
                return Err(ScandirError::other(m));
            },
        }
        match bincode_encode_strings(&self.errors) {
            Ok(b) => append_bytes(&mut out, b),
            Err(m) => {
                return Err(ScandirError::other(m));
            },
        }
        Ok(out)
    }
}

/// The texts joined with `,` between them.
pub open spec fn join_commas(parts: Seq<Seq<char>>) -> Seq<char>
    decreases parts.len(),
{
    if parts.len() == 0 {
        Seq::empty()
    } else if parts.len() == 1 {
        parts[0]
    } else {
        join_commas(parts.drop_last()) + ","@ + parts.last()
    }
}

/// `speedy`'s form of a list of (key, table) listings: the count as a
/// little-endian `u32`, then each key and table.
pub open spec fn speedy_listings(s: Seq<(Seq<char>, TocView)>) -> Seq<u8> {
    le_bytes(s.len(), 4) + concat_all(
        s.map_values(|e: (Seq<char>, TocView)| speedy_string(e.0) + speedy_toc(e.1)),
    )
}

/// `bincode`'s legacy form of a list of listings: the count as a
/// little-endian `u64`, then each key and table.
pub open spec fn bincode_listings(s: Seq<(Seq<char>, TocView)>) -> Seq<u8> {
    le_bytes(s.len(), 8) + concat_all(
        s.map_values(|e: (Seq<char>, TocView)| bincode_string(e.0) + bincode_toc(e.1)),
    )
}

/// A listing as a JSON array of its key and its table.
pub open spec fn json_listing(e: (Seq<char>, TocView)) -> Seq<char> {
    "["@ + json_string(e.0) + ","@ + json_toc(e.1) + "]"@
}

/// A list of listings as a JSON array.
pub open spec fn json_listings(s: Seq<(Seq<char>, TocView)>) -> Seq<char> {
    "["@ + join_commas(s.map_values(|e: (Seq<char>, TocView)| json_listing(e))) + "]"@
}

/// Whether every length in a list of listings fits `speedy`'s `u32` fields.
pub open spec fn speedy_listings_fit(s: Seq<(Seq<char>, TocView)>) -> bool {
    &&& s.len() <= u32::MAX
    &&& forall|i: int| 0 <= i < s.len() ==> byte_len((#[trigger] s[i]).0) <= u32::MAX && speedy_toc_fits(s[i].1)
}

/// The listings in `speedy`'s binary form. Fails when a count or a length is
/// too long for its `u32` field.
pub fn listings_to_speedy(entries: &Vec<(String, Toc)>) -> (r: Result<Vec<u8>, ScandirError>)
    requires
        speedy_listings(listing_views(entries@)).len() <= usize::MAX,
    ensures
        match r {
            Ok(b) => speedy_listings_fit(listing_views(entries@)) && b@ == speedy_listings(listing_views(entries@)),
            Err(_) => !speedy_listings_fit(listing_views(entries@)),
        },
{
    let ghost v = listing_views(entries@);
    let ghost parts = v.map_values(|e: (Seq<char>, TocView)| speedy_string(e.0) + speedy_toc(e.1));
    if entries.len() > 0xffff_ffff {
        return Err(ScandirError::other(String::from_str("out of range length")));
    }
    let mut out = le_bytes_of(entries.len() as u64, 4);
    proof {
        lemma_concat_all_prefix_len(parts, 0);
    }
    for i in 0..entries.len()
        invariant
            v == listing_views(entries@),
            parts == v.map_values(|e: (Seq<char>, TocView)| speedy_string(e.0) + speedy_toc(e.1)),
            speedy_listings(v).len() <= usize::MAX,
            v.len() <= u32::MAX,
            forall|k: int| 0 <= k < i ==> byte_len((#[trigger] v[k]).0) <= u32::MAX && speedy_toc_fits(v[k].1),
            out@ == le_bytes(v.len(), 4) + concat_all(parts.take(i as int)),
    {
        let (key, toc) = &entries[i];
        assert(parts.take(i + 1).drop_last() =~= parts.take(i as int));
        proof {
            lemma_concat_all_prefix_len(parts, i as int);
            assert(v[i as int] == (key@, toc@));
            assert(parts[i as int] == speedy_string(key@) + speedy_toc(toc@));
        }
        match speedy_entry(key, toc) {
            Ok(b) => append_bytes(&mut out, b),
            Err(e) => {
                return Err(e);
            },
        }
        assert(out@ =~= le_bytes(v.len(), 4) + concat_all(parts.take(i + 1)));
    }
    assert(parts.take(parts.len() as int) =~= parts);
    Ok(out)
}

fn speedy_entry(key: &String, toc: &Toc) -> (r: Result<Vec<u8>, ScandirError>)
    requires
        speedy_toc(toc@).len() <= usize::MAX,
    ensures
        match r {
            Ok(b) => byte_len(key@) <= u32::MAX && speedy_toc_fits(toc@) && b@ == speedy_string(key@)
                + speedy_toc(toc@),
            Err(_) => !(byte_len(key@) <= u32::MAX && speedy_toc_fits(toc@)),
        },
{
    let mut out = match speedy_write_string(key) {
        Ok(b) => b,
        Err(m) => {
            return Err(ScandirError::other(m));
        },
    };
    match toc.to_speedy() {
        Ok(b) => append_bytes(&mut out, b),
        Err(e) => {
            return Err(e);
        },
    }
    Ok(out)
}

/// The length of the parts before `k` is at most that of all parts.
proof fn lemma_concat_all_prefix_len(parts: Seq<Seq<u8>>, k: int)
    requires
        0 <= k <= parts.len(),
    ensures
        concat_all(parts.take(k)).len() <= concat_all(parts).len(),
        k < parts.len() ==> concat_all(parts.take(k)).len() + parts[k].len() <= concat_all(parts).len(),
    decreases parts.len(),
{
    if k == parts.len() {
        assert(parts.take(k) =~= parts);
    } else {
        assert(parts.drop_last().take(k) =~= parts.take(k));
        lemma_concat_all_prefix_len(parts.drop_last(), k);
        if k == parts.len() - 1 {
            assert(parts.take(k) =~= parts.drop_last());
        } else {
            assert(parts.drop_last()[k] == parts[k]);
        }
    }
}

/// The listings in `bincode`'s legacy binary form.
pub fn listings_to_bincode(entries: &Vec<(String, Toc)>) -> (r: Result<Vec<u8>, ScandirError>)
    ensures
        match r {
            Ok(b) => b@ == bincode_listings(listing_views(entries@)),
            Err(_) => false,
        },
{
    let ghost v = listing_views(entries@);
    let ghost parts = v.map_values(|e: (Seq<char>, TocView)| bincode_string(e.0) + bincode_toc(e.1));
    let mut out = le_bytes_of(entries.len() as u64, 8);
    for i in 0..entries.len()
        invariant
            v == listing_views(entries@),
            parts == v.map_values(|e: (Seq<char>, TocView)| bincode_string(e.0) + bincode_toc(e.1)),
            out@ == le_bytes(v.len(), 8) + concat_all(parts.take(i as int)),
    {
        let (key, toc) = &entries[i];
        assert(parts.take(i + 1).drop_last() =~= parts.take(i as int));
        match bincode_encode_string(key) {
            Ok(b) => append_bytes(&mut out, b),
            Err(m) => {
                return Err(ScandirError::other(m));
            },
        }
        match toc.to_bincode() {
            Ok(b) => append_bytes(&mut out, b),
            Err(e) => {
                return Err(e);
            },
        }
        assert(out@ =~= le_bytes(v.len(), 8) + concat_all(parts.take(i + 1)));
    }
    assert(parts.take(parts.len() as int) =~= parts);
    Ok(out)
}

/// The listings as a JSON array of [key, table] arrays.
pub fn listings_to_json(entries: &Vec<(String, Toc)>) -> (r: Result<String, ScandirError>)
    ensures
        match r {
            Ok(s) => s@ == json_listings(listing_views(entries@)),
            Err(_) => false,
        },
{
    let ghost v = listing_views(entries@);
    let ghost parts = v.map_values(|e: (Seq<char>, TocView)| json_listing(e));
    let mut body = String::new();
    for i in 0..entries.len()
        invariant
            v == listing_views(entries@),
            parts == v.map_values(|e: (Seq<char>, TocView)| json_listing(e)),
            body@ == join_commas(parts.take(i as int)),
    {
        let (key, toc) = &entries[i];
        assert(parts.take(i + 1).drop_last() =~= parts.take(i as int));
        let key_json = match json_encode_string(key) {
            Ok(j) => j,
            Err(m) => {
                return Err(ScandirError::other(m));
            },
        };
        let toc_json = match toc.to_json() {
            Ok(j) => j,
            Err(e) => {
                return Err(e);
            },
        };
        if i > 0 {
            body.append(",");
        }
        body.append("[");
        body.append(key_json.as_str());
        body.append(",");
        body.append(toc_json.as_str());
        body.append("]");
        assert(body@ =~= join_commas(parts.take(i + 1)));
    }
    assert(parts.take(parts.len() as int) =~= parts);
    let mut out = String::new();
    out.append("[");
    out.append(body.as_str());
    out.append("]");
    assert(out@ =~= json_listings(v));
    Ok(out)
}

} // verus!
