use vstd::prelude::*;
use vstd::utf8::*;
use vstd::string::StringSliceAdditionalSpecFns;

verus! {

/// The UTF-8 bytes of a character sequence.
pub open spec fn utf8_of(s: Seq<char>) -> Seq<u8> {
    encode_utf8(s)
}

/// Byte length of the UTF-8 form of `s`.
pub open spec fn byte_len(s: Seq<char>) -> nat {
    encode_utf8(s).len()
}

/// Whether the UTF-8 form of `s` ends with the byte `b`.
pub open spec fn ends_with_byte(s: Seq<char>, b: u8) -> bool {
    let bytes = encode_utf8(s);
    bytes.len() > 0 && bytes.last() == b
}

/// The byte `/`.
pub open spec fn slash_byte() -> u8 {
    0x2f
}

/// The length, in bytes, of the prefix that a path below `root` starts with:
/// the root path itself plus one separator, unless the root already ends in one.
pub open spec fn root_prefix_len(root: Seq<char>) -> nat {
    if ends_with_byte(root, slash_byte()) {
        byte_len(root)
    } else {
        byte_len(root) + 1
    }
}

/// Whether `s` ends with `/` (checked on its bytes).
pub fn ends_with_slash(s: &str) -> (r: bool)
    ensures
        r == ends_with_byte(s@, slash_byte()),
{
    let bytes = s.as_bytes();
    let n = bytes.len();
    n > 0 && bytes[n - 1] == 0x2f
}

/// Length of the root-path prefix (root path plus separator) that is cut
/// from every path found below the root.
pub fn get_root_path_len(root_path: &str) -> (r: usize)
    requires
        byte_len(root_path@) < usize::MAX,
    ensures
        r == root_prefix_len(root_path@),
{
    let n = root_path.len();
    if ends_with_slash(root_path) {
        n
    } else {
        n + 1
    }
}

/// The part of `s` after its first `start` bytes, when `start` falls on a
/// character boundary (what `str::get(start..)` gives).
pub open spec fn str_suffix(s: Seq<char>, start: int) -> Option<Seq<char>> {
    if is_char_boundary(utf8_of(s), start) {
        Some(decode_utf8(utf8_of(s).skip(start)))
    } else {
        None
    }
}

/// `s.get(start..)`.
pub fn suffix_from(s: &str, start: usize) -> (r: Option<&str>)
    ensures
        match r {
            Some(t) => str_suffix(s@, start as int) == Some(t@),
            None => str_suffix(s@, start as int) is None,
        },
{
    broadcast use vstd::utf8::encode_utf8_decode_utf8, vstd::utf8::encode_utf8_valid_utf8;

    if s.is_char_boundary(start) {
        let (_, tail) = s.split_at(start);
        assert(tail.spec_bytes() =~= utf8_of(s@).skip(start as int));
        Some(tail)
    } else {
        None
    }
}

/// The UTF-8 form of a concatenation is the concatenation of the forms.
pub proof fn lemma_utf8_concat(a: Seq<char>, b: Seq<char>)
    ensures
        utf8_of(a + b) == utf8_of(a) + utf8_of(b),
    decreases a.len(),
{
    if a.len() == 0 {
        assert(a + b =~= b);
        assert(utf8_of(a) + utf8_of(b) =~= utf8_of(b));
    } else {
        assert((a + b).drop_first() =~= a.drop_first() + b);
        assert((a + b)[0] == a[0]);
        lemma_utf8_concat(a.drop_first(), b);
        assert(utf8_of(a + b) =~= utf8_of(a) + utf8_of(b));
    }
}

/// The end of the UTF-8 form of `a` is a character boundary of that of `a + b`.
pub proof fn lemma_boundary_after(a: Seq<char>, b: Seq<char>)
    ensures
        is_char_boundary(utf8_of(a + b), byte_len(a) as int),
    decreases a.len(),
{
    broadcast use vstd::utf8::encode_utf8_valid_utf8;

    if a.len() > 0 {
        let chars = a + b;
        let bytes = utf8_of(chars);
        lemma_utf8_concat(a, b);
        encode_utf8_first_scalar(chars);
        assert(chars[0] == a[0]);
        assert(chars.drop_first() =~= a.drop_first() + b);
        assert(pop_first_scalar(bytes) =~= utf8_of(chars.drop_first()));
        lemma_boundary_after(a.drop_first(), b);
        assert(byte_len(a) == encode_scalar(a[0] as u32).len() + byte_len(a.drop_first()));
    }
}

/// The slash is one byte, `0x2f`.
pub proof fn lemma_utf8_slash()
    ensures
        utf8_of(seq!['/']) == seq![0x2fu8],
{
    reveal_with_fuel(encode_utf8, 2);
    assert(('/' as u32) == 0x2f);
    assert(has_width_1_encoding(0x2f));
    assert(leading_byte_width_1(0x2f) == 0x2f) by (bit_vector);
    assert(seq!['/'].drop_first() =~= Seq::<char>::empty());
    assert(utf8_of(seq!['/']) =~= seq![0x2fu8]);
}

/// Cutting the first `byte_len(a)` bytes off `a + b` leaves `b`.
pub proof fn lemma_suffix_after(a: Seq<char>, b: Seq<char>)
    ensures
        str_suffix(a + b, byte_len(a) as int) == Some(b),
{
    broadcast use vstd::utf8::encode_utf8_decode_utf8;

    lemma_utf8_concat(a, b);
    lemma_boundary_after(a, b);
    assert(utf8_of(a + b).skip(byte_len(a) as int) =~= utf8_of(b));
}

/// `a`, then `/`, then `b`.
pub fn join_with_slash(a: &str, b: &str) -> (r: String)
    ensures
        r@ == a@ + seq!['/'] + b@,
{
    let mut r = a.to_owned();
    r.append("/");
    r.append(b);
    proof {
        reveal_strlit("/");
    }
    r
}

} // verus!
