//! C identifiers made from free text.

use vstd::prelude::*;

verus! {

/// Unicode's `White_Space` property, the whitespace that trimming removes.
pub open spec fn is_white_space(c: char) -> bool {
    let u = c as u32;
    (0x9 <= u <= 0xd) || u == 0x20 || u == 0x85 || u == 0xa0 || u == 0x1680 || (0x2000 <= u
        <= 0x200a) || u == 0x2028 || u == 0x2029 || u == 0x202f || u == 0x205f || u == 0x3000
}

/// `s` without its leading whitespace.
pub open spec fn trim_start(s: Seq<char>) -> Seq<char>
    decreases s.len(),
{
    if s.len() > 0 && is_white_space(s[0]) {
        trim_start(s.drop_first())
    } else {
        s
    }
}

/// `s` without its trailing whitespace.
pub open spec fn trim_end(s: Seq<char>) -> Seq<char>
    decreases s.len(),
{
    if s.len() > 0 && is_white_space(s.last()) {
        trim_end(s.drop_last())
    } else {
        s
    }
}

/// A character that may stand in a generated identifier.
pub open spec fn is_name_char(c: char) -> bool {
    ('a' <= c <= 'z') || ('A' <= c <= 'Z') || c == '_'
}

/// Each space becomes `_`; every other character that is not an ASCII letter
/// or `_` is dropped. Digits are dropped too, wherever they stand.
pub open spec fn clean(s: Seq<char>) -> Seq<char>
    decreases s.len(),
{
    if s.len() == 0 {
        seq![]
    } else {
        let c = s.last();
        clean(s.drop_last()) + if c == ' ' {
            seq!['_']
        } else if is_name_char(c) {
            seq![c]
        } else {
            seq![]
        }
    }
}

/// The identifier made of `raw`: trimmed, then cleaned.
pub open spec fn sanitized(raw: Seq<char>) -> Seq<char> {
    clean(trim_end(trim_start(raw)))
}

/// The upper-case letters in order.
pub open spec fn upper_letters() -> Seq<char> {
    seq![
        'A', 'B', 'C', 'D', 'E', 'F', 'G', 'H', 'I', 'J', 'K', 'L', 'M',
        'N', 'O', 'P', 'Q', 'R', 'S', 'T', 'U', 'V', 'W', 'X', 'Y', 'Z',
    ]
}

/// ASCII upper case: `a` to `z` become `A` to `Z`, the rest stays.
pub open spec fn upper_char(c: char) -> char {
    if 'a' <= c <= 'z' {
        upper_letters()[c as int - 'a' as int]
    } else {
        c
    }
}

pub open spec fn upper(s: Seq<char>) -> Seq<char> {
    s.map_values(|c: char| upper_char(c))
}

/// The name of the constant that holds the sample count of array `name`.
pub open spec fn size_symbol_text(name: Seq<char>) -> Seq<char> {
    upper(name) + "_SAMPLE_NO"@
}

fn white_space(c: char) -> (r: bool)
    ensures
        r == is_white_space(c),
{
    let u = c as u32;
    (0x9 <= u && u <= 0xd) || u == 0x20 || u == 0x85 || u == 0xa0 || u == 0x1680 || (0x2000 <= u
        && u <= 0x200a) || u == 0x2028 || u == 0x2029 || u == 0x202f || u == 0x205f || u == 0x3000
}

/// Makes a C identifier of `raw`: leading and trailing whitespace trimmed,
/// inner spaces turned into `_`, and every character that is not an ASCII
/// letter or `_` removed, digits included.
pub fn sanitize_identifier(raw: &str) -> (r: String)
    ensures
        r@ == sanitized(raw@),
{
    let n = raw.unicode_len();
    let mut lo: usize = 0;
    assert(raw@.subrange(0, n as int) =~= raw@);
    while lo < n && white_space(raw.get_char(lo))
        invariant
            n == raw@.len(),
            lo <= n,
            trim_start(raw@) == trim_start(raw@.subrange(lo as int, n as int)),
        decreases n - lo,
    {
        assert(raw@.subrange(lo as int, n as int).drop_first() =~= raw@.subrange(
            lo + 1,
            n as int,
        ));
        lo = lo + 1;
    }
    let ghost start = trim_start(raw@);
    assert(start =~= raw@.subrange(lo as int, n as int));
    let mut hi: usize = n;
    while hi > lo && white_space(raw.get_char(hi - 1))
        invariant
            n == raw@.len(),
            lo <= hi <= n,
            start == raw@.subrange(lo as int, n as int),
            trim_end(start) == trim_end(raw@.subrange(lo as int, hi as int)),
        decreases hi - lo,
    {
        assert(raw@.subrange(lo as int, hi as int).drop_last() =~= raw@.subrange(
            lo as int,
            hi - 1,
        ));
        hi = hi - 1;
    }
    assert(trim_end(start) =~= raw@.subrange(lo as int, hi as int));
    let mut out = String::new();
    let mut i: usize = lo;
    assert(raw@.subrange(lo as int, lo as int) =~= Seq::<char>::empty());
    while i < hi
        invariant
            n == raw@.len(),
            lo <= i <= hi <= n,
            out@ == clean(raw@.subrange(lo as int, i as int)),
        decreases hi - i,
    {
        let c = raw.get_char(i);
        let ghost before = raw@.subrange(lo as int, i as int);
        assert(raw@.subrange(lo as int, i + 1).drop_last() =~= before);
        if c == ' ' {
            out.append("_");
            proof {
                reveal_strlit("_");
            }
        } else if ('a' <= c && c <= 'z') || ('A' <= c && c <= 'Z') || c == '_' {
            let piece = raw.substring_char(i, i + 1);
            assert(piece@ =~= seq![c]);
            out.append(piece);
        }
        i = i + 1;
    }
    out
}

/// The name in ASCII upper case.
pub fn to_upper(name: &str) -> (r: String)
    ensures
        r@ == upper(name@),
{
    let letters = "ABCDEFGHIJKLMNOPQRSTUVWXYZ";
    proof {
        reveal_strlit("ABCDEFGHIJKLMNOPQRSTUVWXYZ");
    }
    assert(letters@ =~= upper_letters());
    let n = name.unicode_len();
    let mut out = String::new();
    let mut i: usize = 0;
    while i < n
        invariant
            n == name@.len(),
            i <= n,
            letters@ == upper_letters(),
            out@ =~= upper(name@.subrange(0, i as int)),
        decreases n - i,
    {
        let c = name.get_char(i);
        if 'a' <= c && c <= 'z' {
            let k = (c as u32 - 'a' as u32) as usize;
            out.append(letters.substring_ascii(k, k + 1));
        } else {
            out.append(name.substring_char(i, i + 1));
        }
        i = i + 1;
    }
    assert(name@.subrange(0, n as int) =~= name@);
    out
}

/// `<NAME>_SAMPLE_NO`: the constant that holds the sample count of `name`.
pub fn size_symbol(name: &str) -> (r: String)
    ensures
        r@ == size_symbol_text(name@),
{
    let mut out = to_upper(name);
    out.append("_SAMPLE_NO");
    out
}

} // verus!
