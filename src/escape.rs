//! Tag-value escaping of IRCv3: `\s` for a space, `\:` for `;`, `\\` for
//! `\`, `\r` and `\n` for CR and LF.
use std::borrow::Cow;
use vstd::prelude::*;
use vstd::utf8::{encode_scalar, encode_utf8};

verus! {

/// What the escape `\c` stands for: any other character stands for itself.
pub open spec fn unescape_char(c: char) -> char {
    if c == 's' {
        ' '
    } else if c == ':' {
        ';'
    } else if c == 'r' {
        '\r'
    } else if c == 'n' {
        '\n'
    } else {
        c
    }
}

/// The text that the escaped value `s` stands for. A `\` before any other
/// character is dropped; so is a `\` at the very end.
pub open spec fn unescape_chars(s: Seq<char>) -> Seq<char>
    decreases s.len(),
{
    if s.len() == 0 {
        Seq::empty()
    } else if s[0] == '\\' {
        if s.len() == 1 {
            Seq::empty()
        } else {
            seq![unescape_char(s[1])] + unescape_chars(s.subrange(2, s.len() as int))
        }
    } else {
        seq![s[0]] + unescape_chars(s.drop_first())
    }
}

/// How the character `c` is written in an escaped value.
pub open spec fn escape_char(c: char) -> Seq<char> {
    if c == ' ' {
        seq!['\\', 's']
    } else if c == ';' {
        seq!['\\', ':']
    } else if c == '\\' {
        seq!['\\', '\\']
    } else if c == '\r' {
        seq!['\\', 'r']
    } else if c == '\n' {
        seq!['\\', 'n']
    } else {
        seq![c]
    }
}

/// The escaped form of the text `s`.
pub open spec fn escape_chars(s: Seq<char>) -> Seq<char>
    decreases s.len(),
{
    if s.len() == 0 {
        Seq::empty()
    } else {
        escape_char(s[0]) + escape_chars(s.drop_first())
    }
}

/// The characters of `s` in order.
fn chars_of(s: &str) -> (r: Vec<char>)
    ensures
        r@ == s@,
{
    let mut out: Vec<char> = Vec::new();
    for c in it: s.chars()
        invariant
            it.seq() == s@,
            out@ == it.seq().subrange(0, it.index() as int),
    {
        out.push(c);
    }
    out
}

/// Relies on `String`'s `FromIterator<&char>`: the text of the characters
/// `cs` in order.
#[verifier::external_body]
fn string_of(cs: &Vec<char>) -> (r: String)
    ensures
        r@ == cs@,
{
    cs.iter().collect()
}

/// Whether a byte string holds a `\`.
fn has_backslash(b: &[u8]) -> (r: bool)
    ensures
        r == b@.contains(0x5cu8),
{
    let mut i: usize = 0;
    while i < b.len()
        invariant
            i <= b@.len(),
            forall|j: int| 0 <= j < i ==> b@[j] != 0x5cu8,
        decreases b@.len() - i,
    {
        if b[i] == 0x5c {
            assert(b@[i as int] == 0x5cu8);
            return true;
        }
        i += 1;
    }
    false
}

/// A text with a `\` has the byte `0x5c` in its UTF-8 encoding.
proof fn lemma_backslash_byte(cs: Seq<char>)
    requires
        cs.contains('\\'),
    ensures
        encode_utf8(cs).contains(0x5cu8),
    decreases cs.len(),
{
    let e = encode_scalar(cs[0] as u32);
    let rest = cs.drop_first();
    assert(encode_utf8(cs) == e + encode_utf8(rest));
    if cs[0] == '\\' {
        let v = cs[0] as u32;
        assert(v == 92);
        assert(v == 92 ==> (v & 0x7f) as u8 == 0x5cu8) by (bit_vector);
        assert(encode_utf8(cs)[0] == 0x5cu8);
    } else {
        let k = choose|k: int| 0 <= k < cs.len() && cs[k] == '\\';
        assert(rest[k - 1] == '\\');
        lemma_backslash_byte(rest);
        let j = choose|j: int| 0 <= j < encode_utf8(rest).len() && encode_utf8(rest)[j] == 0x5cu8;
        assert(encode_utf8(cs)[e.len() + j] == 0x5cu8);
    }
}

/// The text that the escaped tag value `s` stands for: `s` itself, borrowed,
/// when it holds no `\`.
pub fn unescape<'a>(s: &'a str) -> (r: Cow<'a, str>)
    ensures
        r@ == unescape_chars(s@),
{
    if !has_backslash(s.as_bytes()) {
        proof {
            if s@.contains('\\') {
                lemma_backslash_byte(s@);
            }
            lemma_unescape_plain(s@);
        }
        return Cow::Borrowed(s);
    }
    let cs = chars_of(s);
    let mut out: Vec<char> = Vec::new();
    let mut i: usize = 0;
    proof {
        assert(cs@.subrange(0, cs@.len() as int) =~= cs@);
        assert(out@ + unescape_chars(cs@) =~= unescape_chars(cs@));
    }
    while i < cs.len()
        invariant
            i <= cs@.len(),
            unescape_chars(cs@) == out@ + unescape_chars(cs@.subrange(i as int, cs@.len() as int)),
        decreases cs@.len() - i,
    {
        let ghost rest = cs@.subrange(i as int, cs@.len() as int);
        let c = cs[i];
        if c == '\\' {
            if i + 1 < cs.len() {
                let d = cs[i + 1];
                let u = if d == 's' {
                    ' '
                } else if d == ':' {
                    ';'
                } else if d == 'r' {
                    '\r'
                } else if d == 'n' {
                    '\n'
                } else {
                    d
                };
                out.push(u);
                proof {
                    assert(rest.subrange(2, rest.len() as int) =~= cs@.subrange(
                        i + 2,
                        cs@.len() as int,
                    ));
                    assert(out@ + unescape_chars(cs@.subrange(i + 2, cs@.len() as int))
                        =~= out@.drop_last() + unescape_chars(rest));
                }
                i += 2;
            } else {
                proof {
                    assert(cs@.subrange(i + 1, cs@.len() as int) =~= Seq::<char>::empty());
                    assert(out@ + unescape_chars(cs@.subrange(i + 1, cs@.len() as int))
                        =~= out@ + unescape_chars(rest));
                }
                i += 1;
            }
        } else {
            out.push(c);
            proof {
                assert(rest.drop_first() =~= cs@.subrange(i + 1, cs@.len() as int));
                assert(out@ + unescape_chars(cs@.subrange(i + 1, cs@.len() as int))
                    =~= out@.drop_last() + unescape_chars(rest));
            }
            i += 1;
        }
    }
    proof {
        assert(cs@.subrange(i as int, cs@.len() as int) =~= Seq::<char>::empty());
        assert(out@ + Seq::<char>::empty() =~= out@);
    }
    Cow::Owned(string_of(&out))
}

/// The escaped form of the text `s`.
pub fn escape(s: &str) -> (r: String)
    ensures
        r@ == escape_chars(s@),
{
    let cs = chars_of(s);
    let mut out: Vec<char> = Vec::new();
    let mut i: usize = 0;
    while i < cs.len()
        invariant
            i <= cs@.len(),
            out@ == escape_chars(cs@.subrange(0, i as int)),
        decreases cs@.len() - i,
    {
        let c = cs[i];
        let ghost before = out@;
        if c == ' ' {
            out.push('\\');
            out.push('s');
        } else if c == ';' {
            out.push('\\');
            out.push(':');
        } else if c == '\\' {
            out.push('\\');
            out.push('\\');
        } else if c == '\r' {
            out.push('\\');
            out.push('r');
        } else if c == '\n' {
            out.push('\\');
            out.push('n');
        } else {
            out.push(c);
        }
        proof {
            assert(out@ =~= before + escape_char(c));
            lemma_escape_append(cs@.subrange(0, i as int), c);
            assert(cs@.subrange(0, i as int).push(c) =~= cs@.subrange(0, i + 1));
        }
        i += 1;
    }
    proof {
        assert(cs@.subrange(0, i as int) =~= cs@);
    }
    string_of(&out)
}

/// Escaping a text one character longer appends that character's escape.
pub proof fn lemma_escape_append(s: Seq<char>, c: char)
    ensures
        escape_chars(s.push(c)) == escape_chars(s) + escape_char(c),
    decreases s.len(),
{
    if s.len() == 0 {
        assert(s.push(c).drop_first() =~= Seq::<char>::empty());
        assert(escape_chars(s.push(c).drop_first()) == Seq::<char>::empty());
        assert(escape_chars(s) == Seq::<char>::empty());
        assert(escape_chars(s.push(c)) =~= escape_char(c));
    } else {
        assert(s.push(c).drop_first() =~= s.drop_first().push(c));
        lemma_escape_append(s.drop_first(), c);
        assert(escape_chars(s.push(c)) =~= escape_chars(s) + escape_char(c));
    }
}

/// Unescaping the escaped form of any text gives the text back.
pub proof fn lemma_unescape_escape(x: Seq<char>)
    ensures
        unescape_chars(escape_chars(x)) == x,
    decreases x.len(),
{
    if x.len() > 0 {
        let e = escape_char(x[0]);
        let r = escape_chars(x.drop_first());
        lemma_unescape_escape(x.drop_first());
        let whole = e + r;
        if e.len() == 1 {
            assert(whole.drop_first() =~= r);
        } else {
            assert(whole.subrange(2, whole.len() as int) =~= r);
        }
        assert(unescape_chars(whole) =~= x);
    }
}

/// A text without `\` is its own unescaped form.
pub proof fn lemma_unescape_plain(x: Seq<char>)
    requires
        !x.contains('\\'),
    ensures
        unescape_chars(x) == x,
    decreases x.len(),
{
    if x.len() > 0 {
        assert(x[0] != '\\');
        assert forall|c: char| x.drop_first().contains(c) implies x.contains(c) by {
            let k = choose|k: int| 0 <= k < x.drop_first().len() && x.drop_first()[k] == c;
            assert(x[k + 1] == c);
        }
        lemma_unescape_plain(x.drop_first());
        assert(unescape_chars(x) =~= x);
    }
}

} // verus!
