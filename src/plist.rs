//! Pieces of the property-list text: escaped character data and wrapped
//! base64 blocks.
use base64::engine::general_purpose;
use base64::Engine;
use vstd::prelude::*;

verus! {

/// The replacement text of one character inside markup character data.
pub open spec fn escape_char(c: char) -> Seq<char> {
    if c == '&' {
        "&amp;"@
    } else if c == '<' {
        "&lt;"@
    } else if c == '>' {
        "&gt;"@
    } else if c == '"' {
        "&quot;"@
    } else if c == '\'' {
        "&apos;"@
    } else {
        seq![c]
    }
}

/// `s` with each of the five markup special characters replaced by its entity.
pub open spec fn escape_text(s: Seq<char>) -> Seq<char>
    decreases s.len(),
{
    if s.len() == 0 {
        Seq::empty()
    } else {
        escape_text(s.drop_last()) + escape_char(s.last())
    }
}

/// What separates two lines of a base64 block: a newline and the indentation
/// of a per-font dictionary's values.
pub open spec fn data_line_break() -> Seq<char> {
    "\n        "@
}

/// The width of one line of a base64 block.
pub const DATA_LINE_WIDTH: usize = 64;

/// `s` cut into lines of `DATA_LINE_WIDTH` characters (the last one may be
/// shorter), joined by `data_line_break()`.
pub open spec fn wrap_lines(s: Seq<char>) -> Seq<char>
    decreases s.len(),
{
    if s.len() <= DATA_LINE_WIDTH {
        s
    } else {
        s.take(DATA_LINE_WIDTH as int) + (data_line_break() + wrap_lines(
            s.skip(DATA_LINE_WIDTH as int),
        ))
    }
}

/// The characters of the standard base64 alphabet, and the padding `=`.
pub open spec fn is_base64_char(c: char) -> bool {
    ('A' <= c && c <= 'Z') || ('a' <= c && c <= 'z') || ('0' <= c && c <= '9') || c == '+' || c
        == '/' || c == '='
}

/// The standard, padded base64 encoding of a byte sequence.
pub uninterp spec fn base64_of(data: Seq<u8>) -> Seq<char>;

/// The length of the padded base64 encoding of `n` bytes.
pub open spec fn base64_len(n: nat) -> nat {
    4 * ((n + 2) / 3)
}

/// Relies on `base64::engine::general_purpose::STANDARD.encode`: the padded
/// standard encoding, written over the standard alphabet and `=`, four
/// characters per started group of three bytes. It panics when that length
/// overflows `usize`.
#[verifier::external_body]
fn encode_standard(data: &[u8]) -> (r: String)
    requires
        base64_len(data@.len()) <= usize::MAX,
    ensures
        r@ == base64_of(data@),
        r@.len() == base64_len(data@.len()),
        forall|i: int| 0 <= i < r@.len() ==> is_base64_char(#[trigger] r@[i]),
{
    general_purpose::STANDARD.encode(data)
}

/// The base64 text of `data`, cut into lines for a `<data>` element.
pub fn wrapped_base64(data: &[u8]) -> (r: String)
    requires
        base64_len(data@.len()) <= usize::MAX,
    ensures
        r@ == wrap_lines(base64_of(data@)),
        strip_line_breaks(r@) == base64_of(data@),
{
    let encoded = encode_standard(data);
    proof {
        lemma_unwrap_wrap_lines(encoded@);
    }
    wrap_text(encoded.as_str())
}

/// Cuts ASCII text into lines of `DATA_LINE_WIDTH` characters.
pub fn wrap_text(s: &str) -> (r: String)
    requires
        s.is_ascii(),
    ensures
        r@ == wrap_lines(s@),
{
    let n = s.unicode_len();
    let mut out = String::new();
    let mut pos: usize = 0;
    let sep = "\n        ";
    assert(s@.skip(0) =~= s@);
    assert(out@ + wrap_lines(s@) =~= wrap_lines(s@));
    while n - pos > DATA_LINE_WIDTH
        invariant
            n == s@.len(),
            pos <= n,
            s.is_ascii(),
            sep@ == data_line_break(),
            wrap_lines(s@) == out@ + wrap_lines(s@.skip(pos as int)),
        decreases n - pos,
    {
        let ghost rest = s@.skip(pos as int);
        let ghost before = out@;
        out.append(s.substring_ascii(pos, pos + DATA_LINE_WIDTH));
        out.append(sep);
        proof {
            assert(rest.skip(DATA_LINE_WIDTH as int) =~= s@.skip(pos + DATA_LINE_WIDTH));
            assert(rest.take(DATA_LINE_WIDTH as int) =~= s@.subrange(
                pos as int,
                pos + DATA_LINE_WIDTH,
            ));
            let w = wrap_lines(s@.skip(pos + DATA_LINE_WIDTH));
            assert(before + (rest.take(DATA_LINE_WIDTH as int) + (data_line_break() + w)) =~= out@
                + w);
        }
        pos = pos + DATA_LINE_WIDTH;
    }
    let ghost before = out@;
    out.append(s.substring_ascii(pos, n));
    assert(s@.skip(pos as int) =~= s@.subrange(pos as int, n as int));
    out
}

/// Replaces the five markup special characters of `s` by their entities.
pub fn escape_markup(s: &str) -> (r: String)
    ensures
        r@ == escape_text(s@),
{
    let n = s.unicode_len();
    let mut out = String::new();
    let mut i: usize = 0;
    while i < n
        invariant
            n == s@.len(),
            i <= n,
            out@ == escape_text(s@.take(i as int)),
        decreases n - i,
    {
        let c = s.get_char(i);
        let ghost before = out@;
        if c == '&' {
            out.append("&amp;");
        } else if c == '<' {
            out.append("&lt;");
        } else if c == '>' {
            out.append("&gt;");
        } else if c == '"' {
            out.append("&quot;");
        } else if c == '\'' {
            out.append("&apos;");
        } else {
            out.append(s.substring_char(i, i + 1));
            assert(s@.subrange(i as int, i + 1) =~= seq![c]);
        }
        assert(s@.take(i + 1).drop_last() =~= s@.take(i as int));
        assert(s@.take(i + 1).last() == c);
        i = i + 1;
    }
    assert(s@.take(n as int) =~= s@);
    out
}

pub open spec fn is_line_break_char(c: char) -> bool {
    c == '\n' || c == ' '
}

/// `s` without its newlines and spaces.
pub open spec fn strip_line_breaks(s: Seq<char>) -> Seq<char>
    decreases s.len(),
{
    if s.len() == 0 {
        Seq::empty()
    } else {
        strip_line_breaks(s.drop_last()) + if is_line_break_char(s.last()) {
            Seq::empty()
        } else {
            seq![s.last()]
        }
    }
}

proof fn lemma_strip_add(a: Seq<char>, b: Seq<char>)
    ensures
        strip_line_breaks(a + b) == strip_line_breaks(a) + strip_line_breaks(b),
    decreases b.len(),
{
    if b.len() == 0 {
        assert(a + b =~= a);
        assert(strip_line_breaks(a) + strip_line_breaks(b) =~= strip_line_breaks(a));
    } else {
        lemma_strip_add(a, b.drop_last());
        assert((a + b).drop_last() =~= a + b.drop_last());
        assert((a + b).last() == b.last());
        let tail = if is_line_break_char(b.last()) {
            Seq::empty()
        } else {
            seq![b.last()]
        };
        assert(strip_line_breaks(a) + strip_line_breaks(b.drop_last()) + tail =~= strip_line_breaks(
            a,
        ) + (strip_line_breaks(b.drop_last()) + tail));
    }
}

proof fn lemma_strip_plain(s: Seq<char>)
    requires
        forall|i: int| 0 <= i < s.len() ==> !is_line_break_char(#[trigger] s[i]),
    ensures
        strip_line_breaks(s) == s,
    decreases s.len(),
{
    if s.len() > 0 {
        lemma_strip_plain(s.drop_last());
        assert(!is_line_break_char(s[s.len() - 1]));
        assert(s.drop_last().push(s.last()) =~= s);
        assert(s.drop_last() + seq![s.last()] =~= s);
    }
}

/// Cutting base64 text into lines loses nothing: with the line breaks and
/// indentation taken out, the block is the encoded text again.
pub proof fn lemma_unwrap_wrap_lines(s: Seq<char>)
    requires
        forall|i: int| 0 <= i < s.len() ==> is_base64_char(#[trigger] s[i]),
    ensures
        strip_line_breaks(wrap_lines(s)) == s,
    decreases s.len(),
{
    if s.len() <= DATA_LINE_WIDTH {
        lemma_strip_plain(s);
    } else {
        let head = s.take(DATA_LINE_WIDTH as int);
        let rest = s.skip(DATA_LINE_WIDTH as int);
        assert forall|i: int| 0 <= i < rest.len() implies is_base64_char(#[trigger] rest[i]) by {
            assert(rest[i] == s[i + DATA_LINE_WIDTH]);
        }
        lemma_unwrap_wrap_lines(rest);
        assert forall|i: int| 0 <= i < head.len() implies !is_line_break_char(#[trigger] head[i]) by {
            assert(head[i] == s[i]);
            assert(is_base64_char(s[i]));
        }
        lemma_strip_plain(head);
        reveal_strlit("\n        ");
        let br = data_line_break();
        assert(strip_line_breaks(br) =~= Seq::<char>::empty()) by {
            reveal_with_fuel(strip_line_breaks, 10);
        }
        lemma_strip_add(br, wrap_lines(rest));
        lemma_strip_add(head, br + wrap_lines(rest));
        assert(head + rest =~= s);
        assert(Seq::<char>::empty() + rest =~= rest);
    }
}

} // verus!
