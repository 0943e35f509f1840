//! ASCII text: the byte view that the grammars read, and building output strings.

use vstd::prelude::*;

verus! {

/// The bytes of an ASCII text, one per character.
pub open spec fn ascii_bytes(s: Seq<char>) -> Seq<u8> {
    Seq::new(s.len(), |i: int| s[i] as u8)
}

/// The characters of an ASCII byte sequence, one per byte.
pub open spec fn bytes_text(b: Seq<u8>) -> Seq<char> {
    Seq::new(b.len(), |i: int| b[i] as char)
}

/// Every character of the text is ASCII.
pub open spec fn is_ascii_text(s: Seq<char>) -> bool {
    vstd::utf8::is_ascii_chars(s)
}

/// Every byte is ASCII (below 128).
pub open spec fn is_ascii_bytes(b: Seq<u8>) -> bool {
    forall|i: int| 0 <= i < b.len() ==> #[trigger] b[i] < 128
}

/// An ASCII text is the characters of its own bytes.
pub proof fn lemma_ascii_roundtrip(s: Seq<char>)
    requires
        is_ascii_text(s),
    ensures
        bytes_text(ascii_bytes(s)) == s,
        is_ascii_bytes(ascii_bytes(s)),
{
    assert forall|i: int| 0 <= i < s.len() implies (#[trigger] bytes_text(ascii_bytes(s))[i]) == s[i] by {
        let c = s[i];
        assert('\0' <= c <= '\u{7f}');
        assert(((c as u8) as char) == c);
    }
    assert(bytes_text(ascii_bytes(s)) =~= s);
}

/// The bytes of `s` when it is ASCII, and `None` when it is not.
pub fn ascii_input(s: &str) -> (r: Option<&[u8]>)
    ensures
        r is Some <==> is_ascii_text(s@),
        r matches Some(b) ==> b@ == ascii_bytes(s@),
{
    if s.is_ascii() {
        let b = s.as_bytes();
        proof {
            vstd::string::is_ascii_spec_bytes(s);
            assert(b@ =~= ascii_bytes(s@));
        }
        Some(b)
    } else {
        None
    }
}

/// A byte that is one of the EDTF characters.
pub open spec fn is_edtf_byte(b: u8) -> bool {
    (48 <= b <= 57) || b == 45 || b == 47 || b == 46 || b == 88 || b == 63 || b == 126
        || b == 37 || b == 84 || b == 58 || b == 90 || b == 43 || b == 89 || b == 69 || b == 83
}

/// Every byte is an EDTF character.
pub open spec fn all_edtf_bytes(b: Seq<u8>) -> bool {
    forall|i: int| 0 <= i < b.len() ==> is_edtf_byte(#[trigger] b[i])
}

/// Appends the character of one EDTF byte to a string.
pub fn push_byte(out: &mut String, b: u8)
    requires
        is_edtf_byte(b),
    ensures
        final(out)@ == old(out)@.push(b as char),
{
    let a = "0123456789-/.X?~%T:Z+YES";
    proof {
        reveal_strlit("0123456789-/.X?~%T:Z+YES");
    }
    let i: usize = if 48 <= b && b <= 57 {
        (b - 48) as usize
    } else if b == 45 {
        10
    } else if b == 47 {
        11
    } else if b == 46 {
        12
    } else if b == 88 {
        13
    } else if b == 63 {
        14
    } else if b == 126 {
        15
    } else if b == 37 {
        16
    } else if b == 84 {
        17
    } else if b == 58 {
        18
    } else if b == 90 {
        19
    } else if b == 43 {
        20
    } else if b == 89 {
        21
    } else if b == 69 {
        22
    } else {
        23
    };
    assert(a@[i as int] == b as char);
    let piece = a.substring_ascii(i, i + 1);
    out.append(piece);
    assert(piece@ =~= seq![b as char]);
}

/// The text of a sequence of EDTF bytes.
pub fn bytes_to_string(b: &Vec<u8>) -> (r: String)
    requires
        all_edtf_bytes(b@),
    ensures
        r@ == bytes_text(b@),
{
    let mut out = String::new();
    let mut i: usize = 0;
    while i < b.len()
        invariant
            i <= b.len(),
            all_edtf_bytes(b@),
            out@ =~= bytes_text(b@.subrange(0, i as int)),
        decreases b.len() - i,
    {
        push_byte(&mut out, b[i]);
        i = i + 1;
        assert(bytes_text(b@.subrange(0, i as int)) =~= bytes_text(b@.subrange(0, i - 1)).push(b@[i - 1] as char));
    }
    assert(b@.subrange(0, b.len() as int) =~= b@);
    out
}

} // verus!
