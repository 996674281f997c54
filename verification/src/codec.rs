use vstd::prelude::*;
use vstd::string::StrSliceExecFns;
use vstd::utf8::{decode_utf8, encode_utf8, encode_utf8_decode_utf8, encode_utf8_valid_utf8, valid_utf8};

verus! {

/// Characters that the fallback decoder yields for the given raw bytes; total
/// and determined by the bytes alone.
pub uninterp spec fn fallback_chars(bytes: Seq<u8>) -> Seq<char>;

/// Relies on encoding_rs's `Encoding::decode` on the GBK encoding: decoding is
/// total (malformed sequences become replacement characters, a leading byte
/// order mark switches the encoding), and the result depends on the input
/// bytes alone.
#[verifier::external_body]
fn gbk_decode(bytes: &Vec<u8>) -> (r: String)
    ensures
        r@ == fallback_chars(bytes@),
{
    let (text, _, _) = encoding_rs::GBK.decode(bytes.as_slice());
    text.into_owned()
}

/// Relies on alloc's `String::from_utf8`: it succeeds exactly on valid UTF-8
/// input and then yields the UTF-8 decoding of the bytes, as vstd's
/// `decode_utf8` states it.
#[verifier::external_body]
fn utf8_decode(bytes: &Vec<u8>) -> (r: Option<String>)
    ensures
        r is Some <==> valid_utf8(bytes@),
        r matches Some(s) ==> s@ == decode_utf8(bytes@),
{
    match String::from_utf8(bytes.clone()) {
        Ok(s) => Some(s),
        Err(_) => None,
    }
}

/// Relies on alloc's `String::push`: it appends the given character.
pub assume_specification[ String::push ](s: &mut String, ch: char)
    ensures
        final(s)@ == old(s)@.push(ch),
;

/// The given character as it is displayed: a horizontal tab widens to four
/// spaces, anything else stands for itself.
pub open spec fn display_chars(c: char) -> Seq<char> {
    if c == '\t' {
        seq![' ', ' ', ' ', ' ']
    } else {
        seq![c]
    }
}

/// The text with every horizontal tab replaced by four spaces.
pub open spec fn tabs_to_spaces(s: Seq<char>) -> Seq<char>
    decreases s.len(),
{
    if s.len() == 0 {
        Seq::empty()
    } else {
        tabs_to_spaces(s.drop_last()) + display_chars(s.last())
    }
}

/// The text that loading yields for the given raw file bytes: the strict
/// UTF-8 decoding when the bytes are valid UTF-8, the fallback decoding
/// otherwise, with tabs normalized either way.
pub open spec fn loaded_text(bytes: Seq<u8>) -> Seq<char> {
    if valid_utf8(bytes) {
        tabs_to_spaces(decode_utf8(bytes))
    } else {
        tabs_to_spaces(fallback_chars(bytes))
    }
}

/// Replaces every horizontal tab by four spaces, for a consistent display
/// width.
pub fn normalize_tabs(s: &str) -> (r: String)
    ensures
        r@ == tabs_to_spaces(s@),
{
    let n = s.unicode_len();
    let mut out = String::new();
    let mut i: usize = 0;
    while i < n
        invariant
            i <= n,
            n == s@.len(),
            out@ == tabs_to_spaces(s@.take(i as int)),
        decreases n - i,
    {
        let c = s.get_char(i);
        if c == '\t' {
            out.push(' ');
            out.push(' ');
            out.push(' ');
            out.push(' ');
        } else {
            out.push(c);
        }
        i = i + 1;
        proof {
            let pre = s@.take(i - 1);
            let cur = s@.take(i as int);
            assert(cur.drop_last() =~= pre);
            assert(cur.last() == s@[i - 1]);
            assert(out@ =~= tabs_to_spaces(pre) + display_chars(s@[i - 1]));
        }
    }
    proof {
        assert(s@.take(n as int) =~= s@);
    }
    out
}

/// Decodes raw file bytes for display: strict UTF-8 first; when that fails,
/// the total fallback decoding; then tabs become four spaces. Decoding never
/// fails.
pub fn decode_file_bytes(bytes: &Vec<u8>) -> (r: String)
    ensures
        r@ == loaded_text(bytes@),
        valid_utf8(bytes@) ==> r@ == tabs_to_spaces(decode_utf8(bytes@)),
        !valid_utf8(bytes@) ==> r@ == tabs_to_spaces(fallback_chars(bytes@)),
{
    let decoded = match utf8_decode(bytes) {
        Some(s) => s,
        None => gbk_decode(bytes),
    };
    normalize_tabs(decoded.as_str())
}

/// Serializes confirmed text for the write back to disk: its UTF-8 bytes.
pub fn encode_content(content: &str) -> (r: Vec<u8>)
    ensures
        r@ == encode_utf8(content@),
{
    content.as_bytes_vec()
}

/// Tab normalization leaves text without tabs unchanged.
pub proof fn lemma_no_tabs_normalize_identity(s: Seq<char>)
    requires
        !s.contains('\t'),
    ensures
        tabs_to_spaces(s) == s,
    decreases s.len(),
{
    if s.len() == 0 {
        assert(tabs_to_spaces(s) =~= s);
    } else {
        assert(!s.drop_last().contains('\t')) by {
            if s.drop_last().contains('\t') {
                let i = choose|i: int| 0 <= i < s.drop_last().len() && s.drop_last()[i] == '\t';
                assert(s[i] == '\t');
            }
        }
        lemma_no_tabs_normalize_identity(s.drop_last());
        assert(s.last() != '\t') by {
            if s.last() == '\t' {
                assert(s[s.len() - 1] == '\t');
            }
        }
        assert(tabs_to_spaces(s) =~= s);
    }
}

/// Committed text survives a reload: writing text as UTF-8 bytes and loading
/// those bytes yields the text again, provided it holds no tabs (loading
/// normalizes tabs one way).
pub proof fn lemma_commit_load_round_trip(s: Seq<char>)
    requires
        !s.contains('\t'),
    ensures
        loaded_text(encode_utf8(s)) == s,
{
    encode_utf8_valid_utf8(s);
    encode_utf8_decode_utf8(s);
    lemma_no_tabs_normalize_identity(s);
}

} // verus!
