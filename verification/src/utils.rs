use base64::Engine;
use vstd::prelude::*;
use vstd::string::*;

verus! {

/// The suffix of every cached image file: images are stored as WebP.
pub open spec fn webp_suffix() -> Seq<char> {
    ".webp"@
}

/// The symbol of the URL-safe base64 alphabet that stands for the six-bit
/// value `v`: `A`-`Z`, `a`-`z`, `0`-`9`, `-`, `_`.
pub open spec fn base64_symbol(v: int) -> char {
    if v < 26 {
        (65 + v) as char
    } else if v < 52 {
        (97 + (v - 26)) as char
    } else if v < 62 {
        (48 + (v - 52)) as char
    } else if v == 62 {
        '-'
    } else {
        '_'
    }
}

/// The four symbols that encode up to three bytes, the group padded with `=`
/// where it holds fewer than three.
pub open spec fn base64_group(bytes: Seq<u8>) -> Seq<char>
    recommends
        1 <= bytes.len() <= 3,
{
    let b0 = bytes[0] as int;
    if bytes.len() == 1 {
        seq![base64_symbol(b0 / 4), base64_symbol((b0 % 4) * 16), '=', '=']
    } else {
        let b1 = bytes[1] as int;
        if bytes.len() == 2 {
            seq![
                base64_symbol(b0 / 4),
                base64_symbol((b0 % 4) * 16 + b1 / 16),
                base64_symbol((b1 % 16) * 4),
                '=',
            ]
        } else {
            let b2 = bytes[2] as int;
            seq![
                base64_symbol(b0 / 4),
                base64_symbol((b0 % 4) * 16 + b1 / 16),
                base64_symbol((b1 % 16) * 4 + b2 / 64),
                base64_symbol(b2 % 64),
            ]
        }
    }
}

/// The padded URL-safe base64 text of `bytes`.
pub open spec fn base64_url(bytes: Seq<u8>) -> Seq<char>
    decreases bytes.len(),
{
    if bytes.len() == 0 {
        Seq::empty()
    } else if bytes.len() <= 3 {
        base64_group(bytes)
    } else {
        base64_group(bytes.take(3)) + base64_url(bytes.skip(3))
    }
}

/// Whether the base64 text of `len` bytes has a length that fits in `usize`.
pub open spec fn base64_encodable(len: nat) -> bool {
    4 * ((len + 2) / 3) <= usize::MAX
}

/// The file name under which the avatar of the channel `id` is cached.
pub open spec fn avatar_file_name(id: Seq<char>) -> Seq<char> {
    base64_url(vstd::utf8::encode_utf8(id)) + webp_suffix()
}

/// The file name under which the thumbnail of the video `id` is cached.
pub open spec fn thumbnail_file_name(id: Seq<char>) -> Seq<char> {
    id + webp_suffix()
}

/// Calls `Engine::encode` of the `base64` crate on its `URL_SAFE` engine
/// (the URL-safe alphabet, with padding). The contract claims that the text
/// returned is the padded URL-safe base64 encoding of `bytes`, and leaves out
/// the lengths on which the crate fails to size its buffer.
#[verifier::external_body]
fn base64_url_encode(bytes: &[u8]) -> (encoded: String)
    requires
        base64_encodable(bytes@.len()),
    ensures
        encoded@ == base64_url(bytes@),
{
    base64::engine::general_purpose::URL_SAFE.encode(bytes)
}

/// The name of the file in which the avatar of the channel `id` is cached:
/// the padded URL-safe base64 text of the id, with the suffix of the storage
/// format. The id must be short enough for its base64 text to have a length.
pub fn build_avater_cache_image_filename(id: &String) -> (name: String)
    requires
        base64_encodable(vstd::utf8::encode_utf8(id@).len()),
    ensures
        name@ == avatar_file_name(id@),
{
    let encoded = base64_url_encode(id.as_str().as_bytes());
    encoded.concat(".webp")
}

/// The name of the file in which the thumbnail of the video `id` is cached:
/// the id itself, with the suffix of the storage format.
pub fn build_thumbnail_cache_image_filename(id: &String) -> (name: String)
    ensures
        name@ == thumbnail_file_name(id@),
{
    id.clone().concat(".webp")
}

/// The answer to a request that failed for a reason of the server's own:
/// the status 500, and a text that gives nothing away.
pub fn internal_error() -> (answer: (u16, String))
    ensures
        answer.0 == 500,
        answer.1@ == "Something went wrong"@,
{
    (500, String::from_str("Something went wrong"))
}

/// Distinct six-bit values have distinct symbols, and none is the padding
/// sign.
pub proof fn lemma_base64_symbol_injective(x: int, y: int)
    requires
        0 <= x < 64,
        0 <= y < 64,
    ensures
        base64_symbol(x) != '=',
        base64_symbol(x) == base64_symbol(y) ==> x == y,
{
}

/// Two groups of one to three bytes with the same four symbols are the same
/// bytes.
pub proof fn lemma_base64_group_injective(a: Seq<u8>, b: Seq<u8>)
    requires
        1 <= a.len() <= 3,
        1 <= b.len() <= 3,
        base64_group(a) == base64_group(b),
    ensures
        a == b,
{
    let ga = base64_group(a);
    let gb = base64_group(b);
    assert(ga[0] == gb[0] && ga[1] == gb[1] && ga[2] == gb[2] && ga[3] == gb[3]);
    let a0 = a[0] as int;
    let b0 = b[0] as int;
    lemma_base64_symbol_injective(a0 / 4, b0 / 4);
    if a.len() == 1 {
        lemma_base64_symbol_injective((a0 % 4) * 16, (b0 % 4) * 16);
        if b.len() >= 2 {
            let b1 = b[1] as int;
            lemma_base64_symbol_injective((b1 % 16) * 4, 0);
            if b.len() == 3 {
                lemma_base64_symbol_injective((b1 % 16) * 4 + (b[2] as int) / 64, 0);
            }
        }
    } else {
        let a1 = a[1] as int;
        if b.len() == 1 {
            lemma_base64_symbol_injective((a1 % 16) * 4, 0);
            if a.len() == 3 {
                lemma_base64_symbol_injective((a1 % 16) * 4 + (a[2] as int) / 64, 0);
            }
        } else {
            let b1 = b[1] as int;
            lemma_base64_symbol_injective((a0 % 4) * 16 + a1 / 16, (b0 % 4) * 16 + b1 / 16);
            if a.len() == 2 {
                if b.len() == 3 {
                    lemma_base64_symbol_injective((b[2] as int) % 64, 0);
                } else {
                    lemma_base64_symbol_injective((a1 % 16) * 4, (b1 % 16) * 4);
                }
            } else {
                let a2 = a[2] as int;
                if b.len() == 2 {
                    lemma_base64_symbol_injective(a2 % 64, 0);
                } else {
                    let b2 = b[2] as int;
                    lemma_base64_symbol_injective(
                        (a1 % 16) * 4 + a2 / 64,
                        (b1 % 16) * 4 + b2 / 64,
                    );
                    lemma_base64_symbol_injective(a2 % 64, b2 % 64);
                }
            }
        }
    }
    assert(a =~= b);
}

/// The base64 text of `bytes` has four symbols for every group of three bytes
/// begun.
pub proof fn lemma_base64_len(bytes: Seq<u8>)
    ensures
        base64_url(bytes).len() == 4 * ((bytes.len() + 2) / 3),
    decreases bytes.len(),
{
    if bytes.len() > 3 {
        lemma_base64_len(bytes.skip(3));
    }
}

/// Distinct byte strings have distinct base64 texts.
pub proof fn lemma_base64_injective(a: Seq<u8>, b: Seq<u8>)
    requires
        base64_url(a) == base64_url(b),
    ensures
        a == b,
    decreases a.len(),
{
    lemma_base64_len(a);
    lemma_base64_len(b);
    if a.len() == 0 {
        assert(a =~= b);
    } else if a.len() <= 3 {
        lemma_base64_group_injective(a, b);
    } else {
        let ga = base64_group(a.take(3));
        let gb = base64_group(b.take(3));
        let ra = base64_url(a.skip(3));
        let rb = base64_url(b.skip(3));
        assert(ga =~= (ga + ra).subrange(0, 4));
        assert(gb =~= (gb + rb).subrange(0, 4));
        assert(ra =~= (ga + ra).subrange(4, (ga + ra).len() as int));
        assert(rb =~= (gb + rb).subrange(4, (gb + rb).len() as int));
        lemma_base64_group_injective(a.take(3), b.take(3));
        lemma_base64_injective(a.skip(3), b.skip(3));
        assert(a =~= a.take(3) + a.skip(3));
        assert(b =~= b.take(3) + b.skip(3));
    }
}

/// Distinct channel ids have distinct avatar file names.
pub proof fn lemma_avatar_file_name_injective(a: Seq<char>, b: Seq<char>)
    requires
        avatar_file_name(a) == avatar_file_name(b),
    ensures
        a == b,
{
    broadcast use vstd::utf8::encode_utf8_decode_utf8;

    let ea = base64_url(vstd::utf8::encode_utf8(a));
    let eb = base64_url(vstd::utf8::encode_utf8(b));
    let suffix = webp_suffix();
    assert(ea =~= (ea + suffix).subrange(0, ea.len() as int));
    assert(eb =~= (eb + suffix).subrange(0, eb.len() as int));
    assert((ea + suffix).len() == (eb + suffix).len());
    lemma_base64_injective(vstd::utf8::encode_utf8(a), vstd::utf8::encode_utf8(b));
    assert(vstd::utf8::decode_utf8(vstd::utf8::encode_utf8(a)) == a);
    assert(vstd::utf8::decode_utf8(vstd::utf8::encode_utf8(b)) == b);
}

/// Distinct video ids have distinct thumbnail file names.
pub proof fn lemma_thumbnail_file_name_injective(a: Seq<char>, b: Seq<char>)
    requires
        thumbnail_file_name(a) == thumbnail_file_name(b),
    ensures
        a == b,
{
    let suffix = webp_suffix();
    assert((a + suffix).len() == (b + suffix).len());
    assert(a =~= (a + suffix).subrange(0, a.len() as int));
    assert(b =~= (b + suffix).subrange(0, b.len() as int));
}

} // verus!
