//! Deterministic, collision-free mapping from domain names and URL path
//! segments to filesystem-safe path components. A component that matches a
//! conservative safe-character grammar is kept verbatim behind a marker
//! prefix; any other component is replaced by an escape prefix followed by
//! its padding-free URL-safe base64 encoding.

use vstd::prelude::*;
use vstd::utf8::encode_utf8;

verus! {

/// Characters a safe component may start with (a leading `.` is allowed
/// only when followed by one of these).
pub open spec fn is_safe_head_char(c: char) -> bool {
    ('a' <= c && c <= 'z') || ('A' <= c && c <= 'Z') || ('0' <= c && c <= '9') || c == '-' || c
        == '_' || c == ':' || c == '@'
}

/// Characters a safe component may continue with.
pub open spec fn is_safe_tail_char(c: char) -> bool {
    is_safe_head_char(c) || c == '.'
}

/// The safe-component grammar: non-empty, drawn from the safe alphabet,
/// and not starting with a bare `.` unless the `.` is followed by a safe
/// head character.
pub open spec fn is_safe_component_chars(s: Seq<char>) -> bool {
    &&& s.len() >= 1
    &&& if s[0] == '.' {
        &&& s.len() >= 2
        &&& is_safe_head_char(s[1])
        &&& forall|i: int| 2 <= i < s.len() ==> is_safe_tail_char(#[trigger] s[i])
    } else {
        &&& is_safe_head_char(s[0])
        &&& forall|i: int| 1 <= i < s.len() ==> is_safe_tail_char(#[trigger] s[i])
    }
}

fn is_safe_head(c: char) -> (r: bool)
    ensures
        r == is_safe_head_char(c),
{
    ('a' <= c && c <= 'z') || ('A' <= c && c <= 'Z') || ('0' <= c && c <= '9') || c == '-' || c
        == '_' || c == ':' || c == '@'
}

fn is_safe_tail(c: char) -> (r: bool)
    ensures
        r == is_safe_tail_char(c),
{
    is_safe_head(c) || c == '.'
}

/// Whether a component matches the safe grammar.
pub fn is_safe_component(component: &str) -> (r: bool)
    ensures
        r == is_safe_component_chars(component@),
{
    let n = component.unicode_len();
    if n == 0 {
        return false;
    }
    let c0 = component.get_char(0);
    let start: usize;
    if c0 == '.' {
        if n < 2 {
            return false;
        }
        if !is_safe_head(component.get_char(1)) {
            return false;
        }
        start = 2;
    } else {
        if !is_safe_head(c0) {
            return false;
        }
        start = 1;
    }
    let mut i: usize = start;
    while i < n
        invariant
            start <= i <= n,
            n == component@.len(),
            start == 1 || start == 2,
            start == 2 ==> component@[0] == '.' && n >= 2 && is_safe_head_char(component@[1]),
            start == 1 ==> component@[0] != '.' && is_safe_head_char(component@[0]),
            forall|j: int| start <= j < i ==> is_safe_tail_char(#[trigger] component@[j]),
        decreases n - i,
    {
        if !is_safe_tail(component.get_char(i)) {
            return false;
        }
        i += 1;
    }
    true
}

/// The URL-safe base64 alphabet (RFC 4648 section 5), as a function from a
/// six-bit value to its digit.
pub open spec fn b64_char(v: int) -> char
    recommends
        0 <= v < 64,
{
    if v < 26 {
        ((65 + v) as u32) as char
    } else if v < 52 {
        ((97 + (v - 26)) as u32) as char
    } else if v < 62 {
        ((48 + (v - 52)) as u32) as char
    } else if v == 62 {
        '-'
    } else {
        '_'
    }
}

/// The six-bit value of a base64 digit, or `-1` for any other character.
pub open spec fn b64_val(c: char) -> int {
    let u = c as u32;
    if 65 <= u && u <= 90 {
        u - 65
    } else if 97 <= u && u <= 122 {
        26 + (u - 97)
    } else if 48 <= u && u <= 57 {
        52 + (u - 48)
    } else if c == '-' {
        62
    } else if c == '_' {
        63
    } else {
        -1
    }
}

/// Each six-bit value is recovered from its digit.
pub proof fn lemma_b64_char_val(v: int)
    requires
        0 <= v < 64,
    ensures
        b64_val(b64_char(v)) == v,
{
}

/// Padding-free base64 of a byte sequence: each three-byte group becomes
/// four digits; a trailing group of one or two bytes becomes two or three
/// digits.
pub open spec fn b64_encode(bytes: Seq<u8>) -> Seq<char>
    decreases bytes.len(),
{
    if bytes.len() == 0 {
        Seq::empty()
    } else if bytes.len() == 1 {
        let b0 = bytes[0] as int;
        seq![b64_char(b0 / 4), b64_char((b0 % 4) * 16)]
    } else if bytes.len() == 2 {
        let b0 = bytes[0] as int;
        let b1 = bytes[1] as int;
        seq![b64_char(b0 / 4), b64_char((b0 % 4) * 16 + b1 / 16), b64_char((b1 % 16) * 4)]
    } else {
        let b0 = bytes[0] as int;
        let b1 = bytes[1] as int;
        let b2 = bytes[2] as int;
        seq![
            b64_char(b0 / 4),
            b64_char((b0 % 4) * 16 + b1 / 16),
            b64_char((b1 % 16) * 4 + b2 / 64),
            b64_char(b2 % 64),
        ] + b64_encode(bytes.subrange(3, bytes.len() as int))
    }
}

/// The inverse reading of a padding-free base64 digit sequence.
pub open spec fn b64_decode(s: Seq<char>) -> Seq<u8>
    decreases s.len(),
{
    if s.len() < 2 {
        Seq::empty()
    } else if s.len() == 2 {
        seq![(b64_val(s[0]) * 4 + b64_val(s[1]) / 16) as u8]
    } else if s.len() == 3 {
        seq![
            (b64_val(s[0]) * 4 + b64_val(s[1]) / 16) as u8,
            ((b64_val(s[1]) % 16) * 16 + b64_val(s[2]) / 4) as u8,
        ]
    } else if s.len() == 4 {
        seq![
            (b64_val(s[0]) * 4 + b64_val(s[1]) / 16) as u8,
            ((b64_val(s[1]) % 16) * 16 + b64_val(s[2]) / 4) as u8,
            ((b64_val(s[2]) % 4) * 64 + b64_val(s[3])) as u8,
        ]
    } else {
        seq![
            (b64_val(s[0]) * 4 + b64_val(s[1]) / 16) as u8,
            ((b64_val(s[1]) % 16) * 16 + b64_val(s[2]) / 4) as u8,
            ((b64_val(s[2]) % 4) * 64 + b64_val(s[3])) as u8,
        ] + b64_decode(s.subrange(4, s.len() as int))
    }
}

/// Base64 encoding loses nothing: decoding the encoding of any byte
/// sequence gives that sequence back.
pub proof fn lemma_b64_roundtrip(bytes: Seq<u8>)
    ensures
        b64_decode(b64_encode(bytes)) == bytes,
    decreases bytes.len(),
{
    if bytes.len() == 0 {
        assert(b64_decode(b64_encode(bytes)) =~= bytes);
    } else if bytes.len() == 1 {
        let b0 = bytes[0] as int;
        lemma_b64_char_val(b0 / 4);
        lemma_b64_char_val((b0 % 4) * 16);
        assert(b64_decode(b64_encode(bytes)) =~= bytes);
    } else if bytes.len() == 2 {
        let b0 = bytes[0] as int;
        let b1 = bytes[1] as int;
        lemma_b64_char_val(b0 / 4);
        lemma_b64_char_val((b0 % 4) * 16 + b1 / 16);
        lemma_b64_char_val((b1 % 16) * 4);
        assert(b64_decode(b64_encode(bytes)) =~= bytes);
    } else {
        let rest = bytes.subrange(3, bytes.len() as int);
        lemma_b64_roundtrip(rest);
        let b0 = bytes[0] as int;
        let b1 = bytes[1] as int;
        let b2 = bytes[2] as int;
        lemma_b64_char_val(b0 / 4);
        lemma_b64_char_val((b0 % 4) * 16 + b1 / 16);
        lemma_b64_char_val((b1 % 16) * 4 + b2 / 64);
        lemma_b64_char_val(b2 % 64);
        let s = b64_encode(bytes);
        let tail = b64_encode(rest);
        assert(s.len() == 4 + tail.len());
        assert(tail.len() != 1);
        assert(s.subrange(4, s.len() as int) =~= tail);
        assert(b64_decode(b64_encode(bytes)) =~= bytes);
    }
}

/// Base64 encoding is injective.
pub proof fn lemma_b64_injective(a: Seq<u8>, b: Seq<u8>)
    requires
        b64_encode(a) == b64_encode(b),
    ensures
        a == b,
{
    lemma_b64_roundtrip(a);
    lemma_b64_roundtrip(b);
}

/// The encoded form of one path component: a safe component is kept
/// verbatim behind a `_` marker; any other component stands as `_..`
/// followed by the base64 of its UTF-8 bytes.
pub open spec fn encoded_component(s: Seq<char>) -> Seq<char> {
    if is_safe_component_chars(s) {
        seq!['_'] + s
    } else {
        seq!['_', '.', '.'] + b64_encode(encode_utf8(s))
    }
}

/// Relies on the base64 crate's `URL_SAFE_NO_PAD` engine: RFC 4648
/// section 5 base64 of the input bytes, without padding.
#[verifier::external_body]
fn b64_url_safe_no_pad(s: &str) -> (r: String)
    ensures
        r@ == b64_encode(encode_utf8(s@)),
{
    base64::Engine::encode(&base64::engine::general_purpose::URL_SAFE_NO_PAD, s.as_bytes())
}

/// Encodes one path component into its filesystem-safe form.
pub fn component_to_url_safe(component: &str) -> (r: String)
    ensures
        r@ == encoded_component(component@),
{
    if is_safe_component(component) {
        let mut r = String::from_str("_");
        r.append(component);
        proof {
            reveal_strlit("_");
            assert(r@ =~= encoded_component(component@));
        }
        r
    } else {
        let mut r = String::from_str("_..");
        let encoded = b64_url_safe_no_pad(component);
        r.append(encoded.as_str());
        proof {
            reveal_strlit("_..");
            assert(r@ =~= encoded_component(component@));
        }
        r
    }
}

/// Encodes one path component and appends a trusted extension.
pub fn component_to_url_safe_with_safe_ext(component: &str, ext: &str) -> (r: String)
    ensures
        r@ == encoded_component(component@) + seq!['.'] + ext@,
{
    let mut r = component_to_url_safe(component);
    r.append(".");
    r.append(ext);
    proof {
        reveal_strlit(".");
        assert(r@ =~= encoded_component(component@) + seq!['.'] + ext@);
    }
    r
}

/// Distinct components have distinct encodings: the escape marker keeps
/// verbatim components apart from base64-escaped ones, and base64 itself
/// loses nothing.
pub proof fn lemma_encode_component_injective(a: Seq<char>, b: Seq<char>)
    requires
        a != b,
    ensures
        encoded_component(a) != encoded_component(b),
{
    let ea = encoded_component(a);
    let eb = encoded_component(b);
    if is_safe_component_chars(a) && is_safe_component_chars(b) {
        if ea == eb {
            assert(ea == seq!['_'] + a);
            assert(eb == seq!['_'] + b);
            assert(ea.len() == 1 + a.len());
            assert(eb.len() == 1 + b.len());
            assert(a.len() == b.len());
            assert forall|i: int| 0 <= i < a.len() implies a[i] == b[i] by {
                assert((seq!['_'] + a)[i + 1] == a[i]);
                assert((seq!['_'] + b)[i + 1] == b[i]);
            }
            assert(a =~= b);
        }
    } else if is_safe_component_chars(a) && !is_safe_component_chars(b) {
        lemma_safe_unsafe_distinct(a, b);
    } else if !is_safe_component_chars(a) && is_safe_component_chars(b) {
        lemma_safe_unsafe_distinct(b, a);
        assert(eb != ea);
    } else {
        if ea == eb {
            let ca = b64_encode(encode_utf8(a));
            let cb = b64_encode(encode_utf8(b));
            assert(ea == seq!['_', '.', '.'] + ca);
            assert(eb == seq!['_', '.', '.'] + cb);
            assert(ea.len() == 3 + ca.len());
            assert(eb.len() == 3 + cb.len());
            assert(ca.len() == cb.len());
            assert forall|i: int| 0 <= i < ca.len() implies ca[i] == cb[i] by {
                assert((seq!['_', '.', '.'] + ca)[i + 3] == ca[i]);
                assert((seq!['_', '.', '.'] + cb)[i + 3] == cb[i]);
            }
            assert(ca =~= cb);
            lemma_b64_injective(encode_utf8(a), encode_utf8(b));
            vstd::utf8::encode_utf8_decode_utf8(a);
            vstd::utf8::encode_utf8_decode_utf8(b);
        }
    }
}

/// A verbatim-safe encoding never collides with an escaped one: the safe
/// grammar forbids a component from starting with two dots, so the
/// characters after the marker differ.
proof fn lemma_safe_unsafe_distinct(a: Seq<char>, b: Seq<char>)
    requires
        is_safe_component_chars(a),
        !is_safe_component_chars(b),
    ensures
        encoded_component(a) != encoded_component(b),
{
    let ea = encoded_component(a);
    let eb = encoded_component(b);
    if ea == eb {
        assert(ea.len() == 1 + a.len());
        assert(eb.len() >= 3);
        assert(a.len() >= 2);
        assert(a[0] == ea[1] && a[1] == ea[2]);
        assert(eb[1] == '.' && eb[2] == '.');
        if a[0] == '.' {
            assert(is_safe_head_char(a[1]));
            assert(a[1] != '.');
        } else {
            assert(a[0] != '.');
        }
    }
}


/// The non-empty `/`-separated components of a path, with `cur` the
/// partial component read so far.
pub open spec fn split_acc(s: Seq<char>, cur: Seq<char>) -> Seq<Seq<char>>
    decreases s.len(),
{
    if s.len() == 0 {
        if cur.len() > 0 {
            seq![cur]
        } else {
            Seq::empty()
        }
    } else if s[0] == '/' {
        (if cur.len() > 0 {
            seq![cur]
        } else {
            Seq::empty()
        }) + split_acc(s.subrange(1, s.len() as int), Seq::empty())
    } else {
        split_acc(s.subrange(1, s.len() as int), cur + seq![s[0]])
    }
}

/// The non-empty `/`-separated components of a path.
pub open spec fn split_slash(s: Seq<char>) -> Seq<Seq<char>> {
    split_acc(s, Seq::empty())
}

/// Splits a path into its non-empty components.
pub fn split_path_components(s: &str) -> (r: Vec<String>)
    ensures
        r.deep_view() == split_slash(s@),
{
    let n = s.unicode_len();
    let mut done: Vec<String> = Vec::new();
    let mut cur = String::new();
    let mut i: usize = 0;
    proof {
        assert(s@.subrange(0, n as int) =~= s@);
        assert(done.deep_view() =~= Seq::<Seq<char>>::empty());
    }
    while i < n
        invariant
            0 <= i <= n,
            n == s@.len(),
            split_slash(s@) == done.deep_view() + split_acc(s@.subrange(i as int, n as int), cur@),
        decreases n - i,
    {
        let ghost pre = s@.subrange(i as int, n as int);
        proof {
            assert(pre.subrange(1, pre.len() as int) =~= s@.subrange(i + 1, n as int));
        }
        let c = s.get_char(i);
        if c == '/' {
            if cur.unicode_len() > 0 {
                let ghost d0 = done.deep_view();
                done.push(cur);
                proof {
                    assert(done.deep_view() =~= d0.push(cur@));
                    assert(d0 + (seq![cur@] + split_acc(s@.subrange(i + 1, n as int),
                        Seq::empty())) =~= d0.push(cur@) + split_acc(
                        s@.subrange(i + 1, n as int),
                        Seq::empty(),
                    ));
                }
                cur = String::new();
            } else {
                proof {
                    assert(Seq::<Seq<char>>::empty() + split_acc(
                        s@.subrange(i + 1, n as int),
                        Seq::empty(),
                    ) =~= split_acc(s@.subrange(i + 1, n as int), Seq::empty()));
                }
            }
        } else {
            let ghost c0 = cur@;
            push_char(&mut cur, c);
            proof {
                assert(cur@ =~= c0 + seq![c]);
            }
        }
        i += 1;
    }
    proof {
        assert(s@.subrange(n as int, n as int) =~= Seq::<char>::empty());
    }
    if cur.unicode_len() > 0 {
        let ghost d0 = done.deep_view();
        done.push(cur);
        proof {
            assert(done.deep_view() =~= d0.push(cur@));
            assert(d0 + seq![cur@] =~= d0.push(cur@));
        }
    } else {
        proof {
            assert(done.deep_view() + Seq::<Seq<char>>::empty() =~= done.deep_view());
        }
    }
    done
}

/// Relies on String::push: appends one character.
#[verifier::external_body]
pub(crate) fn push_char(s: &mut String, c: char)
    ensures
        final(s)@ == old(s)@ + seq![c],
{
    s.push(c);
}

/// The directory part of an encoded path: a `/` and the encoded component,
/// for each component in order.
pub open spec fn enc_dirs(comps: Seq<Seq<char>>) -> Seq<char>
    decreases comps.len(),
{
    if comps.len() == 0 {
        Seq::empty()
    } else {
        seq!['/'] + encoded_component(comps[0]) + enc_dirs(comps.subrange(1, comps.len() as int))
    }
}

proof fn lemma_enc_dirs_snoc(s: Seq<Seq<char>>, x: Seq<char>)
    ensures
        enc_dirs(s.push(x)) == enc_dirs(s) + seq!['/'] + encoded_component(x),
    decreases s.len(),
{
    let p = s.push(x);
    if s.len() == 0 {
        assert(p.len() == 1);
        assert(p.subrange(1, p.len() as int) =~= Seq::<Seq<char>>::empty());
        assert(p[0] == x);
        assert(enc_dirs(p.subrange(1, p.len() as int)) == Seq::<char>::empty());
        assert(enc_dirs(p) == seq!['/'] + encoded_component(p[0]) + enc_dirs(
            p.subrange(1, p.len() as int),
        ));
        assert(enc_dirs(s) == Seq::<char>::empty());
        assert(enc_dirs(p) =~= enc_dirs(s) + seq!['/'] + encoded_component(x));
    } else {
        let sub = s.subrange(1, s.len() as int);
        assert(p.subrange(1, p.len() as int) =~= sub.push(x));
        lemma_enc_dirs_snoc(sub, x);
        assert(p[0] == s[0]);
        assert(enc_dirs(p) == seq!['/'] + encoded_component(s[0]) + enc_dirs(sub.push(x)));
        assert(enc_dirs(s) == seq!['/'] + encoded_component(s[0]) + enc_dirs(sub));
        assert(enc_dirs(sub.push(x)) == enc_dirs(sub) + seq!['/'] + encoded_component(x));
        assert(enc_dirs(p) =~= enc_dirs(s) + seq!['/'] + encoded_component(x));
    }
}

/// Where a resource for `(domain, url_path)` is stored below `base`: the
/// encoded domain, then each non-empty path component encoded, the last one
/// carrying the extension; a path without components is stored as a bare
/// `.{ext}` file.
pub open spec fn to_url_safe_spec(
    base: Seq<char>,
    domain: Seq<char>,
    url_path: Seq<char>,
    ext: Seq<char>,
) -> Seq<char> {
    let comps = split_slash(url_path);
    let head = base + seq!['/'] + encoded_component(domain);
    if comps.len() == 0 {
        head + seq!['/', '.'] + ext
    } else {
        head + enc_dirs(comps.drop_last()) + seq!['/'] + encoded_component(comps.last())
            + seq!['.'] + ext
    }
}

/// Maps a `(domain, url_path)` pair to the filesystem-safe relative path
/// under which its resource is stored.
pub fn to_url_safe(base: &str, domain: &str, url_path: &str, ext: &str) -> (r: String)
    ensures
        r@ == to_url_safe_spec(base@, domain@, url_path@, ext@),
{
    let comps = split_path_components(url_path);
    let ghost cv = comps.deep_view();
    let mut r = String::from_str(base);
    r.append("/");
    let d = component_to_url_safe(domain);
    r.append(d.as_str());
    let ghost head = base@ + seq!['/'] + encoded_component(domain@);
    proof {
        reveal_strlit("/");
        assert(r@ =~= head);
    }
    if comps.len() == 0 {
        r.append("/.");
        r.append(ext);
        proof {
            reveal_strlit("/.");
            assert(r@ =~= to_url_safe_spec(base@, domain@, url_path@, ext@));
        }
        r
    } else {
        let last_index = comps.len() - 1;
        let mut k: usize = 0;
        proof {
            assert(cv.take(0) =~= Seq::<Seq<char>>::empty());
        }
        while k < last_index
            invariant
                0 <= k <= last_index,
                last_index == cv.len() - 1,
                cv.len() == comps@.len(),
                cv == comps.deep_view(),
                comps@.len() >= 1,
                r@ == head + enc_dirs(cv.take(k as int)),
            decreases last_index - k,
        {
            r.append("/");
            let e = component_to_url_safe(comps[k].as_str());
            r.append(e.as_str());
            proof {
                reveal_strlit("/");
                assert(cv.take(k + 1) =~= cv.take(k as int).push(cv[k as int]));
                lemma_enc_dirs_snoc(cv.take(k as int), cv[k as int]);
                assert(r@ =~= head + enc_dirs(cv.take(k + 1)));
            }
            k += 1;
        }
        r.append("/");
        let e = component_to_url_safe_with_safe_ext(comps[last_index].as_str(), ext);
        r.append(e.as_str());
        proof {
            reveal_strlit("/");
            assert(cv.take(last_index as int) =~= cv.drop_last());
            assert(cv[last_index as int] == cv.last());
            assert(r@ =~= to_url_safe_spec(base@, domain@, url_path@, ext@));
        }
        r
    }
}

} // verus!
