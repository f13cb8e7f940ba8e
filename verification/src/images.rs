//! The on-disk image cache: how a URL maps to a file, which MIME type a
//! URL is served as, and how an `image://` request maps back upstream.

use vstd::prelude::*;

use crate::config::{join_path, path_join};
use crate::error::AniError;
use crate::text::{
    ascii_lower, ascii_lowercase, chars_of, concat2, contains, contains_str, find_char, first_char_from,
    lemma_first_char_from_bounds,
    join, push_char, push_str, starts_with, str_starts_with, string_of_range, strings_view,
    to_lowercase, unicode_lowercase,
};
use crate::web::{parse_url, url_parse, UrlParts, UrlView};

verus! {

broadcast use vstd::string::group_string_axioms;

// ---------------------------------------------------------------------
// Cache key of a URL
// ---------------------------------------------------------------------

/// `s` split at every `c` (`str::split` with a char pattern); always at
/// least one piece.
pub open spec fn split_on(s: Seq<char>, c: char) -> Seq<Seq<char>>
    decreases s.len(),
{
    if s.len() == 0 {
        seq![Seq::empty()]
    } else {
        let prev = split_on(s.drop_last(), c);
        if s.last() == c {
            prev.push(Seq::empty())
        } else {
            prev.update(prev.len() - 1, prev.last().push(s.last()))
        }
    }
}

proof fn lemma_split_on_nonempty(s: Seq<char>, c: char)
    ensures
        split_on(s, c).len() > 0,
    decreases s.len(),
{
    if s.len() > 0 {
        lemma_split_on_nonempty(s.drop_last(), c);
    }
}

/// A query parameter that carries an S3 presigning field (`X-Amz-*`,
/// compared ASCII case-insensitively).
pub open spec fn is_amz_param(kv: Seq<char>) -> bool {
    starts_with(ascii_lower(kv), "x-amz-"@)
}

/// The parameters that are kept, in order.
pub open spec fn kept_params(ps: Seq<Seq<char>>) -> Seq<Seq<char>>
    decreases ps.len(),
{
    if ps.len() == 0 {
        Seq::empty()
    } else {
        let prev = kept_params(ps.drop_last());
        if is_amz_param(ps.last()) {
            prev
        } else {
            prev.push(ps.last())
        }
    }
}

/// The URL without its `X-Amz-*` query parameters (the presigning that
/// rotates); without any parameter left, without the `?` either.
pub open spec fn canonical_url(u: Seq<char>) -> Seq<char> {
    match first_char_from(u, '?', 0) {
        None => u,
        Some(q) => {
            let base = u.subrange(0, q);
            let kept = kept_params(split_on(u.subrange(q + 1, u.len() as int), '&'));
            if kept.len() == 0 {
                base
            } else {
                base + seq!['?'] + join(kept, seq!['&'])
            }
        },
    }
}

/// `s` holds no `c`.
pub open spec fn free_of(s: Seq<char>, c: char) -> bool {
    forall|i: int| 0 <= i < s.len() ==> s[i] != c
}

proof fn lemma_first_char_after_free_prefix(base: Seq<char>, rest: Seq<char>, c: char, from: int)
    requires
        free_of(base, c),
        0 <= from <= base.len(),
    ensures
        first_char_from(base + seq![c] + rest, c, from) == Some(base.len() as int),
    decreases base.len() - from,
{
    let h = base + seq![c] + rest;
    if from < base.len() {
        assert(h[from] == base[from]);
        lemma_first_char_after_free_prefix(base, rest, c, from + 1);
    } else {
        assert(h[from] == c);
    }
}

proof fn lemma_first_char_in_free(h: Seq<char>, c: char, from: int)
    requires
        free_of(h, c),
        0 <= from,
    ensures
        first_char_from(h, c, from) is None,
    decreases h.len() - from,
{
    if from < h.len() {
        lemma_first_char_in_free(h, c, from + 1);
    }
}

proof fn lemma_before_first_char(h: Seq<char>, c: char, from: int, q: int)
    requires
        0 <= from,
        first_char_from(h, c, from) == Some(q),
    ensures
        forall|i: int| from <= i < q ==> h[i] != c,
    decreases h.len() - from,
{
    if from < h.len() && h[from] != c {
        lemma_before_first_char(h, c, from + 1, q);
    }
}

proof fn lemma_split_free(s: Seq<char>, c: char)
    requires
        free_of(s, c),
    ensures
        split_on(s, c) == seq![s],
    decreases s.len(),
{
    if s.len() > 0 {
        let init = s.drop_last();
        assert(free_of(init, c)) by {
            assert forall|i: int| 0 <= i < init.len() implies init[i] != c by {
                assert(init[i] == s[i]);
            }
        }
        assert(s.last() != c) by {
            assert(s[s.len() - 1] != c);
        }
        lemma_split_free(init, c);
        assert(init.push(s.last()) =~= s);
        assert(split_on(s, c) =~= seq![s]);
    } else {
        assert(s =~= Seq::<char>::empty());
    }
}

proof fn lemma_split_pieces_free(s: Seq<char>, c: char)
    ensures
        forall|k: int| 0 <= k < split_on(s, c).len() ==> free_of(#[trigger] split_on(s, c)[k], c),
    decreases s.len(),
{
    if s.len() > 0 {
        lemma_split_pieces_free(s.drop_last(), c);
        lemma_split_on_nonempty(s.drop_last(), c);
        let prev = split_on(s.drop_last(), c);
        if s.last() != c {
            assert(free_of(prev.last().push(s.last()), c)) by {
                assert(free_of(prev[prev.len() - 1], c));
            }
        }
    }
}

proof fn lemma_split_after_sep(a: Seq<char>, b: Seq<char>, c: char)
    requires
        free_of(b, c),
    ensures
        split_on(a + seq![c] + b, c) == split_on(a, c).push(b),
    decreases b.len(),
{
    let s = a + seq![c] + b;
    if b.len() == 0 {
        assert(s.drop_last() =~= a);
        assert(s.last() == c);
        assert(b =~= Seq::<char>::empty());
    } else {
        let b0 = b.drop_last();
        assert(s.drop_last() =~= a + seq![c] + b0);
        assert(free_of(b0, c)) by {
            assert forall|i: int| 0 <= i < b0.len() implies b0[i] != c by {
                assert(b0[i] == b[i]);
            }
        }
        assert(s.last() == b.last() && b.last() != c) by {
            assert(b[b.len() - 1] != c);
        }
        lemma_split_after_sep(a, b0, c);
        assert(b0.push(b.last()) =~= b);
        let prev = split_on(a, c).push(b0);
        assert(split_on(s, c) == prev.update(prev.len() - 1, prev.last().push(s.last())));
        assert(prev.update(prev.len() - 1, prev.last().push(s.last())) =~= split_on(a, c).push(b));
    }
}

proof fn lemma_split_join(ps: Seq<Seq<char>>, c: char)
    requires
        ps.len() > 0,
        forall|k: int| 0 <= k < ps.len() ==> free_of(#[trigger] ps[k], c),
    ensures
        split_on(join(ps, seq![c]), c) == ps,
    decreases ps.len(),
{
    if ps.len() == 1 {
        lemma_split_free(ps[0], c);
        assert(seq![ps[0]] =~= ps);
    } else {
        let init = ps.drop_last();
        assert forall|k: int| 0 <= k < init.len() implies free_of(#[trigger] init[k], c) by {
            assert(init[k] == ps[k]);
        }
        lemma_split_join(init, c);
        assert(free_of(ps[ps.len() - 1], c));
        lemma_split_after_sep(join(init, seq![c]), ps.last(), c);
        assert(init.push(ps.last()) =~= ps);
    }
}

proof fn lemma_kept_params_shape(ps: Seq<Seq<char>>, c: char)
    requires
        forall|k: int| 0 <= k < ps.len() ==> free_of(#[trigger] ps[k], c),
    ensures
        forall|k: int| 0 <= k < kept_params(ps).len() ==> free_of(#[trigger] kept_params(ps)[k], c),
        forall|k: int| 0 <= k < kept_params(ps).len() ==> !is_amz_param(#[trigger] kept_params(ps)[k]),
    decreases ps.len(),
{
    if ps.len() > 0 {
        let init = ps.drop_last();
        assert forall|k: int| 0 <= k < init.len() implies free_of(#[trigger] init[k], c) by {
            assert(init[k] == ps[k]);
        }
        lemma_kept_params_shape(init, c);
        assert(free_of(ps[ps.len() - 1], c));
        let prev = kept_params(init);
        if !is_amz_param(ps.last()) {
            let cur = prev.push(ps.last());
            assert(kept_params(ps) == cur);
            assert forall|k: int| 0 <= k < cur.len() implies free_of(#[trigger] cur[k], c) && !is_amz_param(cur[k]) by {
                if k < prev.len() {
                    assert(cur[k] == prev[k]);
                }
            }
        }
    }
}

proof fn lemma_kept_params_of_kept(ps: Seq<Seq<char>>)
    requires
        forall|k: int| 0 <= k < ps.len() ==> !is_amz_param(#[trigger] ps[k]),
    ensures
        kept_params(ps) == ps,
    decreases ps.len(),
{
    if ps.len() > 0 {
        let init = ps.drop_last();
        assert forall|k: int| 0 <= k < init.len() implies !is_amz_param(#[trigger] init[k]) by {
            assert(init[k] == ps[k]);
        }
        lemma_kept_params_of_kept(init);
        assert(!is_amz_param(ps[ps.len() - 1]));
        assert(init.push(ps.last()) =~= ps);
    }
}

/// Stripping the `X-Amz-*` parameters from a URL already stripped of them
/// changes nothing, so a URL and its stripped form share a cache key:
/// presigned variants of one object hash alike.
pub proof fn law_hash_ignores_presigning(u: Seq<char>)
    ensures
        canonical_url(canonical_url(u)) == canonical_url(u),
        url_hash(canonical_url(u)) == url_hash(u),
{
    match first_char_from(u, '?', 0) {
        None => {},
        Some(q) => {
            lemma_first_char_from_bounds(u, '?', 0);
            lemma_before_first_char(u, '?', 0, q);
            let base = u.subrange(0, q);
            assert(free_of(base, '?'));
            let pieces = split_on(u.subrange(q + 1, u.len() as int), '&');
            lemma_split_pieces_free(u.subrange(q + 1, u.len() as int), '&');
            lemma_kept_params_shape(pieces, '&');
            let kept = kept_params(pieces);
            if kept.len() == 0 {
                lemma_first_char_in_free(base, '?', 0);
            } else {
                let rest = join(kept, seq!['&']);
                let c = base + seq!['?'] + rest;
                lemma_first_char_after_free_prefix(base, rest, '?', 0);
                assert(c.subrange(0, base.len() as int) =~= base);
                assert(c.subrange(base.len() as int + 1, c.len() as int) =~= rest);
                lemma_split_join(kept, '&');
                lemma_kept_params_of_kept(kept);
            }
        },
    }
}

/// The pieces of `cs[lo..hi]` split at every `c` (see [`split_on`]).
fn split_range(cs: &[char], lo: usize, hi: usize, c: char) -> (r: Vec<String>)
    requires
        lo <= hi <= cs.len(),
    ensures
        strings_view(r@) == split_on(cs@.subrange(lo as int, hi as int), c),
{
    let ghost t = cs@.subrange(lo as int, hi as int);
    let mut done: Vec<String> = Vec::new();
    let mut cur = String::new();
    let mut i: usize = lo;
    assert(t.take(0) =~= Seq::<char>::empty());
    assert(strings_view(done@).push(cur@) =~= seq![Seq::<char>::empty()]);
    while i < hi
        invariant
            lo <= i <= hi <= cs.len(),
            t == cs@.subrange(lo as int, hi as int),
            split_on(t.take(i - lo), c) == strings_view(done@).push(cur@),
        decreases hi - i,
    {
        let ghost pre = t.take(i - lo);
        let ghost post = t.take(i - lo + 1);
        assert(post.drop_last() == pre);
        assert(post.last() == cs@[i as int]);
        let ghost dv = strings_view(done@);
        if cs[i] == c {
            let piece = cur;
            done.push(piece);
            cur = String::new();
            assert(strings_view(done@) =~= dv.push(piece@));
        } else {
            let ghost old_cur = cur@;
            push_char(&mut cur, cs[i]);
            assert(dv.push(old_cur).update(dv.len() as int, old_cur.push(cs@[i as int])) =~= dv.push(cur@));
        }
        i = i + 1;
    }
    assert(t.take(hi - lo) == t);
    let ghost dv = strings_view(done@);
    done.push(cur);
    assert(strings_view(done@) =~= dv.push(cur@));
    done
}

/// The parameters of `ps` that are not `X-Amz-*`, in order.
fn keep_params(ps: Vec<String>) -> (r: Vec<String>)
    ensures
        strings_view(r@) == kept_params(strings_view(ps@)),
{
    let ghost all = strings_view(ps@);
    let mut kept: Vec<String> = Vec::new();
    let mut rest = ps;
    let mut i: usize = 0;
    assert(strings_view(kept@) =~= kept_params(all.take(0)));
    assert(all.len() == rest.len());
    while rest.len() > 0
        invariant
            i + rest.len() == all.len(),
            all.len() <= usize::MAX,
            strings_view(rest@) == all.skip(i as int),
            strings_view(kept@) == kept_params(all.take(i as int)),
        decreases rest.len(),
    {
        let ghost before_rest = rest@;
        let piece = rest.remove(0);
        assert(piece@ == all[i as int]) by {
            assert(strings_view(before_rest)[0] == all.skip(i as int)[0]);
        }
        assert(strings_view(rest@) =~= strings_view(before_rest).subrange(1, before_rest.len() as int));
        assert(strings_view(rest@) =~= all.skip(i + 1));
        proof {
            assert(all.take(i + 1).drop_last() == all.take(i as int));
            assert(all.take(i + 1).last() == all[i as int]);
        }
        let lower = ascii_lowercase(piece.as_str());
        let ghost before = strings_view(kept@);
        if !str_starts_with(lower.as_str(), "x-amz-") {
            kept.push(piece);
            assert(strings_view(kept@) =~= before.push(all[i as int]));
        }
        i = i + 1;
    }
    assert(all.take(all.len() as int) == all);
    kept
}

/// Drops the `X-Amz-*` query parameters of a URL (see [`canonical_url`]).
pub fn canonicalize_for_cache(url: &str) -> (r: String)
    ensures
        r@ == canonical_url(url@),
{
    let cs = chars_of(url);
    let q = match find_char(cs.as_slice(), '?', 0) {
        Some(q) => q,
        None => return url.to_owned(),
    };
    proof {
        lemma_first_char_from_bounds(cs@, '?', 0);
    }
    assert(first_char_from(url@, '?', 0) == Some(q as int));
    let base = string_of_range(cs.as_slice(), 0, q);
    let pieces = split_range(cs.as_slice(), q + 1, cs.len(), '&');
    let kept = keep_params(pieces);
    if kept.len() == 0 {
        return base;
    }
    let mut out = base;
    push_char(&mut out, '?');
    let joined = join_with_amp(&kept);
    push_str(&mut out, joined.as_str());
    out
}

fn join_with_amp(parts: &Vec<String>) -> (r: String)
    ensures
        r@ == join(strings_view(parts@), seq!['&']),
{
    let ghost ps = strings_view(parts@);
    let mut out = String::new();
    let mut i: usize = 0;
    while i < parts.len()
        invariant
            i <= parts.len(),
            ps == strings_view(parts@),
            out@ == join(ps.take(i as int), seq!['&']),
        decreases parts.len() - i,
    {
        if i > 0 {
            push_char(&mut out, '&');
        }
        push_str(&mut out, parts[i].as_str());
        proof {
            assert(ps.take(i + 1).drop_last() == ps.take(i as int));
            assert(ps.take(i + 1).last() == parts@[i as int]@);
            if i == 0 {
                assert(ps.take(1).len() == 1);
            }
        }
        i = i + 1;
    }
    assert(ps.take(ps.len() as int) == ps);
    out
}

/// The SHA-256 digest of the UTF-8 bytes of a string whose characters
/// are `s`. The hash function itself is not restated here.
pub uninterp spec fn sha256_utf8(s: Seq<char>) -> Seq<u8>;

/// Calls `sha2::Sha256` on the UTF-8 bytes of `s`. The result is a
/// function of the input alone, named `sha256_utf8`, and is 32 bytes
/// long (SHA-256's output size).
#[verifier::external_body]
fn sha256_of(s: &str) -> (r: Vec<u8>)
    ensures
        r@ == sha256_utf8(s@),
        r@.len() == 32,
{
    <sha2::Sha256 as sha2::Digest>::digest(s.as_bytes()).to_vec()
}

/// Lower-case hex digit for `d < 16`.
pub open spec fn hex_digit(d: u8) -> char {
    if d < 10 {
        ((d as u32) + 48) as char
    } else {
        ((d as u32) + 87) as char
    }
}

/// Two lower-case hex digits per byte (`format!("{b:02x}")` for each).
pub open spec fn hex_lower(bs: Seq<u8>) -> Seq<char>
    decreases bs.len(),
{
    if bs.len() == 0 {
        Seq::empty()
    } else {
        hex_lower(bs.drop_last()) + seq![hex_digit(bs.last() / 16), hex_digit(bs.last() % 16)]
    }
}

fn hex_char(d: u8) -> (c: char)
    requires
        d < 16,
    ensures
        c == hex_digit(d),
{
    if d < 10 {
        (d + 48) as char
    } else {
        (d + 87) as char
    }
}

/// The cache key of a URL: the first 16 bytes of the SHA-256 of its
/// canonical form, as 32 lower-case hex digits.
pub open spec fn url_hash(u: Seq<char>) -> Seq<char> {
    hex_lower(sha256_utf8(canonical_url(u)).take(16))
}

/// Hashes a URL into its cache key (see [`url_hash`]).
pub fn hash_url(url: &str) -> (r: String)
    ensures
        r@ == url_hash(url@),
        r@.len() == 32,
{
    let canonical = canonicalize_for_cache(url);
    let digest = sha256_of(canonical.as_str());
    let ghost head = digest@.take(16);
    let mut out = String::new();
    let mut i: usize = 0;
    while i < 16
        invariant
            i <= 16,
            digest@.len() == 32,
            head == digest@.take(16),
            out@ == hex_lower(head.take(i as int)),
            out@.len() == 2 * i,
        decreases 16 - i,
    {
        let b = digest[i];
        push_char(&mut out, hex_char(b / 16));
        push_char(&mut out, hex_char(b % 16));
        proof {
            assert(head.take(i + 1).drop_last() == head.take(i as int));
            assert(head.take(i + 1).last() == b);
        }
        i = i + 1;
    }
    assert(head.take(16) == head);
    out
}

/// `c` is a lower-case hex digit: `0`-`9` or `a`-`f`.
pub open spec fn is_lower_hex(c: char) -> bool {
    (48 <= c as u32 <= 57) || (97 <= c as u32 <= 102)
}

proof fn lemma_hex_lower_shape(bs: Seq<u8>)
    ensures
        hex_lower(bs).len() == 2 * bs.len(),
        forall|i: int| 0 <= i < hex_lower(bs).len() ==> is_lower_hex(#[trigger] hex_lower(bs)[i]),
    decreases bs.len(),
{
    if bs.len() > 0 {
        lemma_hex_lower_shape(bs.drop_last());
        let prev = hex_lower(bs.drop_last());
        let hi = hex_digit(bs.last() / 16);
        let lo = hex_digit(bs.last() % 16);
        assert(is_lower_hex(hi) && is_lower_hex(lo));
        assert forall|i: int| 0 <= i < hex_lower(bs).len() implies is_lower_hex(
            #[trigger] hex_lower(bs)[i],
        ) by {
            if i < prev.len() {
                assert(hex_lower(bs)[i] == prev[i]);
            }
        }
    }
}

/// A URL's cache key is made of lower-case hex digits only, two per
/// digest byte kept.
pub proof fn law_hash_is_lower_hex(u: Seq<char>)
    ensures
        forall|i: int| 0 <= i < url_hash(u).len() ==> is_lower_hex(#[trigger] url_hash(u)[i]),
        url_hash(u).len() == 2 * sha256_utf8(canonical_url(u)).take(16).len(),
{
    lemma_hex_lower_shape(sha256_utf8(canonical_url(u)).take(16));
}

/// The directory a hash's file goes in: the text of its first two bytes
/// (`&hash[..2]`). That is a whole first character encoded in two bytes
/// (U+0080 to U+07FF), or two ASCII characters; otherwise the two bytes
/// do not end on a character boundary and there is none.
pub open spec fn bucket_of(hash: Seq<char>) -> Option<Seq<char>> {
    if hash.len() >= 1 && 0x80 <= (hash[0] as u32) < 0x800 {
        Some(hash.take(1))
    } else if hash.len() >= 2 && (hash[0] as u32) < 0x80 && (hash[1] as u32) < 0x80 {
        Some(hash.take(2))
    } else {
        None
    }
}

/// `<cache dir>/<first two bytes of hash>/<hash>.<ext>`.
pub fn disk_path(cache_dir: &str, hash: &str, ext: &str) -> (r: String)
    requires
        bucket_of(hash@) is Some,
    ensures
        r@ == path_join(path_join(cache_dir@, bucket_of(hash@)->0), hash@ + seq!['.'] + ext@),
{
    let hc = chars_of(hash);
    let first: u32 = hc[0] as u32;
    let bucket = if 0x80 <= first && first < 0x800 {
        string_of_range(hc.as_slice(), 0, 1)
    } else {
        string_of_range(hc.as_slice(), 0, 2)
    };
    assert(hc@.subrange(0, 1) == hash@.take(1));
    assert(hc@.len() >= 2 ==> hc@.subrange(0, 2) == hash@.take(2));
    let dir = join_path(cache_dir, bucket.as_str());
    let mut name = hash.to_owned();
    push_char(&mut name, '.');
    push_str(&mut name, ext);
    join_path(dir.as_str(), name.as_str())
}

/// The MIME type and extension a URL is stored and served as, by the
/// first of `.jpg`/`.jpeg`, `.png`, `.webp`, `.gif`, `.svg` found in the
/// lower-cased URL; octet-stream/`bin` otherwise.
pub open spec fn sniffed(u: Seq<char>) -> (Seq<char>, Seq<char>) {
    let l = unicode_lowercase(u);
    if contains(l, ".jpg"@) || contains(l, ".jpeg"@) {
        ("image/jpeg"@, "jpg"@)
    } else if contains(l, ".png"@) {
        ("image/png"@, "png"@)
    } else if contains(l, ".webp"@) {
        ("image/webp"@, "webp"@)
    } else if contains(l, ".gif"@) {
        ("image/gif"@, "gif"@)
    } else if contains(l, ".svg"@) {
        ("image/svg+xml"@, "svg"@)
    } else {
        ("application/octet-stream"@, "bin"@)
    }
}

/// MIME type and extension of a URL (see [`sniffed`]).
pub fn sniff_extension(url: &str) -> (r: (&'static str, &'static str))
    ensures
        (r.0@, r.1@) == sniffed(url@),
{
    let lower = to_lowercase(url);
    let l = lower.as_str();
    if contains_str(l, ".jpg") || contains_str(l, ".jpeg") {
        ("image/jpeg", "jpg")
    } else if contains_str(l, ".png") {
        ("image/png", "png")
    } else if contains_str(l, ".webp") {
        ("image/webp", "webp")
    } else if contains_str(l, ".gif") {
        ("image/gif", "gif")
    } else if contains_str(l, ".svg") {
        ("image/svg+xml", "svg")
    } else {
        ("application/octet-stream", "bin")
    }
}

// ---------------------------------------------------------------------
// image:// requests
// ---------------------------------------------------------------------

/// The upstream URL an `image://` request stands for, from the parsed
/// request URI: `https://<host><path>` plus `?<query>` when there is one.
/// Errors: the parse error, a scheme other than `image`, a missing host.
pub open spec fn upstream_of(parsed: Result<UrlView, Seq<char>>) -> Result<Seq<char>, Seq<char>> {
    match parsed {
        Err(e) => Err("image:// uri parse: "@ + e),
        Ok(v) => if v.0 != "image"@ {
            Err("expected image:// scheme, got "@ + v.0 + "://"@)
        } else {
            match v.1 {
                None => Err("image:// uri missing host"@),
                Some(h) => Ok(
                    "https://"@ + h + v.2 + match v.3 {
                        Some(q) => seq!['?'] + q,
                        None => Seq::empty(),
                    },
                ),
            }
        },
    }
}

/// The upstream URL for an already-parsed `image://` URI (see
/// [`upstream_of`]); every error is `ParseFailed` carrying the message.
pub fn upstream_from_parsed(parsed: Result<UrlParts, String>) -> (r: Result<String, AniError>)
    ensures
        match upstream_of(
            match parsed {
                Ok(p) => Ok::<UrlView, Seq<char>>(p@),
                Err(e) => Err::<UrlView, Seq<char>>(e@),
            },
        ) {
            Ok(u) => r matches Ok(s) && s@ == u,
            Err(m) => r matches Err(AniError::ParseFailed { detail }) && detail@ == m,
        },
{
    let p = match parsed {
        Err(e) => {
            return Err(AniError::ParseFailed { detail: concat2("image:// uri parse: ", e.as_str()) });
        },
        Ok(p) => p,
    };
    let image = "image";
    if !crate::text::str_eq(p.scheme.as_str(), image) {
        let mut d = concat2("expected image:// scheme, got ", p.scheme.as_str());
        push_str(&mut d, "://");
        return Err(AniError::ParseFailed { detail: d });
    }
    let host = match &p.host {
        None => {
            return Err(AniError::ParseFailed { detail: "image:// uri missing host".to_owned() });
        },
        Some(h) => h,
    };
    let mut out = concat2("https://", host.as_str());
    push_str(&mut out, p.path.as_str());
    match &p.query {
        Some(q) => {
            push_char(&mut out, '?');
            push_str(&mut out, q.as_str());
        },
        None => {},
    }
    Ok(out)
}

/// Maps an `image://<host>/<path>?<query>` request URI to the upstream
/// `https://` URL (see [`upstream_of`] over `url_parse`).
pub fn upstream_from_protocol_uri(uri: &str) -> (r: Result<String, AniError>)
    ensures
        match upstream_of(url_parse(uri@)) {
            Ok(u) => r matches Ok(s) && s@ == u,
            Err(m) => r matches Err(AniError::ParseFailed { detail }) && detail@ == m,
        },
{
    let parsed = parse_url(uri);
    upstream_from_parsed(parsed)
}

} // verus!
