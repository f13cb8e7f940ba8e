//! Long-term cache of play resolutions: the key a resolution is stored
//! under and what is stored.

use vstd::prelude::*;

use crate::play::MediaKind;
use crate::text::{concat3, push_str, starts_with};

verus! {

broadcast use vstd::string::group_string_axioms;

/// The key a play resolution is stored under:
/// `play:v1:<title>:<mode>:<quality>:<episode>`.
pub open spec fn play_key(title: Seq<char>, mode: Seq<char>, quality: Seq<char>, episode: Seq<char>) -> Seq<
    char,
> {
    "play:v1:"@ + title + ":"@ + mode + ":"@ + quality + ":"@ + episode
}

/// `s` holds no `:`.
pub open spec fn colon_free(s: Seq<char>) -> bool {
    forall|i: int| 0 <= i < s.len() ==> s[i] != ':'
}

/// The SQLite key of a play resolution (see [`play_key`]).
pub fn cache_key(title: &str, mode: &str, quality: &str, episode: &str) -> (r: String)
    ensures
        r@ == play_key(title@, mode@, quality@, episode@),
{
    let mut r = concat3("play:v1:", title, ":");
    push_str(&mut r, mode);
    push_str(&mut r, ":");
    push_str(&mut r, quality);
    push_str(&mut r, ":");
    push_str(&mut r, episode);
    r
}

proof fn lemma_last_field(a: Seq<char>, b: Seq<char>, c: Seq<char>, d: Seq<char>)
    requires
        colon_free(b),
        colon_free(d),
        (a + ":"@) + b == (c + ":"@) + d,
    ensures
        a == c,
        b == d,
{
    reveal_strlit(":");
    let x = (a + ":"@) + b;
    let y = (c + ":"@) + d;
    if b.len() < d.len() {
        let i = x.len() - b.len() - 1;
        assert(x[i] == ':');
        assert(y[i] == d[d.len() - b.len() - 1]);
    } else if d.len() < b.len() {
        let i = y.len() - d.len() - 1;
        assert(y[i] == ':');
        assert(x[i] == b[b.len() - d.len() - 1]);
    }
    assert(b.len() == d.len());
    assert(b =~= x.subrange(x.len() - b.len(), x.len() as int));
    assert(d =~= y.subrange(y.len() - d.len(), y.len() as int));
    assert(a =~= x.subrange(0, a.len() as int));
    assert(c =~= y.subrange(0, c.len() as int));
}

/// Every key starts with `play:v1:` (so rows of an earlier key scheme are
/// never read), and two requests share a key only when they agree on
/// title, mode, quality and episode, as long as mode, quality and
/// episode hold no `:` (a title may).
pub proof fn law_play_keys_are_distinct(
    t1: Seq<char>,
    m1: Seq<char>,
    q1: Seq<char>,
    e1: Seq<char>,
    t2: Seq<char>,
    m2: Seq<char>,
    q2: Seq<char>,
    e2: Seq<char>,
)
    requires
        colon_free(m1),
        colon_free(q1),
        colon_free(e1),
        colon_free(m2),
        colon_free(q2),
        colon_free(e2),
    ensures
        starts_with(play_key(t1, m1, q1, e1), "play:v1:"@),
        play_key(t1, m1, q1, e1) == play_key(t2, m2, q2, e2) <==> (t1 == t2 && m1 == m2 && q1 == q2
            && e1 == e2),
{
    let p = "play:v1:"@;
    assert((p + t1 + ":"@ + m1 + ":"@ + q1 + ":"@ + e1).subrange(0, p.len() as int) =~= p);
    if play_key(t1, m1, q1, e1) == play_key(t2, m2, q2, e2) {
        lemma_last_field(p + t1 + ":"@ + m1 + ":"@ + q1, e1, p + t2 + ":"@ + m2 + ":"@ + q2, e2);
        lemma_last_field(p + t1 + ":"@ + m1, q1, p + t2 + ":"@ + m2, q2);
        lemma_last_field(p + t1, m1, p + t2, m2);
        assert(t1 =~= (p + t1).subrange(p.len() as int, (p + t1).len() as int));
        assert(t2 =~= (p + t2).subrange(p.len() as int, (p + t2).len() as int));
    }
}

/// What `ani-cli`'s debug output produced, frozen for replay.
#[derive(Debug, Clone)]
pub struct CachedResolution {
    /// Final upstream URL.
    pub upstream_url: String,
    /// Referer to send upstream; empty for none.
    pub referer: String,
    /// Subtitle URL, if any.
    pub subtitle_url: Option<String>,
    /// How the proxy serves it.
    pub media_kind: MediaKind,
    /// allanime show id of the chosen candidate; empty for rows written
    /// before show ids were recorded.
    pub show_id: String,
    /// History title of the chosen candidate; empty with `show_id`.
    pub show_title: String,
}

} // verus!
