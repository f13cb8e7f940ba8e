//! allanime search results and show metadata, the GraphQL requests that
//! fetch them, and the rules that pick a candidate for `ani-cli -S`.

use vstd::prelude::*;

use crate::error::AniError;
use crate::text::{
    chars_of, concat2, concat3, is_space, push_str, replace_char, replace_char_str, str_eq,
    strings_view, trim, trim_str,
};
use crate::web::{parse_url, url_parse};

verus! {

broadcast use vstd::string::group_string_axioms;

/// `true` when `mode` selects the dubbed track.
pub open spec fn is_dub(mode: Seq<char>) -> bool {
    mode == seq!['d', 'u', 'b']
}

/// Whether `mode` is exactly `"dub"`.
pub fn mode_is_dub(mode: &str) -> (r: bool)
    ensures
        r == is_dub(mode@),
{
    let cs = chars_of(mode);
    let r = cs.len() == 3 && cs[0] == 'd' && cs[1] == 'u' && cs[2] == 'b';
    proof {
        if r {
            assert(cs@ =~= seq!['d', 'u', 'b']);
        }
        if is_dub(mode@) {
            assert(cs@[0] == 'd' && cs@[1] == 'u' && cs@[2] == 'b');
        }
    }
    r
}

/// `availableEpisodes` of a search hit: episode counts per translation type.
#[derive(Debug, Clone, Copy, PartialEq, Eq)]
pub struct AvailableEpisodes {
    /// Subtitled-episode count.
    pub sub: u32,
    /// Dubbed-episode count.
    pub dub: u32,
}

impl Default for AvailableEpisodes {
    fn default() -> (r: Self)
        ensures
            r.sub == 0 && r.dub == 0,
    {
        AvailableEpisodes { sub: 0, dub: 0 }
    }
}

/// The count of `e` for `mode`: `dub` for `"dub"`, `sub` otherwise.
pub open spec fn count_for_mode(e: AvailableEpisodes, mode: Seq<char>) -> u32 {
    if is_dub(mode) {
        e.dub
    } else {
        e.sub
    }
}

impl AvailableEpisodes {
    /// Episode count to score against an expected count: the dub count when
    /// `mode` is `"dub"`, else the sub count.
    pub fn for_mode(&self, mode: &str) -> (r: u32)
        ensures
            r == count_for_mode(*self, mode@),
    {
        if mode_is_dub(mode) {
            self.dub
        } else {
            self.sub
        }
    }
}

/// One row of allanime's search response.
#[derive(Debug, Clone, PartialEq, Eq)]
pub struct Candidate {
    /// allanime's internal show id.
    pub id: String,
    /// Display name.
    pub name: String,
    /// Episode counts per translation type.
    pub available_episodes: AvailableEpisodes,
}

impl Candidate {
    /// A field-by-field copy.
    pub fn duplicate(&self) -> (r: Self)
        ensures
            r.id@ == self.id@,
            r.name@ == self.name@,
            r.available_episodes == self.available_episodes,
    {
        Candidate {
            id: self.id.clone(),
            name: self.name.clone(),
            available_episodes: self.available_episodes,
        }
    }
}

/// Distance between a candidate's episode count for `mode` and `expected`.
pub open spec fn ep_distance(c: Candidate, expected: u32, mode: Seq<char>) -> int {
    let got = count_for_mode(c.available_episodes, mode) as int;
    if got >= expected {
        got - expected
    } else {
        expected - got
    }
}

/// `k` (1-based) names a candidate at minimum distance, and no earlier
/// candidate is as close.
pub open spec fn is_best_pick(cs: Seq<Candidate>, expected: u32, mode: Seq<char>, k: int) -> bool {
    &&& 1 <= k <= cs.len()
    &&& forall|j: int|
        0 <= j < cs.len() ==> ep_distance(cs[k - 1], expected, mode) <= ep_distance(
            #[trigger] cs[j],
            expected,
            mode,
        )
    &&& forall|j: int|
        0 <= j < k - 1 ==> ep_distance(#[trigger] cs[j], expected, mode) > ep_distance(
            cs[k - 1],
            expected,
            mode,
        )
}

/// The 1-based index of the candidate whose episode count for `mode` is
/// closest to `expected`; ties go to the earliest candidate. `None` when
/// there are no candidates.
pub fn pick_by_ep_count(candidates: &[Candidate], expected: u32, mode: &str) -> (r: Option<usize>)
    ensures
        r is None <==> candidates@.len() == 0,
        r matches Some(k) ==> is_best_pick(candidates@, expected, mode@, k as int),
{
    if candidates.len() == 0 {
        return None;
    }
    let mut best_idx: usize = 0;
    let mut best_dist: u32 = u32::MAX;
    let mut i: usize = 0;
    while i < candidates.len()
        invariant
            i <= candidates.len(),
            candidates.len() > 0,
            best_idx < candidates.len(),
            i > 0 ==> best_idx < i,
            i > 0 ==> best_dist == ep_distance(candidates@[best_idx as int], expected, mode@),
            forall|j: int|
                0 <= j < i ==> best_dist <= ep_distance(#[trigger] candidates@[j], expected, mode@),
            forall|j: int|
                0 <= j < best_idx ==> ep_distance(#[trigger] candidates@[j], expected, mode@)
                    > best_dist,
        decreases candidates.len() - i,
    {
        let got = candidates[i].available_episodes.for_mode(mode);
        let dist = if got >= expected {
            got - expected
        } else {
            expected - got
        };
        if dist < best_dist || i == 0 {
            best_idx = i;
            best_dist = dist;
        }
        i = i + 1;
    }
    Some(best_idx + 1)
}

/// `availableEpisodesDetail`: episode tags streamable per mode.
#[derive(Debug, Clone, PartialEq, Eq)]
pub struct AvailableEpisodesDetail {
    /// Episode tags streamable in sub mode (e.g. `"5"`, `"1061.5"`).
    pub sub: Vec<String>,
    /// Episode tags streamable in dub mode.
    pub dub: Vec<String>,
}

impl Default for AvailableEpisodesDetail {
    fn default() -> (r: Self)
        ensures
            r.sub@.len() == 0 && r.dub@.len() == 0,
    {
        AvailableEpisodesDetail { sub: Vec::new(), dub: Vec::new() }
    }
}

/// The tag list of `d` for `mode`.
pub open spec fn tags_for_mode(d: AvailableEpisodesDetail, mode: Seq<char>) -> Seq<String> {
    if is_dub(mode) {
        d.dub@
    } else {
        d.sub@
    }
}

impl AvailableEpisodesDetail {
    /// Per-mode episode list: `dub` for `"dub"`, `sub` otherwise.
    pub fn for_mode(&self, mode: &str) -> (r: &[String])
        ensures
            r@ == tags_for_mode(*self, mode@),
    {
        if mode_is_dub(mode) {
            self.dub.as_slice()
        } else {
            self.sub.as_slice()
        }
    }
}

/// Subset of allanime's per-show metadata.
#[derive(Debug, Clone, PartialEq, Eq)]
pub struct ShowMetadata {
    /// Primary catalogue name. Sometimes a stub.
    pub name: String,
    /// Localised English title.
    pub english_name: Option<String>,
    /// Romanised native-language title.
    pub native_name: Option<String>,
    /// Alternate titles.
    pub alt_names: Vec<String>,
    /// Per-mode episode tags.
    pub available_episodes_detail: AvailableEpisodesDetail,
}

impl Default for ShowMetadata {
    fn default() -> (r: Self)
        ensures
            r.name@.len() == 0,
            r.english_name is None,
            r.native_name is None,
            r.alt_names@.len() == 0,
            r.available_episodes_detail.sub@.len() == 0,
            r.available_episodes_detail.dub@.len() == 0,
    {
        ShowMetadata {
            name: String::new(),
            english_name: None,
            native_name: None,
            alt_names: Vec::new(),
            available_episodes_detail: AvailableEpisodesDetail::default(),
        }
    }
}

/// `c` is an ASCII decimal digit.
pub open spec fn is_digit(c: char) -> bool {
    48 <= c as u32 <= 57
}

/// The value of a string of decimal digits.
pub open spec fn digits_value(d: Seq<char>) -> nat
    decreases d.len(),
{
    if d.len() == 0 {
        0
    } else {
        digits_value(d.drop_last()) * 10 + ((d.last() as u32) - 48) as nat
    }
}

/// A non-empty run of ASCII digits whose value fits in a `u32`, as that value.
pub open spec fn parse_digits_u32(d: Seq<char>) -> Option<u32> {
    if d.len() == 0 || exists|i: int| 0 <= i < d.len() && !is_digit(#[trigger] d[i]) {
        None
    } else if digits_value(d) > u32::MAX {
        None
    } else {
        Some(digits_value(d) as u32)
    }
}

/// What `str::parse::<u32>` accepts: an optional `'+'`, then one or more
/// ASCII digits whose value fits in a `u32`.
pub open spec fn parse_u32(s: Seq<char>) -> Option<u32> {
    if s.len() > 0 && s[0] == '+' {
        parse_digits_u32(s.drop_first())
    } else {
        parse_digits_u32(s)
    }
}

/// `str::parse::<u32>().ok()`.
pub fn parse_u32_str(s: &str) -> (r: Option<u32>)
    ensures
        r == parse_u32(s@),
{
    let cs = chars_of(s);
    let start: usize = if cs.len() > 0 && cs[0] == '+' {
        1
    } else {
        0
    };
    let ghost d = if cs@.len() > 0 && cs@[0] == '+' {
        cs@.drop_first()
    } else {
        cs@
    };
    assert(d == cs@.subrange(start as int, cs@.len() as int));
    if start == cs.len() {
        return None;
    }
    let mut acc: u64 = 0;
    let mut i: usize = start;
    let mut overflow = false;
    while i < cs.len()
        invariant
            start <= i <= cs.len(),
            cs@ == s@,
            d == (if s@.len() > 0 && s@[0] == '+' {
                s@.drop_first()
            } else {
                s@
            }),
            d == cs@.subrange(start as int, cs@.len() as int),
            forall|k: int| start <= k < i ==> is_digit(#[trigger] cs@[k]),
            !overflow ==> acc == digits_value(cs@.subrange(start as int, i as int)),
            !overflow ==> acc <= u32::MAX,
            overflow ==> digits_value(cs@.subrange(start as int, i as int)) > u32::MAX,
        decreases cs.len() - i,
    {
        let c = cs[i];
        let u = c as u32;
        if u < 48 || u > 57 {
            assert(!is_digit(d[i - start]));
            assert(exists|k: int| 0 <= k < d.len() && !is_digit(#[trigger] d[k]));
            assert(parse_u32(s@) is None);
            return None;
        }
        let ghost pre = cs@.subrange(start as int, i as int);
        let ghost post = cs@.subrange(start as int, i + 1);
        assert(post.drop_last() == pre);
        proof {
            if overflow {
                assert(digits_value(post) >= digits_value(pre) * 10) by (nonlinear_arith)
                    requires
                        digits_value(post) == digits_value(pre) * 10 + ((post.last() as u32) - 48) as nat,
                ;
            }
        }
        if !overflow {
            let next = acc * 10 + (u - 48) as u64;
            if next > 0xffff_ffff {
                overflow = true;
            } else {
                acc = next;
            }
        }
        i = i + 1;
    }
    assert(cs@.subrange(start as int, i as int) == d);
    if overflow {
        None
    } else {
        Some(acc as u32)
    }
}

/// The largest value among the tags of `tags` that parse as `u32`.
pub open spec fn max_parsed(tags: Seq<Seq<char>>) -> Option<u32>
    decreases tags.len(),
{
    if tags.len() == 0 {
        None
    } else {
        let prev = max_parsed(tags.drop_last());
        match parse_u32(tags.last()) {
            None => prev,
            Some(v) => match prev {
                None => Some(v),
                Some(p) => Some(if p >= v {
                    p
                } else {
                    v
                }),
            },
        }
    }
}

/// Candidate search terms, in order: English name, native name, then the
/// alternate names.
pub open spec fn term_sources(m: ShowMetadata) -> Seq<Seq<char>> {
    opt_seq(m.english_name) + opt_seq(m.native_name) + strings_view(m.alt_names@)
}

/// The characters of `o`'s string as a one-element list, or nothing.
pub open spec fn opt_seq(o: Option<String>) -> Seq<Seq<char>> {
    match o {
        Some(s) => seq![s@],
        None => Seq::empty(),
    }
}

/// The trimmed sources, skipping blank ones and ones already taken.
pub open spec fn dedup_trimmed(srcs: Seq<Seq<char>>) -> Seq<Seq<char>>
    decreases srcs.len(),
{
    if srcs.len() == 0 {
        Seq::empty()
    } else {
        let prev = dedup_trimmed(srcs.drop_last());
        let t = trim(srcs.last());
        if t.len() > 0 && !prev.contains(t) {
            prev.push(t)
        } else {
            prev
        }
    }
}

fn push_term(out: &mut Vec<String>, s: &str)
    ensures
        strings_view(final(out)@) == ({
            let prev = strings_view(old(out)@);
            let t = trim(s@);
            if t.len() > 0 && !prev.contains(t) {
                prev.push(t)
            } else {
                prev
            }
        }),
{
    let t = trim_str(s);
    if t.unicode_len() == 0 {
        return;
    }
    let ghost prev = strings_view(out@);
    let mut k: usize = 0;
    while k < out.len()
        invariant
            k <= out.len(),
            t@ == trim(s@),
            prev == strings_view(out@),
            out@ == old(out)@,
            forall|j: int| 0 <= j < k ==> prev[j] != t@,
        decreases out.len() - k,
    {
        if str_eq(out[k].as_str(), t.as_str()) {
            assert(prev[k as int] == t@);
            return;
        }
        k = k + 1;
    }
    proof {
        if prev.contains(t@) {
            let m = choose|m: int| 0 <= m < prev.len() && prev[m] == t@;
            assert(prev[m] != t@);
        }
    }
    out.push(t);
    assert(strings_view(out@) =~= prev.push(t@));
}

impl ShowMetadata {
    /// Highest integer episode streamable in `mode`, ignoring tags that do
    /// not parse as `u32` (half episodes such as `"1061.5"`). `None` when no
    /// tag parses.
    pub fn max_integer_episode(&self, mode: &str) -> (r: Option<u32>)
        ensures
            r == max_parsed(strings_view(tags_for_mode(self.available_episodes_detail, mode@))),
    {
        let tags = self.available_episodes_detail.for_mode(mode);
        let ghost sv = strings_view(tags@);
        let mut best: Option<u32> = None;
        let mut i: usize = 0;
        while i < tags.len()
            invariant
                i <= tags.len(),
                sv == strings_view(tags@),
                best == max_parsed(sv.take(i as int)),
            decreases tags.len() - i,
        {
            let v = parse_u32_str(tags[i].as_str());
            proof {
                assert(sv.take(i + 1).drop_last() == sv.take(i as int));
                assert(sv.take(i + 1).last() == tags@[i as int]@);
            }
            match v {
                None => {},
                Some(x) => {
                    best = match best {
                        None => Some(x),
                        Some(p) => Some(
                            if p >= x {
                                p
                            } else {
                                x
                            },
                        ),
                    };
                },
            }
            i = i + 1;
        }
        assert(sv.take(sv.len() as int) == sv);
        best
    }

    /// Ordered search terms for a downstream fuzzy matcher: English name,
    /// native name, then alternate names; each trimmed, blank ones skipped,
    /// duplicates dropped. `name` is not included.
    pub fn search_terms(&self) -> (r: Vec<String>)
        ensures
            strings_view(r@) == dedup_trimmed(term_sources(*self)),
    {
        let mut out: Vec<String> = Vec::new();
        let ghost srcs = term_sources(*self);
        let ghost alts = strings_view(self.alt_names@);
        let ghost e = opt_seq(self.english_name);
        let ghost n = opt_seq(self.native_name);
        assert(srcs == e + n + alts);
        match &self.english_name {
            Some(s) => {
                push_term(&mut out, s.as_str());
                assert(e.drop_last() =~= Seq::<Seq<char>>::empty());
                assert(dedup_trimmed(e.drop_last()) == Seq::<Seq<char>>::empty());
                assert(e.last() == s@);
                assert(strings_view(Seq::<String>::empty()) =~= Seq::<Seq<char>>::empty());
            },
            None => {
                assert(strings_view(out@) =~= Seq::<Seq<char>>::empty());
            },
        }
        assert(strings_view(out@) == dedup_trimmed(e));
        match &self.native_name {
            Some(s) => {
                push_term(&mut out, s.as_str());
                assert((e + n).drop_last() == e);
            },
            None => {
                assert(e + n == e);
            },
        }
        let ghost en = e + n;
        assert(strings_view(out@) == dedup_trimmed(en));
        let mut i: usize = 0;
        while i < self.alt_names.len()
            invariant
                i <= self.alt_names.len(),
                alts == strings_view(self.alt_names@),
                strings_view(out@) == dedup_trimmed(en + alts.take(i as int)),
            decreases self.alt_names.len() - i,
        {
            push_term(&mut out, self.alt_names[i].as_str());
            proof {
                assert((en + alts.take(i + 1)).drop_last() == en + alts.take(i as int));
                assert((en + alts.take(i + 1)).last() == self.alt_names@[i as int]@);
            }
            i = i + 1;
        }
        assert(alts.take(alts.len() as int) == alts);
        out
    }
}

/// Replace ASCII space with `'+'`, as `ani-cli`'s `search_anime` does before
/// posting the query.
pub fn encode_query_for_allanime(s: &str) -> (r: String)
    ensures
        r@ == replace_char(s@, ' ', seq!['+']),
{
    let plus = "+";
    proof {
        reveal_strlit("+");
    }
    assert(plus@ =~= seq!['+']);
    replace_char_str(s, ' ', plus)
}

/// The search terms are never blank, never repeat, and each is a trimmed
/// source name.
pub proof fn law_search_terms_distinct_nonblank(srcs: Seq<Seq<char>>)
    ensures
        forall|i: int|
            0 <= i < dedup_trimmed(srcs).len() ==> (#[trigger] dedup_trimmed(srcs)[i]).len() > 0,
        forall|i: int, j: int|
            0 <= i < j < dedup_trimmed(srcs).len() ==> #[trigger] dedup_trimmed(srcs)[i]
                != #[trigger] dedup_trimmed(srcs)[j],
        forall|i: int|
            0 <= i < dedup_trimmed(srcs).len() ==> exists|k: int|
                0 <= k < srcs.len() && #[trigger] dedup_trimmed(srcs)[i] == trim(srcs[k]),
    decreases srcs.len(),
{
    if srcs.len() > 0 {
        let prev = dedup_trimmed(srcs.drop_last());
        law_search_terms_distinct_nonblank(srcs.drop_last());
        let d = dedup_trimmed(srcs);
        let t = trim(srcs.last());
        assert forall|i: int| 0 <= i < prev.len() implies exists|k: int|
            0 <= k < srcs.len() && #[trigger] prev[i] == trim(srcs[k]) by {
            let k = choose|k: int| 0 <= k < srcs.drop_last().len() && prev[i] == trim(srcs.drop_last()[k]);
            assert(srcs.drop_last()[k] == srcs[k]);
        }
        if t.len() > 0 && !prev.contains(t) {
            assert(d == prev.push(t));
            assert forall|i: int, j: int| 0 <= i < j < d.len() implies #[trigger] d[i] != #[trigger] d[j] by {
                if j == d.len() - 1 {
                    assert(d[i] == prev[i]);
                    assert(!prev.contains(t));
                }
            }
            assert forall|i: int| 0 <= i < d.len() implies exists|k: int|
                0 <= k < srcs.len() && #[trigger] d[i] == trim(srcs[k]) by {
                if i == d.len() - 1 {
                    assert(d[i] == trim(srcs[srcs.len() - 1]));
                } else {
                    assert(d[i] == prev[i]);
                }
            }
        }
    }
}

/// The highest integer episode is the largest tag that parses as a
/// `u32`, and there is none exactly when no tag parses.
pub proof fn law_max_integer_episode_is_max(tags: Seq<Seq<char>>)
    ensures
        max_parsed(tags) is None <==> forall|i: int| 0 <= i < tags.len() ==> parse_u32(#[trigger] tags[i]) is None,
        max_parsed(tags) matches Some(v) ==> (exists|i: int| 0 <= i < tags.len() && parse_u32(#[trigger] tags[i])
            == Some(v)),
        max_parsed(tags) matches Some(v) ==> (forall|i: int|
            0 <= i < tags.len() ==> (parse_u32(#[trigger] tags[i]) matches Some(w) ==> w <= v)),
    decreases tags.len(),
{
    if tags.len() > 0 {
        let init = tags.drop_last();
        law_max_integer_episode_is_max(init);
        let n = tags.len() - 1;
        assert(tags.last() == tags[n]);
        assert forall|i: int| 0 <= i < init.len() implies #[trigger] init[i] == tags[i] by {}
        if forall|i: int| 0 <= i < tags.len() ==> parse_u32(#[trigger] tags[i]) is None {
            assert forall|i: int| 0 <= i < init.len() implies parse_u32(#[trigger] init[i]) is None by {
                assert(init[i] == tags[i]);
            }
            assert(parse_u32(tags[n]) is None);
        }
        match max_parsed(tags) {
            Some(v) => {
                if parse_u32(tags[n]) != Some(v) {
                    let i = choose|i: int| 0 <= i < init.len() && parse_u32(#[trigger] init[i]) == Some(v);
                    assert(parse_u32(tags[i]) == Some(v));
                }
                assert forall|i: int| 0 <= i < tags.len() implies (parse_u32(#[trigger] tags[i]) matches Some(
                    w,
                ) ==> w <= v) by {
                    if i < n {
                        assert(tags[i] == init[i]);
                    }
                }
            },
            None => {
                assert forall|i: int| 0 <= i < tags.len() implies parse_u32(#[trigger] tags[i]) is None by {
                    if i < n {
                        assert(tags[i] == init[i]);
                    }
                }
            },
        }
    }
}

// ---------------------------------------------------------------------
// GraphQL requests
// ---------------------------------------------------------------------

/// allanime's API host.
pub const ALLANIME_API: &'static str = "https://api.allanime.day";

/// The `Referer` allanime's API requires.
pub const ALLANIME_REFERER: &'static str = "https://allmanga.to";

/// The `shows` search query, as `ani-cli`'s `search_anime` sends it.
pub const SEARCH_GQL: &'static str = "query( $search: SearchInput $limit: Int $page: Int $translationType: VaildTranslationTypeEnumType $countryOrigin: VaildCountryOriginEnumType ) { shows( search: $search limit: $limit page: $page translationType: $translationType countryOrigin: $countryOrigin ) { edges { _id name availableEpisodes __typename } }}";

/// The `show` query for one show's title aliases and episode tags.
pub const SHOW_GQL: &'static str = "query Show($showId: String!){ show(_id: $showId){ name englishName nativeName altNames availableEpisodesDetail }}";

/// A hexadecimal digit in lower case, as `serde_json` writes them.
pub open spec fn lower_hex_digit(d: nat) -> char {
    if d < 10 {
        (('0' as nat) + d) as char
    } else {
        (('a' as nat) + d - 10) as char
    }
}

/// How `serde_json` writes one character inside a string literal: `"`
/// and `\` behind a backslash; backspace, tab, line feed, form feed and
/// carriage return as `\b`, `\t`, `\n`, `\f`, `\r`; every other
/// character below U+0020 as `\u00` and two lower-case hex digits; any
/// other character as it is.
pub open spec fn json_escape_char(c: char) -> Seq<char> {
    if c == '"' {
        seq!['\\', '"']
    } else if c == '\\' {
        seq!['\\', '\\']
    } else if c == '\u{8}' {
        seq!['\\', 'b']
    } else if c == '\t' {
        seq!['\\', 't']
    } else if c == '\n' {
        seq!['\\', 'n']
    } else if c == '\u{c}' {
        seq!['\\', 'f']
    } else if c == '\r' {
        seq!['\\', 'r']
    } else if (c as nat) < 0x20 {
        seq!['\\', 'u', '0', '0', lower_hex_digit((c as nat) / 16), lower_hex_digit((c as nat) % 16)]
    } else {
        seq![c]
    }
}

/// The characters of `s`, each written as [`json_escape_char`] does.
pub open spec fn json_escape(s: Seq<char>) -> Seq<char>
    decreases s.len(),
{
    if s.len() == 0 {
        Seq::empty()
    } else {
        json_escape(s.drop_last()) + json_escape_char(s.last())
    }
}

/// What `serde_json::to_string` writes for the string `s`: the escaped
/// characters between double quotes.
pub open spec fn json_str(s: Seq<char>) -> Seq<char> {
    seq!['"'] + json_escape(s) + seq!['"']
}

/// Calls `serde_json::to_string` on a string, which writes the literal
/// described by [`json_str`] (its `format_escaped_str` with the `ESCAPE`
/// table). For a string the serializer writes into a `Vec<u8>`, which
/// cannot fail, so the empty fallback is never taken.
#[verifier::external_body]
pub(crate) fn json_quote(s: &str) -> (r: String)
    ensures
        r@ == json_str(s@),
{
    serde_json::to_string(s).unwrap_or_default()
}

/// An allanime answer is read only with a 2xx status; any other status is
/// `Upstream` with that status.
pub fn check_api_status(status: u16) -> (r: Result<(), AniError>)
    ensures
        200 <= status <= 299 ==> r is Ok,
        !(200 <= status <= 299) ==> (r matches Err(AniError::Upstream { status: s }) && s == status),
{
    if 200 <= status && status <= 299 {
        Ok(())
    } else {
        Err(AniError::Upstream { status })
    }
}

/// The show of a `show` answer: the one given, or, for `null` (an unknown
/// id), the empty metadata.
pub fn show_or_default(show: Option<ShowMetadata>) -> (r: ShowMetadata)
    ensures
        show matches Some(s) ==> r == s,
        show is None ==> r.name@.len() == 0 && r.english_name is None && r.native_name is None
            && r.alt_names@.len() == 0 && r.available_episodes_detail.sub@.len() == 0
            && r.available_episodes_detail.dub@.len() == 0,
{
    match show {
        Some(s) => s,
        None => ShowMetadata::default(),
    }
}

/// The GraphQL endpoint `<base>/api`, after checking that it parses as a
/// URL; `base` is allanime's host unless overridden. The error names the
/// request (`"allanime <label> url: <url>"`).
pub fn api_endpoint(base_override: Option<&str>, label: &str) -> (r: Result<String, AniError>)
    ensures
        ({
            let url = match base_override {
                Some(b) => b@,
                None => ALLANIME_API@,
            } + "/api"@;
            match url_parse(url) {
                Ok(_) => r matches Ok(u) && u@ == url,
                Err(_) => r matches Err(AniError::ParseFailed { detail }) && detail@ == "allanime "@
                    + label@ + " url: "@ + url,
            }
        }),
{
    let base = match base_override {
        Some(b) => b,
        None => ALLANIME_API,
    };
    let url = concat2(base, "/api");
    match parse_url(url.as_str()) {
        Ok(_) => Ok(url),
        Err(_) => {
            let mut d = concat3("allanime ", label, " url: ");
            push_str(&mut d, url.as_str());
            Err(AniError::ParseFailed { detail: d })
        },
    }
}

/// The search request body: the `shows` query with the search text (its
/// spaces as `+`), no adult or unknown entries, 40 results of page 1, the
/// translation type and every country of origin. Keys are in the sorted
/// order of `serde_json`'s map.
pub open spec fn search_body(query: Seq<char>, mode: Seq<char>) -> Seq<char> {
    "{\"query\":"@ + json_str(SEARCH_GQL@)
        + ",\"variables\":{\"countryOrigin\":\"ALL\",\"limit\":40,\"page\":1,\"search\":{\"allowAdult\":false,\"allowUnknown\":false,\"query\":"@
        + json_str(replace_char(query, ' ', seq!['+'])) + "},\"translationType\":"@ + json_str(mode)
        + "}}"@
}

/// Builds the search request body (see [`search_body`]).
pub fn search_request_body(query: &str, mode: &str) -> (r: String)
    ensures
        r@ == search_body(query@, mode@),
{
    let encoded = encode_query_for_allanime(query);
    let gql = json_quote(SEARCH_GQL);
    let q = json_quote(encoded.as_str());
    let m = json_quote(mode);
    let mut r = concat2("{\"query\":", gql.as_str());
    push_str(
        &mut r,
        ",\"variables\":{\"countryOrigin\":\"ALL\",\"limit\":40,\"page\":1,\"search\":{\"allowAdult\":false,\"allowUnknown\":false,\"query\":",
    );
    push_str(&mut r, q.as_str());
    push_str(&mut r, "},\"translationType\":");
    push_str(&mut r, m.as_str());
    push_str(&mut r, "}}");
    r
}

/// The show request body: the `show` query for one show id.
pub fn show_request_body(show_id: &str) -> (r: String)
    ensures
        r@ == "{\"query\":"@ + json_str(SHOW_GQL@) + ",\"variables\":{\"showId\":"@ + json_str(
            show_id@,
        ) + "}}"@,
{
    let gql = json_quote(SHOW_GQL);
    let id = json_quote(show_id);
    let mut r = concat2("{\"query\":", gql.as_str());
    push_str(&mut r, ",\"variables\":{\"showId\":");
    push_str(&mut r, id.as_str());
    push_str(&mut r, "}}");
    r
}

} // verus!
