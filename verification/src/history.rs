//! The shared `ani-hsts` history file: one TSV record per line,
//! `<ep_no>\t<id>\t<title>\n`, byte-compatible with what `ani-cli`'s
//! `update_history` writes.

use vstd::prelude::*;

use crate::text::{chars_of, find_char, push_char, string_of_range, str_eq};

verus! {

broadcast use vstd::string::group_string_axioms;

/// Mathematical content of one history row: `(ep_no, id, title)`.
pub type EntryView = (Seq<char>, Seq<char>, Seq<char>);

/// One row of the history file.
#[derive(Debug, Clone, PartialEq, Eq)]
pub struct HistoryEntry {
    /// Episode number the user last watched.
    pub ep_no: String,
    /// Allanime show id.
    pub id: String,
    /// Display title (typically `"<name> (<n> episodes)"`).
    pub title: String,
}

impl View for HistoryEntry {
    type V = EntryView;

    open spec fn view(&self) -> EntryView {
        (self.ep_no@, self.id@, self.title@)
    }
}

impl HistoryEntry {
    /// A field-by-field copy.
    pub fn duplicate(&self) -> (r: Self)
        ensures
            r@ == self@,
    {
        HistoryEntry { ep_no: self.ep_no.clone(), id: self.id.clone(), title: self.title.clone() }
    }
}

/// The rows of a vector, as values.
pub open spec fn entries_view(v: Seq<HistoryEntry>) -> Seq<EntryView> {
    v.map_values(|e: HistoryEntry| e@)
}

// ---------------------------------------------------------------------
// The file format
// ---------------------------------------------------------------------

/// A line with one trailing `'\r'` removed, if it has one.
pub open spec fn strip_cr(l: Seq<char>) -> Seq<char> {
    if l.len() > 0 && l.last() == '\r' {
        l.drop_last()
    } else {
        l
    }
}

/// Scanning state of `str::lines` after reading `s`: the finished lines
/// (each terminated by `'\n'`, with a `"\r\n"` ending counted as one
/// terminator) and the characters of the line still open.
pub open spec fn line_state(s: Seq<char>) -> (Seq<Seq<char>>, Seq<char>)
    decreases s.len(),
{
    if s.len() == 0 {
        (Seq::empty(), Seq::empty())
    } else {
        let (done, cur) = line_state(s.drop_last());
        if s.last() == '\n' {
            (done.push(strip_cr(cur)), Seq::empty())
        } else {
            (done, cur.push(s.last()))
        }
    }
}

/// `str::lines`: the finished lines, then the open line if it is not empty.
pub open spec fn lines(s: Seq<char>) -> Seq<Seq<char>> {
    let (done, cur) = line_state(s);
    if cur.len() == 0 {
        done
    } else {
        done.push(cur)
    }
}

/// One line split as `splitn(3, '\t')`: the row, when there are at least
/// two tabs and the first two fields are not empty.
pub open spec fn parse_line(l: Seq<char>) -> Option<EntryView> {
    match l.index_of_first('\t') {
        None => None,
        Some(i) => {
            let rest = l.subrange(i + 1, l.len() as int);
            match rest.index_of_first('\t') {
                None => None,
                Some(j) => {
                    let ep = l.subrange(0, i);
                    let id = rest.subrange(0, j);
                    let title = rest.subrange(j + 1, rest.len() as int);
                    if ep.len() == 0 || id.len() == 0 {
                        None
                    } else {
                        Some((ep, id, title))
                    }
                },
            }
        },
    }
}

/// The rows of the well-formed lines among `ls`, in order.
pub open spec fn parse_lines(ls: Seq<Seq<char>>) -> Seq<EntryView>
    decreases ls.len(),
{
    if ls.len() == 0 {
        Seq::empty()
    } else {
        let prev = parse_lines(ls.drop_last());
        match parse_line(ls.last()) {
            Some(e) => prev.push(e),
            None => prev,
        }
    }
}

/// What [`parse`] returns for a file body.
pub open spec fn parse_body(s: Seq<char>) -> Seq<EntryView> {
    parse_lines(lines(s))
}

/// One row as written to the file, without its newline.
pub open spec fn row_text(e: EntryView) -> Seq<char> {
    e.0 + seq!['\t'] + e.1 + seq!['\t'] + e.2
}

/// What [`serialize`] writes: every row followed by `'\n'`.
pub open spec fn serialize_rows(es: Seq<EntryView>) -> Seq<char>
    decreases es.len(),
{
    if es.len() == 0 {
        Seq::empty()
    } else {
        serialize_rows(es.drop_last()) + row_text(es.last()) + seq!['\n']
    }
}

/// A row that survives a write/read round trip: `ep_no` and `id` are
/// non-empty and hold no tab or newline; `title` holds no newline and does
/// not end with a carriage return.
pub open spec fn row_is_clean(e: EntryView) -> bool {
    &&& e.0.len() > 0
    &&& e.1.len() > 0
    &&& !e.0.contains('\t') && !e.0.contains('\n')
    &&& !e.1.contains('\t') && !e.1.contains('\n')
    &&& !e.2.contains('\n')
    &&& !(e.2.len() > 0 && e.2.last() == '\r')
}

// ---------------------------------------------------------------------
// Row edits
// ---------------------------------------------------------------------

/// The ids of the rows, in order.
pub open spec fn ids_of(es: Seq<EntryView>) -> Seq<Seq<char>> {
    es.map_values(|e: EntryView| e.1)
}

/// Insert-or-update by id: the first row with `n`'s id becomes `n`;
/// without such a row, `n` is appended.
pub open spec fn upsert_rows(es: Seq<EntryView>, n: EntryView) -> Seq<EntryView> {
    match ids_of(es).index_of_first(n.1) {
        Some(k) => es.update(k, n),
        None => es.push(n),
    }
}

/// The rows whose id differs from `id`, in order.
pub open spec fn without_id(es: Seq<EntryView>, id: Seq<char>) -> Seq<EntryView>
    decreases es.len(),
{
    if es.len() == 0 {
        Seq::empty()
    } else {
        let prev = without_id(es.drop_last(), id);
        if es.last().1 == id {
            prev
        } else {
            prev.push(es.last())
        }
    }
}

// ---------------------------------------------------------------------
// Executable functions
// ---------------------------------------------------------------------

proof fn lemma_first_tab_in_range(cs: Seq<char>, lo: int, hi: int, found: Option<usize>)
    requires
        0 <= lo <= hi <= cs.len(),
        match found {
            Some(i) => lo <= i < cs.len() && cs[i as int] == '\t' && forall|j: int|
                lo <= j < i ==> cs[j] != '\t',
            None => forall|j: int| lo <= j < cs.len() ==> cs[j] != '\t',
        },
    ensures
        ({
            let sub = cs.subrange(lo, hi);
            match found {
                Some(i) => if i < hi {
                    sub.index_of_first('\t') == Some(i - lo)
                } else {
                    sub.index_of_first('\t') is None
                },
                None => sub.index_of_first('\t') is None,
            }
        }),
{
    let sub = cs.subrange(lo, hi);
    sub.index_of_first_ensures('\t');
    match found {
        Some(i) => {
            if i < hi {
                assert(sub[i - lo] == '\t');
                match sub.index_of_first('\t') {
                    Some(k) => {
                        if k < i - lo {
                            assert(cs[lo + k] == sub[k]);
                        }
                    },
                    None => {
                        assert(sub.contains('\t'));
                    },
                }
            } else {
                match sub.index_of_first('\t') {
                    Some(k) => {
                        assert(cs[lo + k] == sub[k]);
                    },
                    None => {},
                }
            }
        },
        None => {
            match sub.index_of_first('\t') {
                Some(k) => {
                    assert(cs[lo + k] == sub[k]);
                },
                None => {},
            }
        },
    }
}

/// Parses the line `cs[lo..hi]` (see [`parse_line`]).
fn parse_line_at(cs: &[char], lo: usize, hi: usize) -> (r: Option<HistoryEntry>)
    requires
        lo <= hi <= cs.len(),
    ensures
        match r {
            Some(e) => parse_line(cs@.subrange(lo as int, hi as int)) == Some(e@),
            None => parse_line(cs@.subrange(lo as int, hi as int)) is None,
        },
{
    let ghost l = cs@.subrange(lo as int, hi as int);
    let t1 = find_char(cs, '\t', lo);
    proof {
        lemma_first_tab_in_range(cs@, lo as int, hi as int, t1);
    }
    let i = match t1 {
        Some(i) => i,
        None => return None,
    };
    if i >= hi {
        return None;
    }
    let ghost rest = l.subrange(i - lo + 1, l.len() as int);
    assert(rest == cs@.subrange(i + 1, hi as int));
    let t2 = find_char(cs, '\t', i + 1);
    proof {
        lemma_first_tab_in_range(cs@, i + 1, hi as int, t2);
    }
    let j = match t2 {
        Some(j) => j,
        None => return None,
    };
    if j >= hi {
        return None;
    }
    if lo == i || i + 1 == j {
        return None;
    }
    let ep_no = string_of_range(cs, lo, i);
    let id = string_of_range(cs, i + 1, j);
    let title = string_of_range(cs, j + 1, hi);
    proof {
        assert(l.subrange(0, i - lo) == cs@.subrange(lo as int, i as int));
        assert(rest.subrange(0, j - (i + 1)) == cs@.subrange(i + 1, j as int));
        assert(rest.subrange(j - (i + 1) + 1, rest.len() as int) == cs@.subrange(
            j + 1,
            hi as int,
        ));
    }
    Some(HistoryEntry { ep_no, id, title })
}

proof fn lemma_entries_view_push(v: Seq<HistoryEntry>, e: HistoryEntry)
    ensures
        entries_view(v.push(e)) == entries_view(v).push(e@),
{
    assert(entries_view(v.push(e)) =~= entries_view(v).push(e@));
}

/// Parses a TSV body into rows (`str::lines` then `splitn(3, '\t')` per
/// line). Lines with fewer than two tabs, or with an empty `ep_no` or
/// `id`, are dropped.
pub fn parse(body: &str) -> (out: Vec<HistoryEntry>)
    ensures
        entries_view(out@) == parse_body(body@),
{
    let cs = chars_of(body);
    let mut out: Vec<HistoryEntry> = Vec::new();
    let mut start: usize = 0;
    let mut i: usize = 0;
    assert(cs@.take(0) == Seq::<char>::empty());
    while i < cs.len()
        invariant
            cs@ == body@,
            start <= i <= cs.len(),
            line_state(cs@.take(i as int)).1 == cs@.subrange(start as int, i as int),
            entries_view(out@) == parse_lines(line_state(cs@.take(i as int)).0),
        decreases cs.len() - i,
    {
        let ghost pre = cs@.take(i as int);
        let ghost post = cs@.take(i + 1);
        assert(post.drop_last() == pre);
        assert(post.last() == cs@[i as int]);
        if cs[i] == '\n' {
            let end = if i > start && cs[i - 1] == '\r' {
                i - 1
            } else {
                i
            };
            let ghost cur = cs@.subrange(start as int, i as int);
            assert(strip_cr(cur) == cs@.subrange(start as int, end as int));
            let parsed = parse_line_at(cs.as_slice(), start, end);
            let ghost done = line_state(pre).0.push(strip_cr(cur));
            assert(done.drop_last() == line_state(pre).0);
            match parsed {
                Some(e) => {
                    proof {
                        lemma_entries_view_push(out@, e);
                    }
                    out.push(e);
                },
                None => {},
            }
            start = i + 1;
        } else {
            assert(cs@.subrange(start as int, i + 1) == cs@.subrange(start as int, i as int).push(
                cs@[i as int],
            ));
        }
        i = i + 1;
    }
    assert(cs@.take(cs@.len() as int) == cs@);
    if start < cs.len() {
        let ghost st = line_state(cs@);
        assert(lines(cs@).drop_last() == st.0);
        assert(lines(cs@).last() == cs@.subrange(start as int, cs.len() as int));
        let parsed = parse_line_at(cs.as_slice(), start, cs.len());
        match parsed {
            Some(e) => {
                proof {
                    lemma_entries_view_push(out@, e);
                }
                out.push(e);
            },
            None => {},
        }
    }
    out
}

/// Serializes rows back to the TSV body: `ep_no`, tab, `id`, tab,
/// `title`, newline, for every row (the last one included).
pub fn serialize(entries: &[HistoryEntry]) -> (out: String)
    ensures
        out@ == serialize_rows(entries_view(entries@)),
{
    let mut out = String::new();
    let mut i: usize = 0;
    while i < entries.len()
        invariant
            i <= entries.len(),
            out@ == serialize_rows(entries_view(entries@.take(i as int))),
        decreases entries.len() - i,
    {
        let e = &entries[i];
        out.append(e.ep_no.as_str());
        push_char(&mut out, '\t');
        out.append(e.id.as_str());
        push_char(&mut out, '\t');
        out.append(e.title.as_str());
        push_char(&mut out, '\n');
        proof {
            let vs = entries_view(entries@.take(i + 1));
            assert(vs.drop_last() == entries_view(entries@.take(i as int)));
            assert(vs.last() == e@);
        }
        i = i + 1;
    }
    assert(entries@.take(entries@.len() as int) == entries@);
    out
}

/// Insert or update a row, matching by `id`: the first row with the same
/// id takes the new `ep_no` and `title` in place; otherwise the new row is
/// appended.
pub fn upsert(entries: &mut Vec<HistoryEntry>, new: HistoryEntry)
    ensures
        entries_view(final(entries)@) == upsert_rows(entries_view(old(entries)@), new@),
{
    let ghost es = entries_view(entries@);
    let ghost ids = ids_of(es);
    let mut k: usize = 0;
    while k < entries.len()
        invariant
            k <= entries.len(),
            es == entries_view(entries@),
            entries@ == old(entries)@,
            ids == ids_of(es),
            forall|j: int| 0 <= j < k ==> ids[j] != new.id@,
        decreases entries.len() - k,
    {
        if str_eq(entries[k].id.as_str(), new.id.as_str()) {
            proof {
                ids.index_of_first_ensures(new.id@);
                assert(ids[k as int] == new.id@);
                match ids.index_of_first(new.id@) {
                    Some(m) => {
                        if m < k {
                            assert(ids[m] != new.id@);
                        }
                        if m > k {
                            assert(ids[k as int] != new.id@);
                        }
                    },
                    None => {
                        assert(ids.contains(new.id@));
                    },
                }
            }
            assert(ids.index_of_first(new.id@) == Some(k as int));
            entries.set(k, new);
            assert(entries_view(entries@) =~= es.update(k as int, new@));
            assert(upsert_rows(es, new@) == es.update(k as int, new@));
            return;
        }
        k = k + 1;
    }
    proof {
        ids.index_of_first_ensures(new.id@);
        if ids.contains(new.id@) {
            let m = choose|m: int| 0 <= m < ids.len() && ids[m] == new.id@;
            assert(ids[m] != new.id@);
        }
        lemma_entries_view_push(entries@, new);
    }
    entries.push(new);
}

/// The history file's new content after upserting `new`: the current
/// content (`None` when the file does not exist yet, read as empty)
/// parsed, `new` upserted, and the rows written back out. The caller
/// reads the file before and writes the result atomically after.
pub fn upsert_and_write(existing: Option<&str>, new: HistoryEntry) -> (out: String)
    ensures
        out@ == serialize_rows(
            upsert_rows(
                match existing {
                    Some(b) => parse_body(b@),
                    None => Seq::empty(),
                },
                new@,
            ),
        ),
{
    let mut entries = match existing {
        Some(b) => parse(b),
        None => Vec::new(),
    };
    assert(entries_view(entries@) =~= match existing {
        Some(b) => parse_body(b@),
        None => Seq::empty(),
    });
    upsert(&mut entries, new);
    serialize(entries.as_slice())
}

/// Removes every row whose id is `id`. Returns whether a row was removed.
pub fn remove_by_id(entries: &mut Vec<HistoryEntry>, id: &str) -> (removed: bool)
    ensures
        entries_view(final(entries)@) == without_id(entries_view(old(entries)@), id@),
        removed == ids_of(entries_view(old(entries)@)).contains(id@),
{
    let ghost es = entries_view(entries@);
    let mut kept: Vec<HistoryEntry> = Vec::new();
    let mut removed = false;
    let mut i: usize = 0;
    while i < entries.len()
        invariant
            i <= entries.len(),
            es == entries_view(entries@),
            entries_view(kept@) == without_id(es.take(i as int), id@),
            removed == ids_of(es.take(i as int)).contains(id@),
        decreases entries.len() - i,
    {
        let ghost pre = es.take(i as int);
        let ghost post = es.take(i + 1);
        assert(post.drop_last() == pre);
        assert(ids_of(post) == ids_of(pre).push(post.last().1));
        let e = entries[i].duplicate();
        if str_eq(e.id.as_str(), id) {
            removed = true;
            assert(ids_of(post)[i as int] == id@);
        } else {
            proof {
                lemma_entries_view_push(kept@, e);
                if ids_of(post).contains(id@) {
                    let m = choose|m: int| 0 <= m < ids_of(post).len() && ids_of(post)[m] == id@;
                    if m < i {
                        assert(ids_of(pre)[m] == id@);
                    }
                }
                if ids_of(pre).contains(id@) {
                    let m = choose|m: int| 0 <= m < ids_of(pre).len() && ids_of(pre)[m] == id@;
                    assert(ids_of(post)[m] == id@);
                }
            }
            kept.push(e);
        }
        i = i + 1;
    }
    assert(es.take(es.len() as int) == es);
    *entries = kept;
    removed
}

// ---------------------------------------------------------------------
// Laws
// ---------------------------------------------------------------------

proof fn lemma_line_state_append(s: Seq<char>, t: Seq<char>)
    requires
        line_state(s).1.len() == 0,
        !t.contains('\n'),
    ensures
        line_state(s + t) == (line_state(s).0, t),
    decreases t.len(),
{
    if t.len() == 0 {
        assert(s + t == s);
    } else {
        assert((s + t).drop_last() == s + t.drop_last());
        assert(!t.drop_last().contains('\n')) by {
            if t.drop_last().contains('\n') {
                let k = choose|k: int| 0 <= k < t.drop_last().len() && t.drop_last()[k] == '\n';
                assert(t[k] == '\n');
            }
        }
        lemma_line_state_append(s, t.drop_last());
        assert(t.last() != '\n') by {
            assert(t[t.len() - 1] == t.last());
        }
        assert(t.drop_last().push(t.last()) == t);
    }
}

proof fn lemma_row_text_facts(e: EntryView)
    requires
        row_is_clean(e),
    ensures
        !row_text(e).contains('\n'),
        strip_cr(row_text(e)) == row_text(e),
        parse_line(row_text(e)) == Some(e),
{
    let l = row_text(e);
    assert(!l.contains('\n')) by {
        if l.contains('\n') {
            let k = choose|k: int| 0 <= k < l.len() && l[k] == '\n';
            if k < e.0.len() {
                assert(e.0[k] == '\n');
            } else if k == e.0.len() {
            } else if k < e.0.len() + 1 + e.1.len() {
                assert(e.1[k - e.0.len() - 1] == '\n');
            } else if k == e.0.len() + 1 + e.1.len() {
            } else {
                assert(e.2[k - e.0.len() - 2 - e.1.len()] == '\n');
            }
        }
    }
    if e.2.len() > 0 {
        assert(l.last() == e.2.last());
    }
    l.index_of_first_ensures('\t');
    let i = e.0.len() as int;
    assert(l[i] == '\t');
    match l.index_of_first('\t') {
        Some(k) => {
            if k < i {
                assert(e.0[k] == '\t');
            }
            if k > i {
                assert(l[i] != '\t');
            }
        },
        None => {
            assert(l.contains('\t'));
        },
    }
    let rest = l.subrange(i + 1, l.len() as int);
    assert(rest == e.1 + seq!['\t'] + e.2);
    rest.index_of_first_ensures('\t');
    let j = e.1.len() as int;
    assert(rest[j] == '\t');
    match rest.index_of_first('\t') {
        Some(k) => {
            if k < j {
                assert(e.1[k] == '\t');
            }
            if k > j {
                assert(rest[j] != '\t');
            }
        },
        None => {
            assert(rest.contains('\t'));
        },
    }
    assert(l.subrange(0, i) == e.0);
    assert(rest.subrange(0, j) == e.1);
    assert(rest.subrange(j + 1, rest.len() as int) == e.2);
}

proof fn lemma_serialized_lines(es: Seq<EntryView>)
    requires
        forall|k: int| 0 <= k < es.len() ==> row_is_clean(#[trigger] es[k]),
    ensures
        line_state(serialize_rows(es)) == (es.map_values(|e: EntryView| row_text(e)), Seq::<
            char,
        >::empty()),
    decreases es.len(),
{
    if es.len() == 0 {
        assert(es.map_values(|e: EntryView| row_text(e)) =~= Seq::<Seq<char>>::empty());
    } else {
        let prev = es.drop_last();
        assert forall|k: int| 0 <= k < prev.len() implies row_is_clean(#[trigger] prev[k]) by {
            assert(prev[k] == es[k]);
        }
        lemma_serialized_lines(prev);
        let e = es.last();
        assert(row_is_clean(e)) by {
            assert(es[es.len() - 1] == e);
        }
        lemma_row_text_facts(e);
        let s = serialize_rows(prev);
        lemma_line_state_append(s, row_text(e));
        let full = serialize_rows(es);
        assert(full == s + row_text(e) + seq!['\n']);
        assert(full.drop_last() == s + row_text(e));
        assert(es.map_values(|x: EntryView| row_text(x)) =~= prev.map_values(
            |x: EntryView| row_text(x),
        ).push(row_text(e)));
    }
}

proof fn lemma_parse_rows(es: Seq<EntryView>)
    requires
        forall|k: int| 0 <= k < es.len() ==> row_is_clean(#[trigger] es[k]),
    ensures
        parse_lines(es.map_values(|e: EntryView| row_text(e))) == es,
    decreases es.len(),
{
    let ls = es.map_values(|e: EntryView| row_text(e));
    if es.len() == 0 {
    } else {
        let prev = es.drop_last();
        assert forall|k: int| 0 <= k < prev.len() implies row_is_clean(#[trigger] prev[k]) by {
            assert(prev[k] == es[k]);
        }
        lemma_parse_rows(prev);
        assert(ls.drop_last() == prev.map_values(|e: EntryView| row_text(e)));
        let e = es.last();
        assert(row_is_clean(e)) by {
            assert(es[es.len() - 1] == e);
        }
        lemma_row_text_facts(e);
        assert(ls.last() == row_text(e));
        assert(prev.push(e) == es);
    }
}

/// Reading back what was written gives the same rows: for rows whose
/// `ep_no` and `id` are non-empty and free of tabs and newlines, and whose
/// title has no newline and does not end with a carriage return,
/// `parse(serialize(rows)) == rows`.
pub proof fn law_parse_inverts_serialize(es: Seq<EntryView>)
    requires
        forall|k: int| 0 <= k < es.len() ==> row_is_clean(#[trigger] es[k]),
    ensures
        parse_body(serialize_rows(es)) == es,
{
    lemma_serialized_lines(es);
    lemma_parse_rows(es);
}

/// Applying the same insert-or-update twice gives the same rows as applying it once.
pub proof fn law_upsert_idempotent(es: Seq<EntryView>, n: EntryView)
    ensures
        upsert_rows(upsert_rows(es, n), n) == upsert_rows(es, n),
{
    let ids = ids_of(es);
    ids.index_of_first_ensures(n.1);
    let once = upsert_rows(es, n);
    let ids1 = ids_of(once);
    ids1.index_of_first_ensures(n.1);
    match ids.index_of_first(n.1) {
        Some(k) => {
            assert(ids1 =~= ids);
            assert(once.update(k, n) =~= once);
        },
        None => {
            assert(ids1 =~= ids.push(n.1));
            let last = es.len() as int;
            assert(ids1[last] == n.1);
            match ids1.index_of_first(n.1) {
                Some(m) => {
                    if m < last {
                        assert(ids[m] == ids1[m]);
                        assert(ids.contains(n.1));
                    }
                    assert(once.update(m, n) =~= once);
                },
                None => {
                    assert(ids1.contains(n.1));
                },
            }
        },
    }
}

proof fn lemma_without_id_excludes(es: Seq<EntryView>, id: Seq<char>)
    ensures
        !ids_of(without_id(es, id)).contains(id),
    decreases es.len(),
{
    if es.len() > 0 {
        lemma_without_id_excludes(es.drop_last(), id);
        let prev = without_id(es.drop_last(), id);
        if es.last().1 != id {
            let ids = ids_of(prev.push(es.last()));
            if ids.contains(id) {
                let m = choose|m: int| 0 <= m < ids.len() && ids[m] == id;
                if m < prev.len() {
                    assert(ids_of(prev)[m] == id);
                }
            }
        }
    }
}

/// Removing an id and then inserting a row with that id leaves exactly one
/// row with the id, and that row is the inserted one, at the end.
pub proof fn law_remove_then_upsert_single(es: Seq<EntryView>, target: EntryView)
    ensures
        ({
            let r = upsert_rows(without_id(es, target.1), target);
            &&& r.len() > 0
            &&& r.last() == target
            &&& forall|j: int| 0 <= j < r.len() - 1 ==> (#[trigger] r[j]).1 != target.1
        }),
{
    let w = without_id(es, target.1);
    lemma_without_id_excludes(es, target.1);
    ids_of(w).index_of_first_ensures(target.1);
    let r = upsert_rows(w, target);
    assert(r == w.push(target));
    assert forall|j: int| 0 <= j < r.len() - 1 implies (#[trigger] r[j]).1 != target.1 by {
        assert(r[j] == w[j]);
        assert(ids_of(w)[j] == w[j].1);
    }
}

} // verus!
