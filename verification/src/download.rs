//! Download requests: where the files go and how the request is seen by
//! the shared title/candidate selection.

use vstd::prelude::*;

use crate::error::AniError;
use crate::images::split_on;
use crate::play::PlayArgs;
use crate::text::{chars_of, push_char, strings_view};

verus! {

broadcast use vstd::string::group_string_axioms;

/// Frontend payload of a download.
#[derive(Debug, Clone)]
pub struct DownloadArgs {
    /// Canonical title.
    pub title: String,
    /// Episode number.
    pub episode: String,
    /// `"sub"` or `"dub"`.
    pub mode: String,
    /// Quality token; `"best"` when absent.
    pub quality: Option<String>,
    /// Kitsu's episode count.
    pub episode_count: Option<u32>,
    /// Fallback titles.
    pub alt_titles: Vec<String>,
    /// Kitsu id.
    pub kitsu_id: Option<String>,
    /// Output directory; the default download directory when absent or empty.
    pub download_dir: Option<String>,
}

/// One progress line of a running download.
#[derive(Debug, Clone)]
pub struct DownloadProgress {
    /// The line, as the downloader printed it.
    pub line: String,
}

/// Where a finished download went.
#[derive(Debug, Clone)]
pub struct DownloadResponse {
    /// Destination directory.
    pub dest_dir: String,
}

/// The destination: the explicit directory when given and not empty,
/// else the default download directory, else a configuration error.
pub fn resolve_dest(args: &DownloadArgs, default_dir: Option<String>) -> (r: Result<String, AniError>)
    ensures
        match args.download_dir {
            Some(d) if d@.len() > 0 => r matches Ok(p) && p@ == d@,
            _ => match default_dir {
                Some(d) => r matches Ok(p) && p@ == d@,
                None => r matches Err(AniError::Config),
            },
        },
{
    if let Some(d) = &args.download_dir {
        if d.unicode_len() > 0 {
            return Ok(d.clone());
        }
    }
    match default_dir {
        Some(d) => Ok(d),
        None => Err(AniError::Config),
    }
}

fn clone_strings(v: &Vec<String>) -> (r: Vec<String>)
    ensures
        strings_view(r@) == strings_view(v@),
{
    let mut out: Vec<String> = Vec::new();
    let mut i: usize = 0;
    while i < v.len()
        invariant
            i <= v.len(),
            strings_view(out@) == strings_view(v@).take(i as int),
        decreases v.len() - i,
    {
        let ghost before = out@;
        let s = v[i].clone();
        assert(s@ == v@[i as int]@);
        out.push(s);
        assert(out@ == before.push(s));
        assert(strings_view(out@) =~= strings_view(before).push(s@));
        assert(strings_view(v@).take(i + 1) =~= strings_view(v@).take(i as int).push(v@[i as int]@));
        i = i + 1;
    }
    assert(strings_view(v@).take(v.len() as int) == strings_view(v@));
    out
}

/// The download seen as a play request: same title, episode, mode,
/// quality, episode count, fallbacks and Kitsu id; never a prefetch.
pub fn play_args_view(args: &DownloadArgs) -> (r: PlayArgs)
    ensures
        r.title@ == args.title@,
        r.episode@ == args.episode@,
        r.mode@ == args.mode@,
        r.quality.is_some() == args.quality.is_some(),
        r.quality matches Some(q) ==> q@ == args.quality->0@,
        r.episode_count == args.episode_count,
        strings_view(r.alt_titles@) == strings_view(args.alt_titles@),
        !r.prefetch,
        r.kitsu_id.is_some() == args.kitsu_id.is_some(),
        r.kitsu_id matches Some(k) ==> k@ == args.kitsu_id->0@,
{
    PlayArgs {
        title: args.title.clone(),
        episode: args.episode.clone(),
        mode: args.mode.clone(),
        quality: match &args.quality {
            Some(q) => Some(q.clone()),
            None => None,
        },
        episode_count: args.episode_count,
        alt_titles: clone_strings(&args.alt_titles),
        prefetch: false,
        kitsu_id: match &args.kitsu_id {
            Some(k) => Some(k.clone()),
            None => None,
        },
    }
}

/// The non-empty pieces of `ps`, in order.
pub open spec fn non_empty_pieces(ps: Seq<Seq<char>>) -> Seq<Seq<char>>
    decreases ps.len(),
{
    if ps.len() == 0 {
        Seq::empty()
    } else {
        let prev = non_empty_pieces(ps.drop_last());
        if ps.last().len() > 0 {
            prev.push(ps.last())
        } else {
            prev
        }
    }
}

/// The titles of a newline-joined list (the form a query string carries),
/// empty lines dropped.
pub fn split_alt_titles(joined: &str) -> (r: Vec<String>)
    ensures
        strings_view(r@) == non_empty_pieces(split_on(joined@, '\n')),
{
    let cs = chars_of(joined);
    let mut done: Vec<String> = Vec::new();
    let mut cur = String::new();
    let mut i: usize = 0;
    assert(cs@.take(0) =~= Seq::<char>::empty());
    assert(strings_view(done@) =~= non_empty_pieces(seq![Seq::<char>::empty()].drop_last()));
    while i < cs.len()
        invariant
            i <= cs.len(),
            cs@ == joined@,
            split_on(cs@.take(i as int), '\n').last() == cur@,
            split_on(cs@.take(i as int), '\n').len() > 0,
            strings_view(done@) == non_empty_pieces(split_on(cs@.take(i as int), '\n').drop_last()),
        decreases cs.len() - i,
    {
        let ghost pre = cs@.take(i as int);
        let ghost post = cs@.take(i + 1);
        assert(post.drop_last() == pre);
        assert(post.last() == cs@[i as int]);
        let ghost sp = split_on(pre, '\n');
        if cs[i] == '\n' {
            let piece = cur;
            cur = String::new();
            let ghost before = strings_view(done@);
            assert(split_on(post, '\n').drop_last() == sp);
            assert(sp.drop_last().push(sp.last()) == sp);
            if piece.unicode_len() > 0 {
                done.push(piece);
                assert(strings_view(done@) =~= before.push(piece@));
            }
        } else {
            push_char(&mut cur, cs[i]);
            assert(split_on(post, '\n').drop_last() == sp.drop_last());
        }
        i = i + 1;
    }
    assert(cs@.take(cs@.len() as int) == cs@);
    let ghost sp = split_on(cs@, '\n');
    assert(sp.drop_last().push(sp.last()) == sp);
    let ghost before = strings_view(done@);
    if cur.unicode_len() > 0 {
        done.push(cur);
        assert(strings_view(done@) =~= before.push(sp.last()));
    }
    done
}

} // verus!
