//! The preview engine: a single slot holding the current preview target,
//! its data, and at most one in-flight producer. A new request cancels the
//! prior producer; every producer run emits exactly one `Preview` event for
//! its path, substituting the empty variant on any failure.

use vstd::prelude::*;

use crate::fs::File;
use crate::mime::{mime_kind_of, MimeKind};
use crate::tasks::TasksProgress;
use crate::text::{count_char, first_lines, lemma_first_lines_newlines, spec_first_lines};
use crate::url::{Url, UrlView};

verus! {

/// What a preview produced. The empty variant stands for every failure.
#[derive(Debug)]
pub enum PreviewData {
    Empty,
    Folder,
    Text(String),
    Image(Vec<u8>),
}

/// Mathematical shape of preview data.
#[verifier::ext_equal]
pub ghost enum PreviewDataView {
    Empty,
    Folder,
    Text(Seq<char>),
    Image(Seq<u8>),
}

impl View for PreviewData {
    type V = PreviewDataView;

    open spec fn view(&self) -> PreviewDataView {
        match self {
            PreviewData::Empty => PreviewDataView::Empty,
            PreviewData::Folder => PreviewDataView::Folder,
            PreviewData::Text(s) => PreviewDataView::Text(s@),
            PreviewData::Image(b) => PreviewDataView::Image(b@),
        }
    }
}

impl Default for PreviewData {
    /// The empty variant.
    fn default() -> (r: PreviewData)
        ensures
            r@ == PreviewDataView::Empty,
    {
        PreviewData::Empty
    }
}

/// What the folder producer reports: a listing, or the failure to read
/// one.
#[derive(Debug)]
pub enum FilesOp {
    Read(Url, Vec<File>),
    IOErr(Url),
}

/// An event on the bus to the interface.
#[derive(Debug)]
pub enum Event {
    Preview(Url, PreviewData),
    Files(FilesOp),
    Progress(TasksProgress),
}

/// Mathematical shape of an in-flight producer.
#[verifier::ext_equal]
pub ghost struct JobView {
    pub path: UrlView,
    pub kind: MimeKind,
}

/// What a producer is to work on: the requested path and its MIME kind.
#[derive(Debug)]
pub struct ProducerJob {
    pub path: Url,
    pub kind: MimeKind,
}

impl View for ProducerJob {
    type V = JobView;

    open spec fn view(&self) -> JobView {
        JobView { path: self.path@, kind: self.kind }
    }
}

/// Mathematical shape of the preview slot.
#[verifier::ext_equal]
pub ghost struct PreviewView {
    pub path: UrlView,
    pub data: PreviewDataView,
    pub handle: Option<JobView>,
}

/// The preview slot: the current target, its data, and the at most one
/// in-flight producer.
#[derive(Debug)]
pub struct Preview {
    pub path: Url,
    pub data: PreviewData,
    pub handle: Option<ProducerJob>,
}

impl View for Preview {
    type V = PreviewView;

    open spec fn view(&self) -> PreviewView {
        PreviewView {
            path: self.path@,
            data: self.data@,
            handle: match self.handle {
                Some(j) => Some(j@),
                None => None,
            },
        }
    }
}

/// The view of the empty local URL.
pub open spec fn default_url_view() -> UrlView {
    UrlView { scheme: None, comps: Seq::<Seq<char>>::empty() }
}

/// The view of a fresh preview slot.
pub open spec fn fresh_view() -> PreviewView {
    PreviewView { path: default_url_view(), data: PreviewDataView::Empty, handle: None }
}

/// What `go` does to the slot: the prior producer is dropped, the new one
/// recorded, and the target replaced; data stays until a result arrives.
pub open spec fn spec_go(s: PreviewView, path: UrlView, kind: MimeKind) -> (PreviewView, JobView) {
    let job = JobView { path, kind };
    (PreviewView { path, data: s.data, handle: Some(job) }, job)
}

/// What `reset` does to the slot: a fresh slot stays put and reports no
/// change; any other slot has target and data cleared.
pub open spec fn spec_reset(s: PreviewView) -> (PreviewView, bool) {
    if s.path == default_url_view() {
        (s, false)
    } else {
        (PreviewView { path: default_url_view(), data: PreviewDataView::Empty, handle: s.handle }, true)
    }
}

/// What applying one `Preview` event does: a result for the current
/// target lands and closes the producer slot; a stale result is ignored.
pub open spec fn spec_complete(s: PreviewView, path: UrlView, data: PreviewDataView) -> (
    PreviewView,
    bool,
) {
    if path == s.path {
        (PreviewView { path: s.path, data, handle: None }, true)
    } else {
        (s, false)
    }
}

/// How many producers a slot holds.
pub open spec fn in_flight_count(s: PreviewView) -> nat {
    if s.handle is Some {
        1nat
    } else {
        0nat
    }
}

/// The engine holds at most one non-completed producer: every transition
/// leaves at most one handle in the slot.
pub proof fn lemma_single_slot(s: PreviewView, path: UrlView, kind: MimeKind, data: PreviewDataView)
    ensures
        in_flight_count(spec_go(s, path, kind).0) <= 1,
        in_flight_count(spec_reset(s).0) <= 1,
        in_flight_count(spec_complete(s, path, data).0) <= 1,
{
}

/// `reset` on a fresh slot reports no change; after `go` to any
/// non-default path it reports a change once, and reports none when asked
/// again.
pub proof fn lemma_reset_flag(s: PreviewView, path: UrlView, kind: MimeKind)
    requires
        path != default_url_view(),
    ensures
        spec_reset(fresh_view()).1 == false,
        spec_reset(spec_go(s, path, kind).0).1 == true,
        spec_reset(spec_reset(spec_go(s, path, kind).0).0).1 == false,
{
}

impl Preview {
    /// A fresh slot: no target, no data, no producer.
    pub fn new() -> (p: Preview)
        ensures
            p@ == fresh_view(),
    {
        let p = Preview { path: Url::default(), data: PreviewData::default(), handle: None };
        proof {
            assert(p@ =~~= fresh_view());
        }
        p
    }

    /// Replace the preview target: the prior producer is cancelled by
    /// dropping its handle, and the returned job is what the caller is to
    /// run for the new target.
    pub fn go(&mut self, path: &Url, mime: &str) -> (job: ProducerJob)
        ensures
            final(self)@ == spec_go(old(self)@, path@, mime_kind_of(mime@)).0,
            job@ == spec_go(old(self)@, path@, mime_kind_of(mime@)).1,
    {
        let kind = MimeKind::new(mime);
        self.handle = None;
        self.handle = Some(ProducerJob { path: path.clone(), kind });
        self.path = path.clone();
        let job = ProducerJob { path: path.clone(), kind };
        proof {
            assert(self@ =~~= spec_go(old(self)@, path@, mime_kind_of(mime@)).0);
            assert(job@ =~~= spec_go(old(self)@, path@, mime_kind_of(mime@)).1);
        }
        job
    }

    /// Clear the slot, reporting whether anything was showing: `false` on
    /// a fresh slot, `true` otherwise.
    pub fn reset(&mut self) -> (changed: bool)
        ensures
            final(self)@ == spec_reset(old(self)@).0,
            changed == spec_reset(old(self)@).1,
    {
        if self.path.is_default() {
            proof {
                assert(self@.path =~~= default_url_view());
                assert(self@ =~~= spec_reset(old(self)@).0);
            }
            return false;
        }
        self.path = Url::default();
        self.data = PreviewData::default();
        proof {
            assert(old(self)@.path != default_url_view()) by {
                if old(self)@.path == default_url_view() {
                    assert(old(self).path.spec_is_default());
                }
            }
            assert(self@ =~~= spec_reset(old(self)@).0);
        }
        true
    }

    /// Apply one `Preview` result to the slot: accepted only when its
    /// path matches the current target, so stale producers are filtered
    /// out by the selection.
    pub fn complete(&mut self, path: &Url, data: PreviewData) -> (accepted: bool)
        ensures
            final(self)@ == spec_complete(old(self)@, path@, data@).0,
            accepted == spec_complete(old(self)@, path@, data@).1,
    {
        if *path == self.path {
            self.data = data;
            self.handle = None;
            proof {
                assert(self@ =~~= spec_complete(old(self)@, path@, data@).0);
            }
            true
        } else {
            false
        }
    }

    /// The folder producer's output: a `Files` event carrying the listing
    /// or the failure to read one, and the `Folder` preview data either
    /// way.
    pub fn folder(path: &Url, listing: Option<Vec<File>>) -> (r: (FilesOp, PreviewData))
        ensures
            r.1@ == PreviewDataView::Folder,
            match listing {
                Some(items) => r.0 matches FilesOp::Read(u, fs) && u@ == path@ && fs == items,
                None => r.0 matches FilesOp::IOErr(u) && u@ == path@,
            },
    {
        let op = match listing {
            Some(items) => FilesOp::Read(path.clone(), items),
            None => FilesOp::IOErr(path.clone()),
        };
        (op, PreviewData::Folder)
    }

    /// The text of a pretty-printed document, cut to the viewport's row
    /// budget: at most `rows` lines, hence at most `rows` newlines.
    pub fn json(raw: &str, rows: usize) -> (r: String)
        ensures
            r@ == spec_first_lines(raw@, rows as nat),
            count_char(r@, '\n') <= rows,
    {
        proof {
            lemma_first_lines_newlines(raw@, rows as nat);
        }
        first_lines(raw, rows)
    }

    /// The archive producer's text: the first `rows` entry names joined
    /// by newlines.
    pub fn archive(names: &Vec<String>, rows: usize) -> (r: String)
        ensures
            r@ == join_lines(names_view(names@).take(vstd::math::min(rows as int, names@.len() as int))),
    {
        let n = if rows < names.len() {
            rows
        } else {
            names.len()
        };
        let mut out = String::new();
        let mut i: usize = 0;
        proof {
            assert(names_view(names@).take(0) =~= Seq::<Seq<char>>::empty());
        }
        while i < n
            invariant
                n <= names@.len(),
                i <= n,
                out@ == join_lines(names_view(names@).take(i as int)),
            decreases n - i,
        {
            proof {
                let pre = names_view(names@).take(i + 1);
                assert(pre.drop_last() =~= names_view(names@).take(i as int));
                assert(pre.last() == names@[i as int]@);
            }
            if i > 0 {
                crate::text::push_char(&mut out, '\n');
            }
            out.append(names[i].as_str());
            proof {
                assert(out@ =~= join_lines(names_view(names@).take(i + 1)));
            }
            i = i + 1;
        }
        out
    }

    /// The decode source the image producer uses: the cached thumbnail
    /// when one exists, the file itself otherwise.
    pub fn image_source(path: &Url, cache_exists: bool) -> (r: Url)
        ensures
            r@ == if cache_exists {
                spec_cache(path@)
            } else {
                path@
            },
    {
        if cache_exists {
            Self::cache(path)
        } else {
            path.clone()
        }
    }

    /// The video producer's plan: whether the thumbnailer must run, and
    /// the cache location that is then decoded as an image.
    pub fn video(path: &Url, cache_exists: bool) -> (r: (bool, Url))
        ensures
            r.0 == !cache_exists,
            r.1@ == spec_cache(path@),
    {
        (!cache_exists, Self::cache(path))
    }

    /// The derived-artifact location for `url`: one file under a fixed
    /// cache directory, named by an escape of the URL's identity so that
    /// distinct URLs never share a cache file, stably across runs.
    pub fn cache(url: &Url) -> (r: Url)
        ensures
            r@ == spec_cache(url@),
    {
        let mut name = String::new();
        match url.is_remote() {
            Some(sc) => {
                push_escaped(&mut name, sc.as_str());
                push_plain(&mut name, ':');
            },
            None => {
            },
        }
        let ghost comps = url@.comps;
        let mut i: usize = 0;
        let ghost scheme_part = spec_scheme_part(url@);
        proof {
            assert(name@ =~= scheme_part + spec_comps_part(comps.take(0)));
        }
        while i < url.comps.len()
            invariant
                i <= url@.comps.len(),
                comps == url@.comps,
                scheme_part == spec_scheme_part(url@),
                name@ == scheme_part + spec_comps_part(comps.take(i as int)),
            decreases url@.comps.len() - i,
        {
            proof {
                let pre = comps.take(i + 1);
                assert(pre.drop_last() =~= comps.take(i as int));
                assert(pre.last() == comps[i as int]);
            }
            push_escaped(&mut name, url.comps[i].as_str());
            push_plain(&mut name, '!');
            proof {
                assert(name@ =~= scheme_part + spec_comps_part(comps.take(i + 1)));
            }
            i = i + 1;
        }
        proof {
            assert(comps.take(comps.len() as int) =~= comps);
        }
        let mut dir: Vec<String> = Vec::new();
        dir.push(String::from_str("cache"));
        dir.push(name);
        let r = Url::local(dir);
        proof {
            assert(r@.comps =~= seq!["cache"@, spec_scheme_part(url@) + spec_comps_part(url@.comps)]);
            assert(r@ =~~= spec_cache(url@));
        }
        r
    }
}

/// The views of a sequence of strings.
pub open spec fn names_view(s: Seq<String>) -> Seq<Seq<char>> {
    s.map_values(|n: String| n@)
}

/// Lines joined by single newlines.
pub open spec fn join_lines(ls: Seq<Seq<char>>) -> Seq<char>
    decreases ls.len(),
{
    if ls.len() == 0 {
        Seq::<char>::empty()
    } else if ls.len() == 1 {
        ls[0]
    } else {
        join_lines(ls.drop_last()) + seq!['\n'] + ls.last()
    }
}

/// Joining `n` newline-free lines writes exactly `n - 1` newlines: the
/// archive preview stays within the row budget it was cut to.
pub proof fn lemma_join_lines_newlines(ls: Seq<Seq<char>>)
    requires
        forall|i: int| 0 <= i < ls.len() ==> count_char(#[trigger] ls[i], '\n') == 0,
    ensures
        count_char(join_lines(ls), '\n') == if ls.len() == 0 {
            0int
        } else {
            ls.len() - 1
        },
    decreases ls.len(),
{
    if ls.len() == 0 {
    } else if ls.len() == 1 {
        assert(ls[0] == ls.last());
    } else {
        lemma_join_lines_newlines(ls.drop_last());
        lemma_count_char_add(join_lines(ls.drop_last()), seq!['\n'], '\n');
        lemma_count_char_add(join_lines(ls.drop_last()) + seq!['\n'], ls.last(), '\n');
        assert(count_char(seq!['\n'], '\n') == 1) by {
            assert(seq!['\n'].drop_first() =~= Seq::<char>::empty());
            assert(count_char(Seq::<char>::empty(), '\n') == 0);
        }
        assert(ls[ls.len() - 1] == ls.last());
    }
}

/// Occurrence counting distributes over concatenation.
pub proof fn lemma_count_char_add(a: Seq<char>, b: Seq<char>, c: char)
    ensures
        count_char(a + b, c) == count_char(a, c) + count_char(b, c),
    decreases a.len(),
{
    if a.len() == 0 {
        assert(a + b =~= b);
    } else {
        assert((a + b).drop_first() =~= a.drop_first() + b);
        lemma_count_char_add(a.drop_first(), b, c);
    }
}

/// One character of a URL, escaped for use in a cache file name: the
/// escape character, the component separator, the scheme mark and the
/// path separator are written as percent pairs, so the name decodes
/// unambiguously and distinct URLs get distinct names.
pub open spec fn esc_char(c: char) -> Seq<char> {
    if c == '%' {
        "%25"@
    } else if c == '/' {
        "%2F"@
    } else if c == '!' {
        "%21"@
    } else if c == ':' {
        "%3A"@
    } else {
        seq![c]
    }
}

/// A string escaped character by character.
pub open spec fn esc_seq(s: Seq<char>) -> Seq<char>
    decreases s.len(),
{
    if s.len() == 0 {
        Seq::<char>::empty()
    } else {
        esc_char(s[0]) + esc_seq(s.drop_first())
    }
}

/// The scheme's contribution to a cache name: the escaped scheme and a
/// mark, nothing for a local URL.
pub open spec fn spec_scheme_part(u: UrlView) -> Seq<char> {
    match u.scheme {
        Some(sc) => esc_seq(sc) + seq![':'],
        None => Seq::<char>::empty(),
    }
}

/// The components' contribution to a cache name: each escaped and closed
/// by a separator.
pub open spec fn spec_comps_part(comps: Seq<Seq<char>>) -> Seq<char>
    decreases comps.len(),
{
    if comps.len() == 0 {
        Seq::<char>::empty()
    } else {
        spec_comps_part(comps.drop_last()) + esc_seq(comps.last()) + seq!['!']
    }
}

/// The derived-artifact location of a URL: a single file under the cache
/// directory whose name encodes the URL's scheme and components.
pub open spec fn spec_cache(u: UrlView) -> UrlView {
    UrlView {
        scheme: None,
        comps: seq!["cache"@, spec_scheme_part(u) + spec_comps_part(u.comps)],
    }
}

/// Append one character as it is.
fn push_plain(out: &mut String, c: char)
    ensures
        final(out)@ == old(out)@.push(c),
{
    crate::text::push_char(out, c);
}

/// Append a string, escaping it for a cache file name.
fn push_escaped(out: &mut String, s: &str)
    ensures
        final(out)@ == old(out)@ + esc_seq(s@),
{
    let len = s.unicode_len();
    let mut i: usize = 0;
    proof {
        assert(s@.skip(0) =~= s@);
        assert(old(out)@ + esc_seq(s@) == out@ + esc_seq(s@.skip(0)));
    }
    while i < len
        invariant
            len == s@.len(),
            i <= len,
            old(out)@ + esc_seq(s@) == out@ + esc_seq(s@.skip(i as int)),
        decreases len - i,
    {
        let c = s.get_char(i);
        let ghost rest = s@.skip(i as int);
        let ghost out0 = out@;
        proof {
            assert(rest.len() > 0 && rest[0] == s@[i as int]);
            assert(rest.drop_first() =~= s@.skip(i + 1));
            reveal_strlit("%25");
            reveal_strlit("%2F");
            reveal_strlit("%21");
            reveal_strlit("%3A");
        }
        if c == '%' {
            crate::text::push_char(out, '%');
            crate::text::push_char(out, '2');
            crate::text::push_char(out, '5');
        } else if c == '/' {
            crate::text::push_char(out, '%');
            crate::text::push_char(out, '2');
            crate::text::push_char(out, 'F');
        } else if c == '!' {
            crate::text::push_char(out, '%');
            crate::text::push_char(out, '2');
            crate::text::push_char(out, '1');
        } else if c == ':' {
            crate::text::push_char(out, '%');
            crate::text::push_char(out, '3');
            crate::text::push_char(out, 'A');
        } else {
            crate::text::push_char(out, c);
        }
        proof {
            assert(out@ =~= out0 + esc_char(rest[0]));
            assert(esc_seq(rest) =~= esc_char(rest[0]) + esc_seq(rest.drop_first()));
            assert(out0 + esc_seq(rest) =~= (out0 + esc_char(rest[0])) + esc_seq(s@.skip(i + 1)));
        }
        i = i + 1;
    }
    proof {
        assert(s@.skip(len as int) =~= Seq::<char>::empty());
        assert(out@ + esc_seq(s@.skip(len as int)) =~= out@);
    }
}

/// Escaping emits at least one character per character.
proof fn lemma_esc_char_len(c: char)
    ensures
        1 <= esc_char(c).len(),
        esc_char(c)[0] == '%' || esc_char(c) == seq![c],
        esc_char(c).len() == 1 || esc_char(c)[0] == '%',
{
    reveal_strlit("%25");
    reveal_strlit("%2F");
    reveal_strlit("%21");
    reveal_strlit("%3A");
    broadcast use vstd::string::group_string_axioms;

}

/// Escaped text never holds a separator or a scheme mark.
proof fn lemma_esc_seq_clean(s: Seq<char>)
    ensures
        forall|i: int| 0 <= i < esc_seq(s).len() ==> esc_seq(s)[i] != '!' && esc_seq(s)[i] != ':',
    decreases s.len(),
{
    reveal_strlit("%25");
    reveal_strlit("%2F");
    reveal_strlit("%21");
    reveal_strlit("%3A");
    broadcast use vstd::string::group_string_axioms;

    if s.len() > 0 {
        lemma_esc_seq_clean(s.drop_first());
        let head = esc_char(s[0]);
        let tail = esc_seq(s.drop_first());
        assert(forall|i: int| 0 <= i < head.len() ==> head[i] != '!' && head[i] != ':');
        assert forall|i: int| 0 <= i < esc_seq(s).len() implies esc_seq(s)[i] != '!' && esc_seq(
            s,
        )[i] != ':' by {
            if i < head.len() {
                assert(esc_seq(s)[i] == head[i]);
            } else {
                assert(esc_seq(s)[i] == tail[i - head.len()]);
            }
        }
    }
}

/// Equal concatenations with equally long left parts cancel.
proof fn lemma_concat_cancel(h1: Seq<char>, t1: Seq<char>, h2: Seq<char>, t2: Seq<char>)
    requires
        h1 + t1 == h2 + t2,
        h1.len() == h2.len(),
    ensures
        h1 == h2,
        t1 == t2,
{
    broadcast use vstd::seq::axiom_seq_add_len;

    assert((h1 + t1).len() == h1.len() + t1.len());
    assert((h2 + t2).len() == h2.len() + t2.len());
    assert((h1 + t1).len() == (h2 + t2).len());
    assert forall|i: int| 0 <= i < h1.len() implies h1[i] == h2[i] by {
        assert((h1 + t1)[i] == h1[i]);
        assert((h2 + t2)[i] == h2[i]);
    }
    assert(h1 =~= h2);
    assert(t1.len() == t2.len());
    assert forall|i: int| 0 <= i < t1.len() implies t1[i] == t2[i] by {
        assert((h1 + t1)[h1.len() + i] == t1[i]);
        assert((h2 + t2)[h2.len() + i] == t2[i]);
    }
    assert(t1 =~= t2);
}

/// Character escaping is reversible: distinct characters never share an
/// escape, and an escaped string decodes to exactly one original.
proof fn lemma_esc_seq_injective(a: Seq<char>, b: Seq<char>)
    requires
        esc_seq(a) == esc_seq(b),
    ensures
        a == b,
    decreases a.len(),
{
    reveal_strlit("%25");
    reveal_strlit("%2F");
    reveal_strlit("%21");
    reveal_strlit("%3A");
    broadcast use vstd::string::group_string_axioms;

    if a.len() == 0 || b.len() == 0 {
        if a.len() != 0 || b.len() != 0 {
            if a.len() > 0 {
                lemma_esc_char_len(a[0]);
                assert(esc_seq(a).len() >= 1);
            }
            if b.len() > 0 {
                lemma_esc_char_len(b[0]);
                assert(esc_seq(b).len() >= 1);
            }
            assert(false);
        }
        assert(a =~= b);
    } else {
        lemma_esc_char_len(a[0]);
        lemma_esc_char_len(b[0]);
        let ha = esc_char(a[0]);
        let hb = esc_char(b[0]);
        assert(esc_seq(a)[0] == ha[0]);
        assert(esc_seq(b)[0] == hb[0]);
        if ha[0] == '%' && hb[0] == '%' {
            assert(ha.len() == 3 && hb.len() == 3);
            assert(esc_seq(a)[1] == ha[1] && esc_seq(a)[2] == ha[2]);
            assert(esc_seq(b)[1] == hb[1] && esc_seq(b)[2] == hb[2]);
            assert(a[0] == b[0]);
        } else {
            assert(ha[0] != '%' ==> (ha == seq![a[0]] && a[0] != '%'));
            assert(hb[0] != '%' ==> (hb == seq![b[0]] && b[0] != '%'));
            assert(ha[0] == hb[0]);
            assert(a[0] == b[0]);
        }
        lemma_concat_cancel(ha, esc_seq(a.drop_first()), hb, esc_seq(b.drop_first()));
        lemma_esc_seq_injective(a.drop_first(), b.drop_first());
        assert(a =~= seq![a[0]] + a.drop_first());
        assert(b =~= seq![b[0]] + b.drop_first());
    }
}

/// A separator-closed prefix and a separator-free suffix split a string
/// in only one way.
proof fn lemma_split_at_last_sep(p1: Seq<char>, e1: Seq<char>, p2: Seq<char>, e2: Seq<char>, sep: char)
    requires
        p1 + e1 == p2 + e2,
        p1.len() == 0 || p1.last() == sep,
        p2.len() == 0 || p2.last() == sep,
        forall|i: int| 0 <= i < e1.len() ==> e1[i] != sep,
        forall|i: int| 0 <= i < e2.len() ==> e2[i] != sep,
    ensures
        p1 == p2,
        e1 == e2,
{
    broadcast use vstd::seq::axiom_seq_add_len;

    assert(p1.len() + e1.len() == p2.len() + e2.len()) by {
        assert((p1 + e1).len() == (p2 + e2).len());
        assert((p1 + e1).len() == p1.len() + e1.len());
        assert((p2 + e2).len() == p2.len() + e2.len());
    }
    if p1.len() < p2.len() {
        let j = p2.len() - 1;
        assert((p2 + e2)[j] == p2[j]);
        assert(p2[j] == sep);
        assert(p1.len() <= j < p1.len() + e1.len());
        assert((p1 + e1)[j] == e1[j - p1.len()]);
        assert(false);
    }
    if p2.len() < p1.len() {
        let j = p1.len() - 1;
        assert((p1 + e1)[j] == p1[j]);
        assert(p1[j] == sep);
        assert(p2.len() <= j < p2.len() + e2.len());
        assert((p2 + e2)[j] == e2[j - p2.len()]);
        assert(false);
    }
    lemma_concat_cancel(p1, e1, p2, e2);
}

/// The component part of a cache name is empty or ends with the
/// separator, and never holds the scheme mark.
proof fn lemma_comps_part_shape(comps: Seq<Seq<char>>)
    ensures
        comps.len() == 0 ==> spec_comps_part(comps).len() == 0,
        comps.len() > 0 ==> spec_comps_part(comps).len() > 0 && spec_comps_part(comps).last()
            == '!',
        forall|i: int| 0 <= i < spec_comps_part(comps).len() ==> spec_comps_part(comps)[i] != ':',
    decreases comps.len(),
{
    if comps.len() > 0 {
        lemma_comps_part_shape(comps.drop_last());
        lemma_esc_seq_clean(comps.last());
        let whole = spec_comps_part(comps.drop_last()) + esc_seq(comps.last()) + seq!['!'];
        assert(whole.last() == '!');
        assert forall|i: int| 0 <= i < whole.len() implies whole[i] != ':' by {
            let pre = spec_comps_part(comps.drop_last());
            let mid = esc_seq(comps.last());
            if i < pre.len() {
                assert(whole[i] == pre[i]);
            } else if i < pre.len() + mid.len() {
                assert(whole[i] == mid[i - pre.len()]);
            } else {
                assert(whole[i] == '!');
            }
        }
    }
}

/// Distinct component sequences never share a cache-name component part.
proof fn lemma_comps_part_injective(a: Seq<Seq<char>>, b: Seq<Seq<char>>)
    requires
        spec_comps_part(a) == spec_comps_part(b),
    ensures
        a == b,
    decreases a.len(),
{
    lemma_comps_part_shape(a);
    lemma_comps_part_shape(b);
    if a.len() == 0 || b.len() == 0 {
        assert(a.len() == 0 && b.len() == 0);
        assert(a =~= b);
    } else {
        let pa = spec_comps_part(a.drop_last());
        let pb = spec_comps_part(b.drop_last());
        let ea = esc_seq(a.last());
        let eb = esc_seq(b.last());
        lemma_comps_part_shape(a.drop_last());
        lemma_comps_part_shape(b.drop_last());
        lemma_esc_seq_clean(a.last());
        lemma_esc_seq_clean(b.last());
        assert((pa + ea + seq!['!']).drop_last() =~= pa + ea);
        assert((pb + eb + seq!['!']).drop_last() =~= pb + eb);
        assert(pa + ea == pb + eb);
        lemma_split_at_last_sep(pa, ea, pb, eb, '!');
        lemma_esc_seq_injective(a.last(), b.last());
        lemma_comps_part_injective(a.drop_last(), b.drop_last());
        assert(a =~= a.drop_last().push(a.last()));
        assert(b =~= b.drop_last().push(b.last()));
    }
}

/// The cache mapping is collision-resistant: distinct URLs always map to
/// distinct cache locations.
pub proof fn lemma_cache_injective(u1: UrlView, u2: UrlView)
    requires
        spec_cache(u1) == spec_cache(u2),
    ensures
        u1 == u2,
{
    let n1 = spec_scheme_part(u1) + spec_comps_part(u1.comps);
    let n2 = spec_scheme_part(u2) + spec_comps_part(u2.comps);
    assert(spec_cache(u1).comps[1] == n1);
    assert(spec_cache(u2).comps[1] == n2);
    lemma_comps_part_shape(u1.comps);
    lemma_comps_part_shape(u2.comps);
    match (u1.scheme, u2.scheme) {
        (None, None) => {
            assert(spec_scheme_part(u1) =~= Seq::<char>::empty());
            assert(spec_scheme_part(u2) =~= Seq::<char>::empty());
            assert(n1 =~= spec_comps_part(u1.comps));
            assert(n2 =~= spec_comps_part(u2.comps));
            lemma_comps_part_injective(u1.comps, u2.comps);
            assert(u1 =~~= u2);
        },
        (Some(s1), Some(s2)) => {
            lemma_esc_seq_clean(s1);
            lemma_esc_seq_clean(s2);
            assert(n1 =~= esc_seq(s1) + seq![':'] + spec_comps_part(u1.comps));
            assert(n2 =~= esc_seq(s2) + seq![':'] + spec_comps_part(u2.comps));
            lemma_first_mark_split(
                esc_seq(s1),
                spec_comps_part(u1.comps),
                esc_seq(s2),
                spec_comps_part(u2.comps),
            );
            lemma_esc_seq_injective(s1, s2);
            lemma_comps_part_injective(u1.comps, u2.comps);
            assert(u1 =~~= u2);
        },
        (Some(s1), None) => {
            lemma_esc_seq_clean(s1);
            let k = esc_seq(s1).len() as int;
            assert(n1[k] == ':') by {
                assert(n1 =~= esc_seq(s1) + seq![':'] + spec_comps_part(u1.comps));
            }
            assert(n2 =~= spec_comps_part(u2.comps));
            assert(n2[k] != ':');
            assert(false);
        },
        (None, Some(s2)) => {
            lemma_esc_seq_clean(s2);
            let k = esc_seq(s2).len() as int;
            assert(n2[k] == ':') by {
                assert(n2 =~= esc_seq(s2) + seq![':'] + spec_comps_part(u2.comps));
            }
            assert(n1 =~= spec_comps_part(u1.comps));
            assert(n1[k] != ':');
            assert(false);
        },
    }
}

/// A mark-free prefix, the scheme mark, and any suffix split a string in
/// only one way.
proof fn lemma_first_mark_split(a1: Seq<char>, r1: Seq<char>, a2: Seq<char>, r2: Seq<char>)
    requires
        a1 + seq![':'] + r1 == a2 + seq![':'] + r2,
        forall|i: int| 0 <= i < a1.len() ==> a1[i] != ':',
        forall|i: int| 0 <= i < a2.len() ==> a2[i] != ':',
    ensures
        a1 == a2,
        r1 == r2,
{
    broadcast use vstd::seq::axiom_seq_add_len;

    assert((a1 + seq![':']).len() == a1.len() + 1);
    assert((a2 + seq![':']).len() == a2.len() + 1);
    assert((a1 + seq![':'] + r1).len() == (a1 + seq![':']).len() + r1.len());
    assert((a2 + seq![':'] + r2).len() == (a2 + seq![':']).len() + r2.len());
    if a1.len() < a2.len() {
        let i = a1.len() as int;
        assert((a1 + seq![':'] + r1)[i] == (a1 + seq![':'])[i]);
        assert((a1 + seq![':'])[i] == seq![':'][0]);
        assert((a2 + seq![':'] + r2)[i] == (a2 + seq![':'])[i]);
        assert((a2 + seq![':'])[i] == a2[i]);
        assert(false);
    }
    if a2.len() < a1.len() {
        let i = a2.len() as int;
        assert((a2 + seq![':'] + r2)[i] == (a2 + seq![':'])[i]);
        assert((a2 + seq![':'])[i] == seq![':'][0]);
        assert((a1 + seq![':'] + r1)[i] == (a1 + seq![':'])[i]);
        assert((a1 + seq![':'])[i] == a1[i]);
        assert(false);
    }
    lemma_concat_cancel(a1 + seq![':'], r1, a2 + seq![':'], r2);
    lemma_concat_cancel(a1, seq![':'], a2, seq![':']);
}

/// What a producer run hands back: a directory listing for the folder
/// producer, or the computed data of any other, absent on failure.
#[derive(Debug)]
pub enum ProducerInput {
    Listing(Option<Vec<File>>),
    Outcome(Option<PreviewData>),
}

/// The preview data a producer run settles on: `Folder` for a directory,
/// the computed data where one arrived and the kind accepts it, the empty
/// variant for every failure and for unsupported kinds.
pub open spec fn produced_data(kind: MimeKind, input: ProducerInput) -> PreviewDataView {
    if kind is Dir {
        match input {
            ProducerInput::Listing(_) => PreviewDataView::Folder,
            ProducerInput::Outcome(_) => PreviewDataView::Empty,
        }
    } else if kind is Others {
        PreviewDataView::Empty
    } else {
        match input {
            ProducerInput::Outcome(Some(d)) => d@,
            _ => PreviewDataView::Empty,
        }
    }
}

/// How many `Preview` events a sequence holds.
pub open spec fn count_previews(evs: Seq<Event>) -> nat
    decreases evs.len(),
{
    if evs.len() == 0 {
        0
    } else {
        count_previews(evs.drop_last()) + if evs.last() is Preview {
            1nat
        } else {
            0nat
        }
    }
}

/// Run one producer to completion: the events it emits. Exactly one
/// `Preview` event is emitted, carrying the job's path; the folder
/// producer additionally emits one `Files` event before it.
pub fn produce(job: ProducerJob, input: ProducerInput) -> (evs: Vec<Event>)
    ensures
        count_previews(evs@) == 1,
        evs@.len() >= 1,
        evs@.last() matches Event::Preview(p, d) && p@ == job.path@ && d@ == produced_data(
            job.kind,
            input,
        ),
        input matches ProducerInput::Listing(Some(files)) ==> (job.kind is Dir ==> (evs@.len()
            == 2 && (evs@[0] matches Event::Files(FilesOp::Read(u, fs)) && u@ == job.path@ && fs
            == files))),
        (job.kind is Dir && input matches ProducerInput::Listing(None)) ==> (evs@.len() == 2 && (
        evs@[0] matches Event::Files(FilesOp::IOErr(u)) && u@ == job.path@)),
        !(job.kind is Dir && input matches ProducerInput::Listing(_)) ==> evs@.len() == 1,
{
    let mut evs: Vec<Event> = Vec::new();
    match input {
        ProducerInput::Listing(listing) => {
            if job.kind == MimeKind::Dir {
                let (op, data) = Preview::folder(&job.path, listing);
                evs.push(Event::Files(op));
                evs.push(Event::Preview(job.path, data));
                proof {
                    assert(evs@.drop_last() =~= seq![evs@[0]]);
                    assert(seq![evs@[0]].drop_last() =~= Seq::<Event>::empty());
                    assert(count_previews(Seq::<Event>::empty()) == 0);
                    assert(count_previews(seq![evs@[0]]) == 0);
                    assert(count_previews(evs@) == 1);
                }
            } else {
                evs.push(Event::Preview(job.path, PreviewData::Empty));
                proof {
                    assert(evs@.drop_last() =~= Seq::<Event>::empty());
                    assert(count_previews(Seq::<Event>::empty()) == 0);
                    assert(count_previews(evs@) == 1);
                }
            }
        },
        ProducerInput::Outcome(out) => {
            let data = if job.kind == MimeKind::Dir || job.kind == MimeKind::Others {
                PreviewData::Empty
            } else {
                match out {
                    Some(d) => d,
                    None => PreviewData::Empty,
                }
            };
            evs.push(Event::Preview(job.path, data));
            proof {
                assert(evs@.drop_last() =~= Seq::<Event>::empty());
                assert(count_previews(Seq::<Event>::empty()) == 0);
                assert(count_previews(evs@) == 1);
            }
        },
    }
    evs
}

} // verus!
