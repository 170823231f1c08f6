//! Addressable locations: a local filesystem path or a remote
//! `(scheme, path)` pair. A path is kept as its sequence of components,
//! root-first, so that joining, parents and file names are plain sequence
//! operations.

use vstd::prelude::*;

verus! {

/// Mathematical shape of a [`Url`]: an optional scheme and the path
/// components, each a sequence of characters.
#[verifier::ext_equal]
pub ghost struct UrlView {
    pub scheme: Option<Seq<char>>,
    pub comps: Seq<Seq<char>>,
}

/// An addressable location. `scheme` is `None` for local paths; the path
/// itself is the sequence of its components, root-first.
#[derive(Debug)]
pub struct Url {
    pub scheme: Option<String>,
    pub comps: Vec<String>,
}

impl View for Url {
    type V = UrlView;

    open spec fn view(&self) -> UrlView {
        UrlView {
            scheme: match self.scheme {
                Some(s) => Some(s@),
                None => None,
            },
            comps: self.comps.deep_view(),
        }
    }
}

/// Index of the last `'.'` that sits strictly after the first character of
/// `s`, or `-1` when there is none. Mirrors how a file stem is split from
/// its extension: a leading dot marks a hidden name, not an extension.
pub open spec fn rfind_dot(s: Seq<char>) -> int
    decreases s.len(),
{
    if s.len() <= 1 {
        -1
    } else if s[s.len() - 1] == '.' {
        s.len() - 1
    } else {
        rfind_dot(s.drop_last())
    }
}

/// The stem of a file name: everything before the last extension dot, or
/// the whole name when there is no extension.
pub open spec fn stem_of(name: Seq<char>) -> Seq<char> {
    if rfind_dot(name) == -1 {
        name
    } else {
        name.subrange(0, rfind_dot(name))
    }
}

proof fn lemma_rfind_dot_range(s: Seq<char>)
    ensures
        rfind_dot(s) == -1 || (1 <= rfind_dot(s) < s.len() && s[rfind_dot(s)] == '.'),
    decreases s.len(),
{
    if s.len() <= 1 {
    } else if s[s.len() - 1] == '.' {
    } else {
        lemma_rfind_dot_range(s.drop_last());
    }
}

impl Url {
    /// A local URL with the given components.
    pub fn local(comps: Vec<String>) -> (r: Url)
        ensures
            r@.scheme is None,
            r@.comps == comps.deep_view(),
    {
        Url { scheme: None, comps }
    }

    /// A remote URL: a scheme plus the path components under it.
    pub fn remote(scheme: String, comps: Vec<String>) -> (r: Url)
        ensures
            r@.scheme == Some(scheme@),
            r@.comps == comps.deep_view(),
    {
        Url { scheme: Some(scheme), comps }
    }

    /// True of the empty local URL, the state a preview slot is cleared to.
    pub open spec fn spec_is_default(self) -> bool {
        self@.scheme is None && self@.comps.len() == 0
    }

    /// Whether this URL is the empty local URL.
    pub fn is_default(&self) -> (r: bool)
        ensures
            r == self.spec_is_default(),
    {
        self.scheme.is_none() && self.comps.len() == 0
    }

    /// The scheme when the URL is remote, `None` when it is local.
    pub fn is_remote(&self) -> (r: Option<&String>)
        ensures
            match r {
                Some(s) => self@.scheme == Some(s@),
                None => self@.scheme is None,
            },
    {
        self.scheme.as_ref()
    }

    /// The URL one component deeper: this path with `name` appended.
    pub fn join(&self, name: &String) -> (r: Url)
        ensures
            r@.scheme == self@.scheme,
            r@.comps == self@.comps.push(name@),
    {
        let mut comps = clone_comps(&self.comps);
        comps.push(name.clone());
        let r = Url { scheme: clone_scheme(&self.scheme), comps };
        proof {
            assert(r@.comps =~= self@.comps.push(name@));
        }
        r
    }

    /// The last path component, absent on an empty path.
    pub fn file_name(&self) -> (r: Option<&String>)
        ensures
            match r {
                Some(n) => self@.comps.len() > 0 && n@ == self@.comps.last(),
                None => self@.comps.len() == 0,
            },
    {
        if self.comps.len() == 0 {
            None
        } else {
            Some(&self.comps[self.comps.len() - 1])
        }
    }

    /// The containing URL: this path with its last component removed,
    /// absent on an empty path.
    pub fn parent_url(&self) -> (r: Option<Url>)
        ensures
            match r {
                Some(p) => {
                    &&& self@.comps.len() > 0
                    &&& p@.scheme == self@.scheme
                    &&& p@.comps == self@.comps.drop_last()
                },
                None => self@.comps.len() == 0,
            },
    {
        if self.comps.len() == 0 {
            return None;
        }
        let mut comps = clone_comps(&self.comps);
        let _ = comps.pop();
        let p = Url { scheme: clone_scheme(&self.scheme), comps };
        proof {
            assert(p@.comps =~= self@.comps.drop_last());
        }
        Some(p)
    }

    /// A file name is hidden when it starts with a dot.
    pub open spec fn spec_is_hidden(self) -> bool {
        self@.comps.len() > 0 && self@.comps.last().len() > 0 && self@.comps.last()[0] == '.'
    }

    /// Whether the file name uses leading-dot (hidden) naming.
    pub fn is_hidden(&self) -> (r: bool)
        ensures
            r == self.spec_is_hidden(),
    {
        match self.file_name() {
            None => false,
            Some(name) => {
                let n = name.as_str();
                if n.unicode_len() == 0 {
                    false
                } else {
                    n.get_char(0) == '.'
                }
            },
        }
    }

    /// The file name with its extension removed, absent on an empty path.
    pub fn file_stem(&self) -> (r: Option<String>)
        ensures
            match r {
                Some(s) => self@.comps.len() > 0 && s@ == stem_of(self@.comps.last()),
                None => self@.comps.len() == 0,
            },
    {
        let name = match self.file_name() {
            None => { return None; },
            Some(n) => n.as_str(),
        };
        let ghost nv = self@.comps.last();
        let len = name.unicode_len();
        let mut i: usize = len;
        proof {
            assert(nv.subrange(0, len as int) =~= nv);
        }
        while i > 1 && name.get_char(i - 1) != '.'
            invariant
                i <= len,
                len == nv.len(),
                name@ == nv,
                rfind_dot(nv) == rfind_dot(nv.subrange(0, i as int)),
            decreases i,
        {
            proof {
                let pre = nv.subrange(0, i as int);
                assert(pre.drop_last() =~= nv.subrange(0, i - 1));
            }
            i = i - 1;
        }
        proof {
            lemma_rfind_dot_range(nv);
        }
        if i <= 1 {
            proof {
                let pre = nv.subrange(0, i as int);
                assert(rfind_dot(pre) == -1);
            }
            Some(String::from_str(name))
        } else {
            proof {
                let pre = nv.subrange(0, i as int);
                assert(pre.len() > 1 && pre[pre.len() - 1] == '.');
                assert(rfind_dot(pre) == i - 1);
            }
            Some(String::from_str(name.substring_char(0, i - 1)))
        }
    }
}

impl Default for Url {
    /// The empty local URL.
    fn default() -> (r: Url)
        ensures
            r.spec_is_default(),
    {
        let r = Url { scheme: None, comps: Vec::new() };
        proof {
            assert(r@.comps =~= Seq::<Seq<char>>::empty());
        }
        r
    }
}

impl Clone for Url {
    /// A clone addresses the same location.
    fn clone(&self) -> (r: Url)
        ensures
            r@ == self@,
    {
        let r = Url { scheme: clone_scheme(&self.scheme), comps: clone_comps(&self.comps) };
        proof {
            assert(r@ =~~= self@);
        }
        r
    }
}

impl PartialEq for Url {
    /// Two URLs are equal when they name the same scheme and the same
    /// component sequence.
    fn eq(&self, other: &Url) -> (r: bool)
        ensures
            r == (self@ == other@),
    {
        let scheme_eq = match (&self.scheme, &other.scheme) {
            (None, None) => true,
            (Some(a), Some(b)) => *a == *b,
            _ => false,
        };
        if !scheme_eq {
            proof {
                assert(self@.scheme != other@.scheme);
            }
            return false;
        }
        if self.comps.len() != other.comps.len() {
            proof {
                assert(self@.comps.len() != other@.comps.len());
            }
            return false;
        }
        let n = self.comps.len();
        let mut i: usize = 0;
        while i < n
            invariant
                n == self.comps.len() == other.comps.len(),
                i <= n,
                forall|j: int| 0 <= j < i ==> self@.comps[j] == other@.comps[j],
            decreases n - i,
        {
            if !(self.comps[i] == other.comps[i]) {
                proof {
                    assert(self@.comps[i as int] != other@.comps[i as int]);
                }
                return false;
            }
            i = i + 1;
        }
        proof {
            assert(self@.comps =~= other@.comps);
            assert(self@ =~~= other@);
        }
        true
    }
}

impl Eq for Url {

}

impl vstd::std_specs::cmp::PartialEqSpecImpl for Url {
    open spec fn obeys_eq_spec() -> bool {
        true
    }

    open spec fn eq_spec(&self, other: &Url) -> bool {
        self@ == other@
    }
}

/// Element-wise copy of a component vector.
fn clone_comps(comps: &Vec<String>) -> (r: Vec<String>)
    ensures
        r.deep_view() == comps.deep_view(),
{
    let mut r: Vec<String> = Vec::new();
    let mut i: usize = 0;
    while i < comps.len()
        invariant
            i <= comps.len(),
            r.len() == i,
            forall|j: int| 0 <= j < i ==> r.deep_view()[j] == comps.deep_view()[j],
        decreases comps.len() - i,
    {
        r.push(comps[i].clone());
        i = i + 1;
    }
    proof {
        assert(r.deep_view() =~= comps.deep_view());
    }
    r
}

/// Copy of an optional scheme.
fn clone_scheme(scheme: &Option<String>) -> (r: Option<String>)
    ensures
        match r {
            Some(s) => scheme matches Some(o) && s@ == o@,
            None => scheme is None,
        },
{
    match scheme {
        None => None,
        Some(s) => Some(s.clone()),
    }
}

} // verus!
